//! Choosing the processor's temperature among the labelled readings of a
//! sensor registry.

use crate::temperature::{Failure, Temperature};
use crate::text::{chars_of, contains, has_substring, lowered, same_chars, to_lower};
use vstd::prelude::*;

verus! {

/// One entry of the sensor registry: a free-form label and the value read.
#[derive(Debug)]
pub struct SensorReading {
    pub label: String,
    pub value: Temperature,
}

/// Whether a label names the package sensor itself. Capitals count as
/// their lower-case forms.
pub open spec fn is_package_label(label: Seq<char>) -> bool {
    lowered(label) == "package id 0"@ || lowered(label) == "tctl"@
}

/// Whether a label points to the processor or one of its cores.
pub open spec fn is_cpu_label(label: Seq<char>) -> bool {
    contains(lowered(label), "cpu"@) || contains(lowered(label), "core"@)
}

/// The value of the first package sensor from `from` on.
pub open spec fn package_value_from(readings: Seq<SensorReading>, from: int) -> Option<
    Temperature,
>
    decreases readings.len() - from,
{
    if from < 0 || from >= readings.len() {
        None
    } else if is_package_label(readings[from].label@) {
        Some(readings[from].value)
    } else {
        package_value_from(readings, from + 1)
    }
}

/// The highest value among the readings with a processor label, and zero
/// where none of them is above zero.
pub open spec fn hottest_cpu(readings: Seq<SensorReading>) -> Temperature
    decreases readings.len(),
{
    if readings.len() == 0 {
        Temperature { millidegrees: 0 }
    } else {
        let before = hottest_cpu(readings.drop_last());
        let last = readings.last();
        if is_cpu_label(last.label@) && last.value.millidegrees > before.millidegrees {
            last.value
        } else {
            before
        }
    }
}

/// The first value above zero from `from` on, whatever its label.
pub open spec fn positive_value_from(readings: Seq<SensorReading>, from: int) -> Option<
    Temperature,
>
    decreases readings.len() - from,
{
    if from < 0 || from >= readings.len() {
        None
    } else if readings[from].value.millidegrees > 0 {
        Some(readings[from].value)
    } else {
        positive_value_from(readings, from + 1)
    }
}

/// The value that the labels point to: that of the first package sensor,
/// or without one the highest among the processor's readings.
pub open spec fn labelled_value(readings: Seq<SensorReading>) -> Temperature {
    match package_value_from(readings, 0) {
        Some(t) => t,
        None => hottest_cpu(readings),
    }
}

/// The registry's answer: the value that the labels point to, or where that
/// is zero the first value above zero, or zero.
pub open spec fn registry_value(readings: Seq<SensorReading>) -> Temperature {
    if labelled_value(readings).millidegrees != 0 {
        labelled_value(readings)
    } else {
        match positive_value_from(readings, 0) {
            Some(t) => t,
            None => Temperature { millidegrees: 0 },
        }
    }
}

/// The registry's answer as a reading or the reason why there is none.
pub open spec fn registry_outcome(readings: Seq<SensorReading>) -> Result<Temperature, Failure> {
    if readings.len() == 0 {
        Err(Failure::RegistryEmpty)
    } else if registry_value(readings).millidegrees == 0 {
        Err(Failure::NoMatchingSensor)
    } else {
        Ok(registry_value(readings))
    }
}

/// `hottest_cpu` is zero or more, is no lower than any reading with a
/// processor label, and is zero or the value of such a reading.
pub proof fn lemma_hottest_cpu(readings: Seq<SensorReading>)
    ensures
        hottest_cpu(readings).millidegrees >= 0,
        forall|i: int|
            0 <= i < readings.len() && is_cpu_label(#[trigger] readings[i].label@)
                ==> readings[i].value.millidegrees <= hottest_cpu(readings).millidegrees,
        hottest_cpu(readings).millidegrees == 0 || exists|i: int|
            0 <= i < readings.len() && is_cpu_label(#[trigger] readings[i].label@)
                && readings[i].value == hottest_cpu(readings),
    decreases readings.len(),
{
    if readings.len() > 0 {
        let before = readings.drop_last();
        lemma_hottest_cpu(before);
        assert forall|i: int|
            0 <= i < readings.len() && is_cpu_label(
                #[trigger] readings[i].label@,
            ) implies readings[i].value.millidegrees <= hottest_cpu(readings).millidegrees by {
            if i < before.len() {
                assert(before[i] == readings[i]);
            }
        }
        if hottest_cpu(readings) == hottest_cpu(before) {
            if hottest_cpu(before).millidegrees != 0 {
                let i = choose|i: int|
                    0 <= i < before.len() && is_cpu_label(#[trigger] before[i].label@)
                        && before[i].value == hottest_cpu(before);
                assert(before[i] == readings[i]);
            }
        } else {
            let i = readings.len() - 1;
            assert(is_cpu_label(readings[i].label@) && readings[i].value == hottest_cpu(readings));
        }
    }
}

/// Whether a label names the package sensor itself.
pub fn names_package(label: &str) -> (named: bool)
    ensures
        named == is_package_label(label@),
{
    let chars: Vec<char> = chars_of(label);
    let lower: Vec<char> = to_lower(chars.as_slice());
    let package: Vec<char> = chars_of("package id 0");
    let control: Vec<char> = chars_of("tctl");
    same_chars(lower.as_slice(), package.as_slice()) || same_chars(
        lower.as_slice(),
        control.as_slice(),
    )
}

/// Whether a label points to the processor or one of its cores.
pub fn names_cpu(label: &str) -> (named: bool)
    ensures
        named == is_cpu_label(label@),
{
    let chars: Vec<char> = chars_of(label);
    let lower: Vec<char> = to_lower(chars.as_slice());
    let cpu: Vec<char> = chars_of("cpu");
    let core: Vec<char> = chars_of("core");
    has_substring(lower.as_slice(), cpu.as_slice()) || has_substring(
        lower.as_slice(),
        core.as_slice(),
    )
}

/// The value that the labels point to.
pub fn labelled_value_of(readings: &[SensorReading]) -> (t: Temperature)
    ensures
        t == labelled_value(readings@),
{
    let mut hottest: Temperature = Temperature::zero();
    let mut i: usize = 0;
    while i < readings.len()
        invariant
            i <= readings@.len(),
            package_value_from(readings@, 0) == package_value_from(readings@, i as int),
            hottest == hottest_cpu(readings@.take(i as int)),
        decreases readings@.len() - i,
    {
        let reading: &SensorReading = &readings[i];
        if names_package(reading.label.as_str()) {
            return reading.value;
        }
        proof {
            assert(readings@.take(i + 1).drop_last() =~= readings@.take(i as int));
            assert(readings@.take(i + 1).last() == readings@[i as int]);
        }
        if names_cpu(reading.label.as_str()) && reading.value.millidegrees > hottest.millidegrees {
            hottest = reading.value;
        }
        i += 1;
    }
    proof {
        assert(readings@.take(i as int) =~= readings@);
    }
    hottest
}

/// The first value above zero, whatever its label.
pub fn first_positive_value(readings: &[SensorReading]) -> (t: Option<Temperature>)
    ensures
        t == positive_value_from(readings@, 0),
{
    let mut i: usize = 0;
    while i < readings.len()
        invariant
            i <= readings@.len(),
            positive_value_from(readings@, 0) == positive_value_from(readings@, i as int),
        decreases readings@.len() - i,
    {
        if readings[i].value.millidegrees > 0 {
            return Some(readings[i].value);
        }
        i += 1;
    }
    None
}

/// The registry's answer, zero where it has none.
pub fn scan_registry(readings: &[SensorReading]) -> (t: Temperature)
    ensures
        t == registry_value(readings@),
{
    let labelled: Temperature = labelled_value_of(readings);
    if !labelled.is_zero() {
        return labelled;
    }
    match first_positive_value(readings) {
        Some(t) => t,
        None => Temperature::zero(),
    }
}

/// The registry's answer as a reading or the reason why there is none.
pub fn read_registry(readings: &[SensorReading]) -> (r: Result<Temperature, Failure>)
    ensures
        r == registry_outcome(readings@),
{
    if readings.len() == 0 {
        return Err(Failure::RegistryEmpty);
    }
    let value: Temperature = scan_registry(readings);
    if value.is_zero() {
        Err(Failure::NoMatchingSensor)
    } else {
        Ok(value)
    }
}

} // verus!
