//! Reading the processor's temperature from the monitoring tool's
//! structured output: chips at the top, sensors below them, metrics below
//! those.

use crate::temperature::{degrees, Failure, Temperature};
use crate::text::{chars_of, contains, has_substring, same_chars};
use crate::tree::{document, parse_document, Member, Node};
use vstd::prelude::*;

verus! {

/// The chip that reports the package temperature where it is present.
pub open spec fn package_chip() -> Seq<char> {
    "k10temp-pci-00c3"@
}

/// The package sensor of that chip.
pub open spec fn package_sensor() -> Seq<char> {
    "Tctl"@
}

/// The metric that holds a sensor's current value.
pub open spec fn input_metric() -> Seq<char> {
    "temp1_input"@
}

/// The same metric under its short name.
pub open spec fn short_input_metric() -> Seq<char> {
    "input"@
}

/// Whether a chip's name marks it as belonging to the processor. Capitals
/// do not match.
pub open spec fn is_cpu_chip(name: Seq<char>) -> bool {
    contains(name, "cpu"@) || contains(name, "k10"@) || contains(name, "coretemp"@)
}

/// The value of the first member from `from` on whose key is `key`.
pub open spec fn member_from(members: Seq<Member>, key: Seq<char>, from: int) -> Option<Node>
    decreases members.len() - from,
{
    if from < 0 || from >= members.len() {
        None
    } else if members[from].key@ == key {
        Some(members[from].value)
    } else {
        member_from(members, key, from + 1)
    }
}

/// What a mapping holds under `key`; `None` for a missing key and for a
/// node that is no mapping.
pub open spec fn child(node: Node, key: Seq<char>) -> Option<Node> {
    match node {
        Node::Object(members) => member_from(members@, key, 0),
        _ => None,
    }
}

/// The temperature that a number node denotes, in degrees.
pub open spec fn number(node: Node) -> Option<Temperature> {
    match node {
        Node::Number(text) => degrees(text@),
        _ => None,
    }
}

/// The numeric value of a sensor's metric `name`.
pub open spec fn metric(sensor: Node, name: Seq<char>) -> Option<Temperature> {
    match child(sensor, name) {
        Some(value) => number(value),
        None => None,
    }
}

/// A sensor's current value: its input metric, under the long name first.
pub open spec fn sensor_reading(sensor: Node) -> Option<Temperature> {
    match metric(sensor, input_metric()) {
        Some(t) => Some(t),
        None => metric(sensor, short_input_metric()),
    }
}

/// The reading of the first sensor from `from` on that has one.
pub open spec fn sensor_reading_from(sensors: Seq<Member>, from: int) -> Option<Temperature>
    decreases sensors.len() - from,
{
    if from < 0 || from >= sensors.len() {
        None
    } else {
        match sensor_reading(sensors[from].value) {
            Some(t) => Some(t),
            None => sensor_reading_from(sensors, from + 1),
        }
    }
}

/// A chip's reading: that of its first sensor that has one.
pub open spec fn chip_reading(chip: Node) -> Option<Temperature> {
    match chip {
        Node::Object(sensors) => sensor_reading_from(sensors@, 0),
        _ => None,
    }
}

/// The reading of the first processor chip from `from` on that has one.
pub open spec fn cpu_chip_reading_from(chips: Seq<Member>, from: int) -> Option<Temperature>
    decreases chips.len() - from,
{
    if from < 0 || from >= chips.len() {
        None
    } else if is_cpu_chip(chips[from].key@) && chip_reading(chips[from].value) is Some {
        chip_reading(chips[from].value)
    } else {
        cpu_chip_reading_from(chips, from + 1)
    }
}

/// The reading found by going through the chips in the order in which the
/// document holds them.
pub open spec fn scan_reading(root: Node) -> Option<Temperature> {
    match root {
        Node::Object(chips) => cpu_chip_reading_from(chips@, 0),
        _ => None,
    }
}

/// The input metric of the package sensor of the package chip.
pub open spec fn package_reading(root: Node) -> Option<Temperature> {
    match child(root, package_chip()) {
        Some(chip) => match child(chip, package_sensor()) {
            Some(sensor) => metric(sensor, input_metric()),
            None => None,
        },
        None => None,
    }
}

/// The processor's temperature according to a document: the package
/// reading where there is one, else the first reading of a processor chip.
pub open spec fn tree_reading(root: Node) -> Option<Temperature> {
    match package_reading(root) {
        Some(t) => Some(t),
        None => scan_reading(root),
    }
}

/// What the acquirer answers for a document, or for the lack of one.
pub open spec fn document_outcome(tree: Option<Node>) -> Result<Temperature, Failure> {
    match tree {
        None => Err(Failure::ToolOutputMalformed),
        Some(root) => match tree_reading(root) {
            Some(t) => Ok(t),
            None => Err(Failure::NoMatchingSensor),
        },
    }
}

/// The members of a mapping; none for a node that is no mapping.
pub open spec fn members(node: Node) -> Seq<Member> {
    match node {
        Node::Object(members) => members@,
        _ => Seq::empty(),
    }
}

/// Whether `root` holds a processor chip at `chip` and that chip a sensor
/// at `sensor`.
pub open spec fn is_cpu_sensor(root: Node, chip: int, sensor: int) -> bool {
    &&& 0 <= chip < members(root).len()
    &&& is_cpu_chip(members(root)[chip].key@)
    &&& 0 <= sensor < members(members(root)[chip].value).len()
}

/// The reading of the sensor at `sensor` of the chip at `chip`.
pub open spec fn sensor_reading_at(root: Node, chip: int, sensor: int) -> Option<Temperature> {
    sensor_reading(members(members(root)[chip].value)[sensor].value)
}

/// Where the package chip holds the package sensor and that sensor a
/// numeric input metric, the document's reading is that metric's value,
/// whatever else the document holds.
pub proof fn lemma_package_reading_wins(
    root: Node,
    chip: Node,
    sensor: Node,
    value: Node,
    t: Temperature,
)
    requires
        child(root, package_chip()) == Some(chip),
        child(chip, package_sensor()) == Some(sensor),
        child(sensor, input_metric()) == Some(value),
        number(value) == Some(t),
    ensures
        tree_reading(root) == Some(t),
        document_outcome(Some(root)) == Ok::<Temperature, Failure>(t),
{
}

proof fn lemma_sensor_found(sensors: Seq<Member>, from: int, t: Temperature) -> (at: int)
    requires
        sensor_reading_from(sensors, from) == Some(t),
    ensures
        from <= at < sensors.len(),
        0 <= at,
        sensor_reading(sensors[at].value) == Some(t),
    decreases sensors.len() - from,
{
    if sensor_reading(sensors[from].value) is Some {
        from
    } else {
        lemma_sensor_found(sensors, from + 1, t)
    }
}

proof fn lemma_chip_found(chips: Seq<Member>, from: int, t: Temperature) -> (at: int)
    requires
        cpu_chip_reading_from(chips, from) == Some(t),
    ensures
        from <= at < chips.len(),
        0 <= at,
        is_cpu_chip(chips[at].key@),
        chip_reading(chips[at].value) == Some(t),
    decreases chips.len() - from,
{
    if is_cpu_chip(chips[from].key@) && chip_reading(chips[from].value) is Some {
        from
    } else {
        lemma_chip_found(chips, from + 1, t)
    }
}

proof fn lemma_sensor_not_missed(sensors: Seq<Member>, from: int, at: int)
    requires
        0 <= from <= at < sensors.len(),
        sensor_reading(sensors[at].value) is Some,
    ensures
        sensor_reading_from(sensors, from) is Some,
    decreases at - from,
{
    if from < at && sensor_reading(sensors[from].value) is None {
        lemma_sensor_not_missed(sensors, from + 1, at);
    }
}

proof fn lemma_chip_not_missed(chips: Seq<Member>, from: int, at: int)
    requires
        0 <= from <= at < chips.len(),
        is_cpu_chip(chips[at].key@),
        chip_reading(chips[at].value) is Some,
    ensures
        cpu_chip_reading_from(chips, from) is Some,
    decreases at - from,
{
    if from < at && !(is_cpu_chip(chips[from].key@) && chip_reading(chips[from].value) is Some) {
        lemma_chip_not_missed(chips, from + 1, at);
    }
}

/// A reading that the scan finds is the reading of a sensor of a chip whose
/// name marks it as the processor's: no other chip can supply it.
pub proof fn lemma_scan_reading_is_from_cpu_chip(root: Node, t: Temperature)
    requires
        scan_reading(root) == Some(t),
    ensures
        exists|chip: int, sensor: int| #[trigger]
            is_cpu_sensor(root, chip, sensor) && sensor_reading_at(root, chip, sensor) == Some(t),
{
    let chip = lemma_chip_found(members(root), 0, t);
    let sensor = lemma_sensor_found(members(members(root)[chip].value), 0, t);
    assert(is_cpu_sensor(root, chip, sensor) && sensor_reading_at(root, chip, sensor) == Some(t));
}

/// Where some sensor of a processor chip has a reading, the document has
/// one, and it is the reading of such a sensor.
pub proof fn lemma_cpu_sensor_gives_reading(root: Node, chip: int, sensor: int)
    requires
        is_cpu_sensor(root, chip, sensor),
        sensor_reading_at(root, chip, sensor) is Some,
    ensures
        scan_reading(root) is Some,
        tree_reading(root) is Some,
        document_outcome(Some(root)) is Ok,
{
    lemma_sensor_not_missed(members(members(root)[chip].value), 0, sensor);
    lemma_chip_not_missed(members(root), 0, chip);
}

/// What a mapping holds under `key`.
pub fn child_of<'a>(node: &'a Node, key: &[char]) -> (found: Option<&'a Node>)
    ensures
        found is Some <==> child(*node, key@) is Some,
        found is Some ==> *found->0 == child(*node, key@)->0,
{
    match node {
        Node::Object(members) => {
            let mut i: usize = 0;
            while i < members.len()
                invariant
                    i <= members@.len(),
                    child(*node, key@) == member_from(members@, key@, 0),
                    member_from(members@, key@, 0) == member_from(members@, key@, i as int),
                decreases members@.len() - i,
            {
                let name: Vec<char> = chars_of(members[i].key.as_str());
                if same_chars(name.as_slice(), key) {
                    return Some(&members[i].value);
                }
                i += 1;
            }
            None
        },
        _ => None,
    }
}

/// The temperature that a number node denotes, in degrees.
pub fn number_of(node: &Node) -> (t: Option<Temperature>)
    ensures
        t == number(*node),
{
    match node {
        Node::Number(text) => Temperature::parse_degrees(text.as_str()),
        _ => None,
    }
}

/// The numeric value of a sensor's metric `name`.
pub fn metric_of(sensor: &Node, name: &str) -> (t: Option<Temperature>)
    ensures
        t == metric(*sensor, name@),
{
    let key: Vec<char> = chars_of(name);
    match child_of(sensor, key.as_slice()) {
        Some(value) => number_of(value),
        None => None,
    }
}

/// A sensor's current value.
pub fn sensor_reading_of(sensor: &Node) -> (t: Option<Temperature>)
    ensures
        t == sensor_reading(*sensor),
{
    match metric_of(sensor, "temp1_input") {
        Some(t) => Some(t),
        None => metric_of(sensor, "input"),
    }
}

/// A chip's reading: that of its first sensor that has one.
pub fn chip_reading_of(chip: &Node) -> (t: Option<Temperature>)
    ensures
        t == chip_reading(*chip),
{
    match chip {
        Node::Object(sensors) => {
            let mut i: usize = 0;
            while i < sensors.len()
                invariant
                    i <= sensors@.len(),
                    chip_reading(*chip) == sensor_reading_from(sensors@, 0),
                    sensor_reading_from(sensors@, 0) == sensor_reading_from(sensors@, i as int),
                decreases sensors@.len() - i,
            {
                match sensor_reading_of(&sensors[i].value) {
                    Some(t) => {
                        return Some(t);
                    },
                    None => {},
                }
                i += 1;
            }
            None
        },
        _ => None,
    }
}

/// Whether a chip's name marks it as belonging to the processor.
pub fn names_cpu_chip(name: &str) -> (named: bool)
    ensures
        named == is_cpu_chip(name@),
{
    let chars: Vec<char> = chars_of(name);
    let cpu: Vec<char> = chars_of("cpu");
    let k10: Vec<char> = chars_of("k10");
    let coretemp: Vec<char> = chars_of("coretemp");
    has_substring(chars.as_slice(), cpu.as_slice()) || has_substring(
        chars.as_slice(),
        k10.as_slice(),
    ) || has_substring(chars.as_slice(), coretemp.as_slice())
}

/// The input metric of the package sensor of the package chip.
pub fn package_reading_of(root: &Node) -> (t: Option<Temperature>)
    ensures
        t == package_reading(*root),
{
    let chip_key: Vec<char> = chars_of("k10temp-pci-00c3");
    let sensor_key: Vec<char> = chars_of("Tctl");
    match child_of(root, chip_key.as_slice()) {
        Some(chip) => match child_of(chip, sensor_key.as_slice()) {
            Some(sensor) => metric_of(sensor, "temp1_input"),
            None => None,
        },
        None => None,
    }
}

/// The reading found by going through the chips in order.
pub fn scan_reading_of(root: &Node) -> (t: Option<Temperature>)
    ensures
        t == scan_reading(*root),
{
    match root {
        Node::Object(chips) => {
            let mut i: usize = 0;
            while i < chips.len()
                invariant
                    i <= chips@.len(),
                    scan_reading(*root) == cpu_chip_reading_from(chips@, 0),
                    cpu_chip_reading_from(chips@, 0) == cpu_chip_reading_from(chips@, i as int),
                decreases chips@.len() - i,
            {
                if names_cpu_chip(chips[i].key.as_str()) {
                    match chip_reading_of(&chips[i].value) {
                        Some(t) => {
                            return Some(t);
                        },
                        None => {},
                    }
                }
                i += 1;
            }
            None
        },
        _ => None,
    }
}

/// The processor's temperature according to a document.
///
/// Where several processor chips have a reading, the one that the document
/// holds first is taken; which one that is lies with whoever built the
/// document.
pub fn cpu_reading(root: &Node) -> (r: Result<Temperature, Failure>)
    ensures
        r == document_outcome(Some(*root)),
{
    match package_reading_of(root) {
        Some(t) => Ok(t),
        None => match scan_reading_of(root) {
            Some(t) => Ok(t),
            None => Err(Failure::NoMatchingSensor),
        },
    }
}

/// The processor's temperature according to the bytes that the monitoring
/// tool wrote.
pub fn read_tool_output(output: &[u8]) -> (r: Result<Temperature, Failure>)
    ensures
        r == document_outcome(document(output@)),
        document(output@) is None ==> r == Err::<Temperature, Failure>(
            Failure::ToolOutputMalformed,
        ),
        output@.len() == 0 ==> r == Err::<Temperature, Failure>(Failure::ToolOutputMalformed),
{
    match parse_document(output) {
        Some(root) => cpu_reading(&root),
        None => Err(Failure::ToolOutputMalformed),
    }
}

} // verus!
