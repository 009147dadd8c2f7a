//! The refresh cycle: the sources in their order of preference, and the one
//! value that is shown between cycles.

use crate::registry::{read_registry, registry_outcome, SensorReading};
use crate::temperature::{Failure, Temperature};
use crate::thermal_zone::{read_thermal_zone, zone_outcome};
use crate::tool::{document_outcome, read_tool_output};
use crate::tree::document;
use vstd::prelude::*;

verus! {

/// Where a reading can come from, in order of preference.
#[derive(Clone, Copy, Debug, PartialEq, Eq, Structural)]
pub enum Source {
    Tool,
    Registry,
    ThermalZone,
}

/// What came of asking one source.
#[derive(Debug)]
pub enum Observation {
    /// The monitoring tool could not be run, or did not end well.
    ToolFailed,
    /// What the monitoring tool wrote.
    ToolOutput(Vec<u8>),
    /// The readings of the refreshed sensor registry.
    Registry(Vec<SensorReading>),
    /// The thermal-zone file could not be read.
    FileUnreadable,
    /// The content of the thermal-zone file.
    FileContent(String),
}

/// What to do next in a cycle.
#[derive(Clone, Copy, Debug, PartialEq, Eq, Structural)]
pub enum Action {
    /// Ask this source and come back with what it gave.
    Query(Source),
    /// The cycle is over; this is the value to show.
    Show(Temperature),
}

/// The source that an observation is about.
pub open spec fn source(observation: Observation) -> Source {
    match observation {
        Observation::ToolFailed => Source::Tool,
        Observation::ToolOutput(_) => Source::Tool,
        Observation::Registry(_) => Source::Registry,
        Observation::FileUnreadable => Source::ThermalZone,
        Observation::FileContent(_) => Source::ThermalZone,
    }
}

/// The reading that an observation amounts to, or the reason why it
/// amounts to none.
pub open spec fn outcome(observation: Observation) -> Result<Temperature, Failure> {
    match observation {
        Observation::ToolFailed => Err(Failure::ToolUnavailable),
        Observation::ToolOutput(bytes) => document_outcome(document(bytes@)),
        Observation::Registry(readings) => registry_outcome(readings@),
        Observation::FileUnreadable => Err(Failure::FileUnreadable),
        Observation::FileContent(content) => zone_outcome(content@),
    }
}

/// The source to fall back on after `source`.
pub open spec fn fallback(source: Source) -> Option<Source> {
    match source {
        Source::Tool => Some(Source::Registry),
        Source::Registry => Some(Source::ThermalZone),
        Source::ThermalZone => None,
    }
}

/// What is shown after one observation, where `shown` was shown before.
pub open spec fn shown_after(shown: Temperature, observation: Observation) -> Temperature {
    match outcome(observation) {
        Ok(t) => t,
        Err(_) => shown,
    }
}

/// What to do after one observation, where `shown` was shown before.
pub open spec fn action_after(shown: Temperature, observation: Observation) -> Action {
    match outcome(observation) {
        Ok(t) => Action::Show(t),
        Err(_) => match fallback(source(observation)) {
            Some(next) => Action::Query(next),
            None => Action::Show(shown),
        },
    }
}

/// What a whole cycle reads: the first reading in the order tool, registry,
/// thermal zone, and without any the failure of the last source.
pub open spec fn cycle_outcome(
    tool: Observation,
    registry: Observation,
    zone: Observation,
) -> Result<Temperature, Failure> {
    match outcome(tool) {
        Ok(t) => Ok(t),
        Err(_) => match outcome(registry) {
            Ok(t) => Ok(t),
            Err(_) => outcome(zone),
        },
    }
}

/// What is shown after a whole cycle: what the cycle read, and without a
/// reading the value shown before.
pub open spec fn shown_after_cycle(
    shown: Temperature,
    tool: Observation,
    registry: Observation,
    zone: Observation,
) -> Temperature {
    match cycle_outcome(tool, registry, zone) {
        Ok(t) => t,
        Err(_) => shown,
    }
}

/// The reading that an observation amounts to.
pub fn reading_of(observation: &Observation) -> (r: Result<Temperature, Failure>)
    ensures
        r == outcome(*observation),
{
    match observation {
        Observation::ToolFailed => Err(Failure::ToolUnavailable),
        Observation::ToolOutput(bytes) => read_tool_output(bytes.as_slice()),
        Observation::Registry(readings) => read_registry(readings.as_slice()),
        Observation::FileUnreadable => Err(Failure::FileUnreadable),
        Observation::FileContent(content) => read_thermal_zone(content.as_str()),
    }
}

/// The source that an observation is about.
pub fn source_of(observation: &Observation) -> (s: Source)
    ensures
        s == source(*observation),
{
    match observation {
        Observation::ToolFailed => Source::Tool,
        Observation::ToolOutput(_) => Source::Tool,
        Observation::Registry(_) => Source::Registry,
        Observation::FileUnreadable => Source::ThermalZone,
        Observation::FileContent(_) => Source::ThermalZone,
    }
}

/// The source to fall back on after `source`.
pub fn fallback_of(source: Source) -> (next: Option<Source>)
    ensures
        next == fallback(source),
{
    match source {
        Source::Tool => Some(Source::Registry),
        Source::Registry => Some(Source::ThermalZone),
        Source::ThermalZone => None,
    }
}

/// The processor's temperature according to what the three sources gave:
/// the first reading in the order tool, registry, thermal zone.
pub fn read_cpu_temp(tool: &Observation, registry: &Observation, zone: &Observation) -> (r: Result<
    Temperature,
    Failure,
>)
    ensures
        r == cycle_outcome(*tool, *registry, *zone),
{
    match reading_of(tool) {
        Ok(t) => Ok(t),
        Err(_) => match reading_of(registry) {
            Ok(t) => Ok(t),
            Err(_) => reading_of(zone),
        },
    }
}

/// Owner of the value that is shown between cycles.
#[derive(Debug)]
pub struct Monitor {
    current: Temperature,
}

impl Monitor {
    /// The value that is shown.
    pub closed spec fn shown(&self) -> Temperature {
        self.current
    }

    /// A monitor that has read nothing yet, and shows zero.
    pub fn new() -> (monitor: Monitor)
        ensures
            monitor.shown().millidegrees == 0,
    {
        Monitor { current: Temperature::zero() }
    }

    /// The value that is shown.
    pub fn current(&self) -> (t: Temperature)
        ensures
            t == self.shown(),
    {
        self.current
    }

    /// The first action of every cycle.
    pub fn begin(&self) -> (action: Action)
        ensures
            action == Action::Query(Source::Tool),
    {
        Action::Query(Source::Tool)
    }

    /// Takes in what one source gave. A reading is shown from now on and
    /// ends the cycle; without one the next source is to be asked, and after
    /// the last source the cycle ends with the value shown before.
    pub fn step(&mut self, observation: &Observation) -> (action: Action)
        ensures
            final(self).shown() == shown_after(old(self).shown(), *observation),
            action == action_after(old(self).shown(), *observation),
    {
        match reading_of(observation) {
            Ok(t) => {
                self.current = t;
                Action::Show(t)
            },
            Err(_) => match fallback_of(source_of(observation)) {
                Some(next) => Action::Query(next),
                None => Action::Show(self.current),
            },
        }
    }

    /// One whole cycle on what the three sources gave: shows and returns
    /// the first reading in the order tool, registry, thermal zone, and
    /// without any keeps the value shown before.
    pub fn sample(
        &mut self,
        tool: &Observation,
        registry: &Observation,
        zone: &Observation,
    ) -> (t: Temperature)
        ensures
            t == shown_after_cycle(old(self).shown(), *tool, *registry, *zone),
            final(self).shown() == t,
            outcome(*tool) is Err && outcome(*registry) is Err && outcome(*zone) is Err
                ==> final(self).shown() == old(self).shown(),
    {
        match read_cpu_temp(tool, registry, zone) {
            Ok(t) => {
                self.current = t;
            },
            Err(_) => {},
        }
        self.current
    }
}

impl Default for Monitor {
    /// A monitor that has read nothing yet, and shows zero.
    fn default() -> (monitor: Monitor)
        ensures
            monitor.shown().millidegrees == 0,
    {
        Monitor::new()
    }
}

/// A cycle on which every source fails leaves the shown value as it was,
/// whatever it was and whatever the failures are.
pub proof fn lemma_failing_cycle_keeps_value(
    shown: Temperature,
    tool: Observation,
    registry: Observation,
    zone: Observation,
)
    requires
        outcome(tool) is Err,
        outcome(registry) is Err,
        outcome(zone) is Err,
    ensures
        cycle_outcome(tool, registry, zone) is Err,
        shown_after_cycle(shown, tool, registry, zone) == shown,
        shown_after(shown, tool) == shown,
        shown_after(shown, registry) == shown,
        shown_after(shown, zone) == shown,
{
}

/// Asking the sources one by one, as `Monitor::step` directs, shows in the
/// end what one whole cycle on the same observations shows.
pub proof fn lemma_steps_make_cycle(
    shown: Temperature,
    tool: Observation,
    registry: Observation,
    zone: Observation,
)
    requires
        source(tool) == Source::Tool,
        source(registry) == Source::Registry,
        source(zone) == Source::ThermalZone,
    ensures
        shown_after_cycle(shown, tool, registry, zone) == match action_after(shown, tool) {
            Action::Show(t) => t,
            Action::Query(_) => match action_after(shown_after(shown, tool), registry) {
                Action::Show(t) => t,
                Action::Query(_) => shown_after(
                    shown_after(shown_after(shown, tool), registry),
                    zone,
                ),
            },
        },
{
}

} // verus!
