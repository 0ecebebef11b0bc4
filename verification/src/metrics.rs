//! The metrics store: the two most recently observed values, kept as one
//! pair.

use vstd::prelude::*;
use vstd::string::*;

verus! {

/// The label set of a series: one label, `value_type`.
#[derive(Clone, Debug, Hash, PartialEq, Eq)]
pub struct Labels {
    pub value_type: String,
}

/// The smoothed temperature and the commanded fan speed, in thousandths.
#[derive(Clone, Copy, Debug, PartialEq, Eq, Structural)]
pub struct MetricsSnapshot {
    pub temperature: i32,
    pub fan_speed: i32,
}

/// One labelled gauge as it is offered for exposition.
#[derive(Clone, Debug, PartialEq, Eq)]
pub struct Gauge {
    pub name: String,
    pub help: String,
    pub labels: Labels,
    pub value: i32,
}

/// The store. It starts at zero and is updated in place.
#[derive(Debug)]
pub struct Metrics {
    temperature: i32,
    fan_speed: i32,
}

impl Metrics {
    /// The pair currently held.
    pub closed spec fn view(&self) -> MetricsSnapshot {
        MetricsSnapshot { temperature: self.temperature, fan_speed: self.fan_speed }
    }

    /// A store that holds zero for both values.
    pub fn new() -> (m: Metrics)
        ensures
            m@ == (MetricsSnapshot { temperature: 0, fan_speed: 0 }),
    {
        Metrics { temperature: 0, fan_speed: 0 }
    }

    /// Replaces the temperature and keeps the fan speed.
    pub fn set_temperature(&mut self, temperature: i32)
        ensures
            final(self)@ == (MetricsSnapshot { temperature, fan_speed: old(self)@.fan_speed }),
    {
        self.temperature = temperature;
    }

    /// Replaces the fan speed and keeps the temperature.
    pub fn set_fan_speed(&mut self, fan_speed: i32)
        ensures
            final(self)@ == (MetricsSnapshot { temperature: old(self)@.temperature, fan_speed }),
    {
        self.fan_speed = fan_speed;
    }

    /// Replaces both values at once.
    pub fn record(&mut self, temperature: i32, fan_speed: i32)
        ensures
            final(self)@ == recorded(old(self)@, temperature, fan_speed),
            final(self)@ == (MetricsSnapshot { temperature, fan_speed }),
    {
        self.temperature = temperature;
        self.fan_speed = fan_speed;
    }

    /// The pair as last written: both values come from the same state of the
    /// store.
    pub fn read(&self) -> (snapshot: MetricsSnapshot)
        ensures
            snapshot == self@,
    {
        MetricsSnapshot { temperature: self.temperature, fan_speed: self.fan_speed }
    }

    /// The two gauges for exposition, `temperature` first. Each carries one
    /// series, labelled with the name of its value.
    pub fn gauges(&self) -> (gauges: Vec<Gauge>)
        ensures
            gauges@.len() == 2,
            gauges@[0].name@ == "temperature"@,
            gauges@[0].help@ == "Device temperature"@,
            gauges@[0].labels.value_type@ == "temperature"@,
            gauges@[0].value == self@.temperature,
            gauges@[1].name@ == "fan_speed"@,
            gauges@[1].help@ == "Fan speed"@,
            gauges@[1].labels.value_type@ == "fan_speed"@,
            gauges@[1].value == self@.fan_speed,
    {
        let mut gauges: Vec<Gauge> = Vec::new();
        gauges.push(
            Gauge {
                name: String::from_str("temperature"),
                help: String::from_str("Device temperature"),
                labels: Labels { value_type: String::from_str("temperature") },
                value: self.temperature,
            },
        );
        gauges.push(
            Gauge {
                name: String::from_str("fan_speed"),
                help: String::from_str("Fan speed"),
                labels: Labels { value_type: String::from_str("fan_speed") },
                value: self.fan_speed,
            },
        );
        gauges
    }
}

/// The pair that a store holds after `record(temperature, fan_speed)` where
/// it held `before`: the new pair, with nothing of the old one.
pub open spec fn recorded(before: MetricsSnapshot, temperature: i32, fan_speed: i32)
    -> MetricsSnapshot {
    MetricsSnapshot { temperature, fan_speed }
}

/// A read that follows a write returns the pair of that write and of no
/// other: whatever the store held before, and whatever was written earlier,
/// both values are those of the last `record`.
pub proof fn lemma_read_returns_last_record(
    before: MetricsSnapshot,
    earlier: MetricsSnapshot,
    temperature: i32,
    fan_speed: i32,
)
    ensures
        recorded(before, temperature, fan_speed).temperature == temperature,
        recorded(before, temperature, fan_speed).fan_speed == fan_speed,
        recorded(
            recorded(before, earlier.temperature, earlier.fan_speed),
            temperature,
            fan_speed,
        ) == recorded(before, temperature, fan_speed),
{
}

} // verus!
