//! Picks the hottest of the host's thermal sensors.

use vstd::prelude::*;
use vstd::string::*;

verus! {

/// One thermal sensor as enumerated at a sampling instant: its label and
/// its temperature in thousandths of a degree, if it reports one.
#[derive(Clone, Debug, PartialEq, Eq)]
pub struct Sensor {
    pub label: String,
    pub temperature: Option<i32>,
}

/// The hottest reading of one sampling instant and the label of the sensor
/// it came from.
#[derive(Clone, Debug, PartialEq, Eq)]
pub struct SensorReading {
    pub temperature: i32,
    pub source_label: Option<String>,
}

/// The place of the hottest sensor: of those that report the highest
/// temperature, the one enumerated first. None where no sensor reports.
pub open spec fn hottest(sensors: Seq<Sensor>) -> Option<int>
    decreases sensors.len(),
{
    if sensors.len() == 0 {
        None
    } else {
        match (hottest(sensors.drop_last()), sensors.last().temperature) {
            (None, None) => None,
            (None, Some(_)) => Some(sensors.len() - 1),
            (Some(k), None) => Some(k),
            (Some(k), Some(t)) => if t > sensors[k].temperature.unwrap() {
                Some(sensors.len() - 1)
            } else {
                Some(k)
            },
        }
    }
}

/// The temperature of the hottest sensor; zero where no sensor reports.
pub open spec fn hottest_temperature(sensors: Seq<Sensor>) -> i32 {
    match hottest(sensors) {
        Some(k) => sensors[k].temperature.unwrap(),
        None => 0,
    }
}

/// `reading` is the hottest reading among `sensors`: the temperature of the
/// hottest sensor with that sensor's label, or zero without a label where
/// no sensor reports.
pub open spec fn reads(sensors: Seq<Sensor>, reading: SensorReading) -> bool {
    &&& reading.temperature == hottest_temperature(sensors)
    &&& match hottest(sensors) {
        Some(k) => reading.source_label matches Some(label) && label@ == sensors[k].label@,
        None => reading.source_label is None,
    }
}

/// Where no sensor reports, there is no hottest one. Otherwise the hottest
/// sensor reports, none reports more, and none before it reports as much.
pub proof fn lemma_hottest(sensors: Seq<Sensor>)
    ensures
        hottest(sensors) is None <==> forall|i: int|
            0 <= i < sensors.len() ==> (#[trigger] sensors[i]).temperature is None,
        hottest(sensors) matches Some(k) ==> {
            &&& 0 <= k < sensors.len()
            &&& sensors[k].temperature matches Some(top)
            &&& forall|i: int|
                0 <= i < sensors.len() ==> ((#[trigger] sensors[i]).temperature matches Some(t)
                    ==> t <= top && (i < k ==> t < top))
        },
    decreases sensors.len(),
{
    if sensors.len() > 0 {
        let front = sensors.drop_last();
        lemma_hottest(front);
        assert forall|i: int| 0 <= i < front.len() implies front[i] == sensors[i] by {}
    }
}

/// The hottest reading among `sensors`: the highest temperature reported
/// and the label of the first sensor that reports it. Where no sensor
/// reports a temperature, the reading is zero and names no sensor.
pub fn sample(sensors: &Vec<Sensor>) -> (reading: SensorReading)
    ensures
        reads(sensors@, reading),
{
    let mut best: Option<usize> = None;
    let mut top: i32 = 0;
    let mut i: usize = 0;
    while i < sensors.len()
        invariant
            i <= sensors@.len(),
            match hottest(sensors@.take(i as int)) {
                None => best is None && top == 0,
                Some(k) => best == Some(k as usize) && 0 <= k < i && sensors@[k].temperature
                    == Some(top),
            },
        decreases sensors@.len() - i,
    {
        proof {
            assert(sensors@.take(i + 1).drop_last() =~= sensors@.take(i as int));
        }
        match sensors[i].temperature {
            None => {},
            Some(t) => {
                if best.is_none() || t > top {
                    best = Some(i);
                    top = t;
                }
            },
        }
        i += 1;
    }
    proof {
        assert(sensors@.take(i as int) =~= sensors@);
    }
    match best {
        None => SensorReading { temperature: 0, source_label: None },
        Some(k) => SensorReading {
            temperature: top,
            source_label: Some(sensors[k].label.clone()),
        },
    }
}

} // verus!
