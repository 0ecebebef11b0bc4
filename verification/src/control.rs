//! One iteration of the control loop: take the hottest reading, smooth it,
//! decide a speed, and say whether the fan controller has to be told.

use vstd::prelude::*;
use vstd::string::*;
use crate::curve::{decide, decided_speed};
use crate::decimal::{decimal_text, format_thousandths, in_alphabet, lemma_decimal_alphabet};
use crate::metrics::{Metrics, MetricsSnapshot};
use crate::sampler::{reads, sample, Sensor, SensorReading};
use crate::smoother::{mean_of, trailing, Smoother};

verus! {

/// The command that sets the fan to `speed` thousandths of a percent: the
/// decimal text of the speed and one newline.
pub open spec fn command_text(speed: int) -> Seq<char> {
    decimal_text(speed).push('\n')
}

/// What `ControlState::plan` returns: no command where the speed is the one
/// the fan already runs at.
pub open spec fn planned(current: int, speed: int) -> Option<Seq<char>> {
    if speed == current {
        None
    } else {
        Some(command_text(speed))
    }
}

/// A command is plain ASCII: the digits, minus sign and point of the speed,
/// and the newline that ends it, which stands nowhere else.
pub proof fn lemma_command_is_ascii(speed: int)
    ensures
        command_text(speed).len() >= 2,
        command_text(speed).last() == '\n',
        forall|i: int|
            0 <= i < command_text(speed).len() - 1 ==> in_alphabet(
                #[trigger] command_text(speed)[i],
            ),
        forall|i: int|
            0 <= i < command_text(speed).len() ==> (#[trigger] command_text(speed)[i]) as int
                <= 127,
{
    lemma_decimal_alphabet(speed);
    assert forall|i: int| 0 <= i < command_text(speed).len() - 1 implies in_alphabet(
        #[trigger] command_text(speed)[i],
    ) by {
        assert(command_text(speed)[i] == decimal_text(speed)[i]);
    }
    assert forall|i: int| 0 <= i < command_text(speed).len() implies (
    #[trigger] command_text(speed)[i]) as int <= 127 by {
        if i < command_text(speed).len() - 1 {
            assert(command_text(speed)[i] == decimal_text(speed)[i]);
        }
    }
}

/// Writes the command that sets the fan to `speed`.
pub fn command(speed: i32) -> (text: String)
    ensures
        text@ == command_text(speed as int),
{
    let mut text: String = format_thousandths(speed);
    proof {
        reveal_strlit("\n");
    }
    text.append("\n");
    text
}

/// The speed the fan was last told to run at; zero before the first command.
#[derive(Clone, Copy, Debug, PartialEq, Eq, Structural)]
pub struct ControlState {
    pub current_fan_speed: i32,
}

impl ControlState {
    /// The state before the first iteration.
    pub fn new() -> (state: ControlState)
        ensures
            state.current_fan_speed == 0,
    {
        ControlState { current_fan_speed: 0 }
    }

    /// The command to send for a decided `speed`: none where the fan
    /// already runs at it.
    pub fn plan(&self, speed: i32) -> (cmd: Option<String>)
        ensures
            cmd.is_some() == (speed != self.current_fan_speed),
            cmd matches Some(text) ==> planned(self.current_fan_speed as int, speed as int)
                == Some(text@),
            cmd is None ==> planned(self.current_fan_speed as int, speed as int) is None,
    {
        if speed == self.current_fan_speed {
            None
        } else {
            Some(command(speed))
        }
    }

    /// Notes that the command for `speed` was written.
    pub fn actuated(&mut self, speed: i32)
        ensures
            final(self).current_fan_speed == speed,
    {
        self.current_fan_speed = speed;
    }
}

/// Once the command for a speed was written, deciding that speed again
/// sends nothing; any other speed sends its own command.
pub proof fn lemma_actuation_settles(speed: i32, next: i32)
    ensures
        planned(speed as int, speed as int).is_none(),
        next != speed ==> planned(speed as int, next as int) == Some(command_text(next as int)),
{
}

/// What one iteration found, and what to do before the next.
#[derive(Clone, Debug, PartialEq, Eq)]
pub struct Step {
    /// The hottest reading among the sensors.
    pub reading: SensorReading,
    /// The mean of the smoothing window, the reading included.
    pub mean_temp: i32,
    /// The speed decided for the mean.
    pub speed: i32,
    /// The command to write to the fan controller, if the speed changed.
    pub command: Option<String>,
    /// The time to sleep before the next iteration, in milliseconds.
    pub pause_ms: u64,
}

/// The control loop's state: the curve, the time between two iterations,
/// the smoothing window and the speed the fan runs at.
pub struct Controller {
    curve: Vec<(i32, i32)>,
    refresh_rate: u32,
    smoother: Smoother,
    state: ControlState,
}

impl Controller {
    /// The breakpoints the loop decides by.
    pub closed spec fn curve(&self) -> Seq<(i32, i32)> {
        self.curve@
    }

    /// The time between two iterations, in milliseconds.
    pub closed spec fn refresh_rate(&self) -> u32 {
        self.refresh_rate
    }

    /// The samples in the smoothing window, oldest first.
    pub closed spec fn window(&self) -> Seq<i32> {
        self.smoother@
    }

    /// The speed the fan was last told to run at.
    pub closed spec fn current(&self) -> int {
        self.state.current_fan_speed as int
    }

    /// A controller for `curve` that samples every `refresh_rate`
    /// milliseconds, with an empty window and the fan taken to be off.
    pub fn new(curve: Vec<(i32, i32)>, refresh_rate: u32) -> (c: Controller)
        ensures
            c.curve() == curve@,
            c.refresh_rate() == refresh_rate,
            c.window() == Seq::<i32>::empty(),
            c.current() == 0,
    {
        Controller { curve, refresh_rate, smoother: Smoother::new(), state: ControlState::new() }
    }

    /// The speed the fan was last told to run at.
    pub fn current_fan_speed(&self) -> (speed: i32)
        ensures
            speed == self.current(),
    {
        self.state.current_fan_speed
    }

    /// One iteration over the sensors as just enumerated: takes the hottest
    /// reading, pushes it into the window, decides the speed for the new
    /// mean, and stores the mean as the temperature in `metrics`. The step
    /// carries a command exactly where the decided speed differs from the
    /// one the fan runs at; the latter changes only in `actuated`, once the
    /// command was written. Either way the loop then sleeps for the refresh
    /// rate.
    pub fn step(&mut self, sensors: &Vec<Sensor>, metrics: &mut Metrics) -> (step: Step)
        ensures
            final(self).curve() == old(self).curve(),
            final(self).refresh_rate() == old(self).refresh_rate(),
            final(self).current() == old(self).current(),
            reads(sensors@, step.reading),
            final(self).window() == trailing(old(self).window().push(step.reading.temperature)),
            step.mean_temp == mean_of(final(self).window()),
            step.speed == decided_speed(step.mean_temp as int, old(self).curve()),
            step.command.is_some() == (step.speed != old(self).current()),
            step.command matches Some(text) ==> planned(old(self).current(), step.speed as int)
                == Some(text@),
            step.pause_ms == old(self).refresh_rate(),
            final(metrics)@ == (MetricsSnapshot {
                temperature: step.mean_temp,
                fan_speed: old(metrics)@.fan_speed,
            }),
    {
        let reading: SensorReading = sample(sensors);
        let mean_temp: i32 = self.smoother.push(reading.temperature);
        let speed: i32 = decide(mean_temp, &self.curve);
        let command: Option<String> = self.state.plan(speed);
        metrics.set_temperature(mean_temp);
        Step { reading, mean_temp, speed, command, pause_ms: self.refresh_rate as u64 }
    }

    /// Notes that the command of `step` was written: the fan now runs at
    /// the step's speed, and `metrics` holds the step's pair.
    pub fn actuated(&mut self, step: &Step, metrics: &mut Metrics)
        ensures
            final(self).curve() == old(self).curve(),
            final(self).refresh_rate() == old(self).refresh_rate(),
            final(self).window() == old(self).window(),
            final(self).current() == step.speed,
            final(metrics)@ == (MetricsSnapshot {
                temperature: step.mean_temp,
                fan_speed: step.speed,
            }),
    {
        self.state.actuated(step.speed);
        metrics.record(step.mean_temp, step.speed);
    }
}

} // verus!
