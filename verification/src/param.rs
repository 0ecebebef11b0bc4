//! The configuration the control loop starts from, and what it resolves to.

use vstd::prelude::*;
use vstd::string::*;
use crate::curve::{ascending, default_curve, get_default_curve, sort_by_threshold};
use crate::decimal::{parse_thousandths, parsed};
use crate::text::{find, same, span_before};

verus! {

/// The configuration values, as given on the command line.
#[derive(Clone, Debug)]
pub struct Args {
    /// The `temperature:fan-speed` steps, such as `50:100` for full speed
    /// from 50 degrees on.
    pub step: Vec<String>,
    /// Install the firmware instead of running the control loop.
    pub install: bool,
    /// The serial port to use.
    pub port: String,
    /// The baud rate to use.
    pub baud: u32,
    /// The time allowed for opening the port, in milliseconds.
    pub timeout: u32,
    /// The time between two samples, in milliseconds.
    pub refresh_rate: u32,
    /// The log level.
    pub log_level: String,
}

/// What to open the serial port with.
#[derive(Clone, Debug, PartialEq, Eq)]
pub struct SerialSettings {
    pub port: String,
    pub baud: u32,
    /// The time allowed for opening the port, in milliseconds.
    pub timeout_ms: u64,
}

/// The status the process ends with when it cannot start.
#[derive(Clone, Copy, Debug, PartialEq, Eq, Structural)]
pub enum ExitErrorCode {
    FailedToParseSteps,
    NoSerialPorts,
}

impl ExitErrorCode {
    /// The number of the status: `FailedToParseSteps` is 0 and
    /// `NoSerialPorts` is 1.
    pub fn code(&self) -> (code: i32)
        ensures
            code == match self {
                ExitErrorCode::FailedToParseSteps => 0i32,
                ExitErrorCode::NoSerialPorts => 1i32,
            },
    {
        match self {
            ExitErrorCode::FailedToParseSteps => 0,
            ExitErrorCode::NoSerialPorts => 1,
        }
    }
}

/// Why the control loop cannot start.
#[derive(Clone, Debug, PartialEq, Eq)]
pub enum StartupError {
    /// A step text is wrong; the message says which part.
    FailedToParseSteps(String),
    /// The serial ports could not be listed.
    PortListing,
    /// The machine has no serial port.
    NoSerialPorts,
    /// The configured port, named here, is not among the machine's ports.
    PortNotFound(String),
}

impl StartupError {
    /// The status to end the process with.
    pub fn exit_code(&self) -> (code: ExitErrorCode)
        ensures
            code == (if self is FailedToParseSteps {
                ExitErrorCode::FailedToParseSteps
            } else {
                ExitErrorCode::NoSerialPorts
            }),
    {
        match self {
            StartupError::FailedToParseSteps(_) => ExitErrorCode::FailedToParseSteps,
            _ => ExitErrorCode::NoSerialPorts,
        }
    }

    /// The message for the operator.
    pub fn message(&self) -> (text: String)
        ensures
            text@ == match self {
                StartupError::FailedToParseSteps(m) => m@,
                StartupError::PortListing => "Error listing serial ports"@,
                StartupError::NoSerialPorts => "No serial ports found."@,
                StartupError::PortNotFound(port) => "Serial port "@ + port@ + " not found."@,
            },
    {
        match self {
            StartupError::FailedToParseSteps(m) => m.clone(),
            StartupError::PortListing => String::from_str("Error listing serial ports"),
            StartupError::NoSerialPorts => String::from_str("No serial ports found."),
            StartupError::PortNotFound(port) => {
                let mut text: String = String::from_str("Serial port ");
                text.append(port.as_str());
                text.append(" not found.");
                text
            },
        }
    }
}

/// `name` is the name of one of `ports`.
pub open spec fn listed(ports: Seq<String>, name: Seq<char>) -> bool {
    exists|i: int| 0 <= i < ports.len() && (#[trigger] ports[i])@ == name
}

/// Whether `name` is the name of one of `ports`.
pub fn is_listed(ports: &Vec<String>, name: &str) -> (b: bool)
    ensures
        b == listed(ports@, name@),
{
    let mut i: usize = 0;
    while i < ports.len()
        invariant
            i <= ports@.len(),
            forall|j: int| 0 <= j < i ==> (#[trigger] ports@[j])@ != name@,
        decreases ports@.len() - i,
    {
        if same(ports[i].as_str(), name) {
            return true;
        }
        i += 1;
    }
    false
}

/// What one step text stands for: `temperature:speed`, both decimals. The
/// error is the message for the first part that is wrong.
pub open spec fn step_of(s: Seq<char>) -> Result<(i32, i32), Seq<char>> {
    let k = span_before(s, ':') as int;
    if k == s.len() || span_before(s.skip(k + 1), ':') != s.len() - k - 1 {
        Err("Invalid step format: "@ + s)
    } else {
        match parsed(s.take(k)) {
            None => Err("Invalid temperature value: "@ + s.take(k)),
            Some(temperature) => match parsed(s.skip(k + 1)) {
                None => Err("Invalid fan speed value: "@ + s.skip(k + 1)),
                Some(speed) => Ok((temperature, speed)),
            },
        }
    }
}

/// What a list of step texts stands for: the breakpoints in the order
/// given, or the error of the first text that is wrong.
pub open spec fn steps_of(texts: Seq<String>) -> Result<Seq<(i32, i32)>, Seq<char>>
    decreases texts.len(),
{
    if texts.len() == 0 {
        Ok(Seq::empty())
    } else {
        match steps_of(texts.drop_last()) {
            Err(e) => Err(e),
            Ok(steps) => match step_of(texts.last()@) {
                Err(e) => Err(e),
                Ok(point) => Ok(steps.push(point)),
            },
        }
    }
}

/// The curve that configured steps resolve to: the built-in curve where
/// none are given, in ascending order of threshold.
pub open spec fn resolved_curve(steps: Seq<(i32, i32)>) -> Seq<(i32, i32)> {
    if steps.len() == 0 {
        ascending(default_curve())
    } else {
        ascending(steps)
    }
}

/// An error among the first texts is the error of the whole list.
pub proof fn lemma_first_error_wins(texts: Seq<String>, k: int, e: Seq<char>)
    requires
        0 <= k <= texts.len(),
        steps_of(texts.take(k)) == Err::<Seq<(i32, i32)>, Seq<char>>(e),
    ensures
        steps_of(texts) == Err::<Seq<(i32, i32)>, Seq<char>>(e),
    decreases texts.len() - k,
{
    if k == texts.len() {
        assert(texts.take(k) =~= texts);
    } else {
        assert(texts.take(k + 1).drop_last() =~= texts.take(k));
        lemma_first_error_wins(texts, k + 1, e);
    }
}

fn message(prefix: &str, subject: &str) -> (text: String)
    ensures
        text@ == prefix@ + subject@,
{
    let mut text: String = String::from_str(prefix);
    text.append(subject);
    text
}

/// Reads one step text.
pub fn parse_step(text: &str) -> (r: Result<(i32, i32), String>)
    ensures
        match r {
            Ok(point) => step_of(text@) == Ok::<(i32, i32), Seq<char>>(point),
            Err(e) => step_of(text@) == Err::<(i32, i32), Seq<char>>(e@),
        },
{
    let len: usize = text.unicode_len();
    let k: usize = find(text, 0, len, ':');
    proof {
        assert(text@.skip(0) =~= text@);
    }
    if k == len {
        return Err(message("Invalid step format: ", text));
    }
    let second: usize = find(text, k + 1, len, ':');
    if second != len {
        return Err(message("Invalid step format: ", text));
    }
    let first_part: &str = text.substring_char(0, k);
    let second_part: &str = text.substring_char(k + 1, len);
    match parse_thousandths(first_part) {
        None => Err(message("Invalid temperature value: ", first_part)),
        Some(temperature) => match parse_thousandths(second_part) {
            None => Err(message("Invalid fan speed value: ", second_part)),
            Some(speed) => Ok((temperature, speed)),
        },
    }
}

impl Args {
    /// The configured steps as breakpoints, in the order given.
    pub fn get_steps(&self) -> (r: Result<Vec<(i32, i32)>, String>)
        ensures
            match r {
                Ok(steps) => steps_of(self.step@) == Ok::<Seq<(i32, i32)>, Seq<char>>(steps@),
                Err(e) => steps_of(self.step@) == Err::<Seq<(i32, i32)>, Seq<char>>(e@),
            },
    {
        let mut steps: Vec<(i32, i32)> = Vec::new();
        let mut i: usize = 0;
        while i < self.step.len()
            invariant
                i <= self.step@.len(),
                steps_of(self.step@.take(i as int)) == Ok::<Seq<(i32, i32)>, Seq<char>>(steps@),
            decreases self.step@.len() - i,
        {
            proof {
                assert(self.step@.take(i + 1).drop_last() =~= self.step@.take(i as int));
            }
            match parse_step(self.step[i].as_str()) {
                Err(e) => {
                    proof {
                        lemma_first_error_wins(self.step@, i + 1, e@);
                    }
                    return Err(e);
                },
                Ok(point) => {
                    steps.push(point);
                },
            }
            i += 1;
        }
        proof {
            assert(self.step@.take(i as int) =~= self.step@);
        }
        Ok(steps)
    }

    /// The curve to run with: the configured steps, or the built-in curve
    /// where none are configured, in ascending order of threshold.
    pub fn get_curve(&self) -> (r: Result<Vec<(i32, i32)>, String>)
        ensures
            match r {
                Ok(curve) => steps_of(self.step@) matches Ok(steps) && curve@ == resolved_curve(
                    steps,
                ),
                Err(e) => steps_of(self.step@) == Err::<Seq<(i32, i32)>, Seq<char>>(e@),
            },
    {
        match self.get_steps() {
            Err(e) => Err(e),
            Ok(steps) => {
                if steps.len() == 0 {
                    Ok(sort_by_threshold(get_default_curve()))
                } else {
                    Ok(sort_by_threshold(steps))
                }
            },
        }
    }

    /// What to open the serial port with, and the curve to run with.
    /// `ports` holds the names of the machine's serial ports, or nothing
    /// where they could not be listed. Wrong steps are reported first, then
    /// a failed listing, then a machine without ports, then a configured
    /// port that is not among them.
    pub fn get_serial_handle(&self, ports: Option<&Vec<String>>) -> (r: Result<
        (SerialSettings, Vec<(i32, i32)>),
        StartupError,
    >)
        ensures
            match r {
                Err(StartupError::FailedToParseSteps(e)) => steps_of(self.step@) == Err::<
                    Seq<(i32, i32)>,
                    Seq<char>,
                >(e@),
                Err(StartupError::PortListing) => steps_of(self.step@) is Ok && ports is None,
                Err(StartupError::NoSerialPorts) => {
                    &&& steps_of(self.step@) is Ok
                    &&& ports matches Some(names)
                    &&& names@.len() == 0
                },
                Err(StartupError::PortNotFound(name)) => {
                    &&& steps_of(self.step@) is Ok
                    &&& ports matches Some(names)
                    &&& names@.len() > 0
                    &&& !listed(names@, self.port@)
                    &&& name@ == self.port@
                },
                Ok((settings, curve)) => {
                    &&& steps_of(self.step@) matches Ok(steps)
                    &&& curve@ == resolved_curve(steps)
                    &&& ports matches Some(names)
                    &&& listed(names@, self.port@)
                    &&& settings.port@ == self.port@
                    &&& settings.baud == self.baud
                    &&& settings.timeout_ms == self.timeout
                },
            },
    {
        let curve: Vec<(i32, i32)> = match self.get_curve() {
            Err(e) => {
                return Err(StartupError::FailedToParseSteps(e));
            },
            Ok(curve) => curve,
        };
        let names: &Vec<String> = match ports {
            None => {
                return Err(StartupError::PortListing);
            },
            Some(names) => names,
        };
        if names.len() == 0 {
            return Err(StartupError::NoSerialPorts);
        }
        if !is_listed(names, self.get_port()) {
            return Err(StartupError::PortNotFound(self.port.clone()));
        }
        let settings = SerialSettings {
            port: self.port.clone(),
            baud: self.baud,
            timeout_ms: self.timeout as u64,
        };
        Ok((settings, curve))
    }

    pub fn get_port(&self) -> (port: &str)
        ensures
            port@ == self.port@,
    {
        self.port.as_str()
    }

    pub fn get_baud(&self) -> (baud: u32)
        ensures
            baud == self.baud,
    {
        self.baud
    }

    pub fn get_timeout(&self) -> (timeout: u32)
        ensures
            timeout == self.timeout,
    {
        self.timeout
    }

    pub fn get_refresh_rate(&self) -> (refresh_rate: u32)
        ensures
            refresh_rate == self.refresh_rate,
    {
        self.refresh_rate
    }

    pub fn get_install(&self) -> (install: bool)
        ensures
            install == self.install,
    {
        self.install
    }
}

} // verus!
