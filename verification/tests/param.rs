use fan_manager::curve::get_default_curve;
use fan_manager::param::{
    is_listed, parse_step, Args, ExitErrorCode, SerialSettings, StartupError,
};

fn args(steps: &[&str], port: &str) -> Args {
    Args {
        step: steps.iter().map(|s| s.to_string()).collect(),
        install: false,
        port: String::from(port),
        baud: 115200,
        timeout: 1500,
        refresh_rate: 1000,
        log_level: String::from("info"),
    }
}

fn names(ports: &[&str]) -> Vec<String> {
    ports.iter().map(|s| s.to_string()).collect()
}

#[test]
fn getters_return_the_fields() {
    let a = Args {
        step: Vec::new(),
        install: true,
        port: String::from("/dev/ttyUSB3"),
        baud: 9600,
        timeout: 250,
        refresh_rate: 2000,
        log_level: String::from("debug"),
    };
    assert_eq!(a.get_port(), "/dev/ttyUSB3");
    assert_eq!(a.get_baud(), 9600);
    assert_eq!(a.get_timeout(), 250);
    assert_eq!(a.get_refresh_rate(), 2000);
    assert!(a.get_install());
    assert!(!args(&[], "x").get_install());
}

#[test]
fn parse_step_reads_a_pair() {
    assert_eq!(parse_step("50:100"), Ok((50_000, 100_000)));
    assert_eq!(parse_step("50.5:33.3"), Ok((50_500, 33_300)));
    assert_eq!(parse_step("-10:0"), Ok((-10_000, 0)));
}

#[test]
fn parse_step_wants_exactly_one_colon() {
    assert_eq!(parse_step("50"), Err(String::from("Invalid step format: 50")));
    assert_eq!(parse_step(""), Err(String::from("Invalid step format: ")));
    assert_eq!(parse_step("50:100:1"), Err(String::from("Invalid step format: 50:100:1")));
    assert_eq!(parse_step("50::100"), Err(String::from("Invalid step format: 50::100")));
}

#[test]
fn parse_step_names_the_part_that_is_wrong() {
    assert_eq!(parse_step("hot:100"), Err(String::from("Invalid temperature value: hot")));
    assert_eq!(parse_step(":100"), Err(String::from("Invalid temperature value: ")));
    assert_eq!(parse_step("50:fast"), Err(String::from("Invalid fan speed value: fast")));
    assert_eq!(parse_step("50:"), Err(String::from("Invalid fan speed value: ")));
    assert_eq!(parse_step("hot:fast"), Err(String::from("Invalid temperature value: hot")));
    assert_eq!(parse_step("50 :100"), Err(String::from("Invalid temperature value: 50 ")));
    assert_eq!(
        parse_step("f\u{00fc}nfzig:10\u{00b0}"),
        Err(String::from("Invalid temperature value: f\u{00fc}nfzig"))
    );
    assert_eq!(
        parse_step("50:10\u{00b0}"),
        Err(String::from("Invalid fan speed value: 10\u{00b0}"))
    );
}

#[test]
fn get_steps_keeps_the_order_given() {
    assert_eq!(
        args(&["60:50", "1:10", "50:20"], "p").get_steps(),
        Ok(vec![(60_000, 50_000), (1_000, 10_000), (50_000, 20_000)])
    );
    assert_eq!(args(&[], "p").get_steps(), Ok(Vec::new()));
}

#[test]
fn get_steps_reports_the_first_error() {
    assert_eq!(
        args(&["60:50", "1;10", "x:20"], "p").get_steps(),
        Err(String::from("Invalid step format: 1;10"))
    );
    assert_eq!(
        args(&["60:50", "1:ten", "x:20"], "p").get_steps(),
        Err(String::from("Invalid fan speed value: ten"))
    );
}

#[test]
fn get_curve_sorts_the_steps() {
    assert_eq!(
        args(&["60:50", "1:10", "50:20"], "p").get_curve(),
        Ok(vec![(1_000, 10_000), (50_000, 20_000), (60_000, 50_000)])
    );
    assert_eq!(
        args(&["50:20", "50:30", "10:5"], "p").get_curve(),
        Ok(vec![(10_000, 5_000), (50_000, 20_000), (50_000, 30_000)])
    );
}

#[test]
fn get_curve_falls_back_to_the_default_curve() {
    assert_eq!(args(&[], "p").get_curve(), Ok(get_default_curve()));
}

#[test]
fn get_curve_passes_the_error_on() {
    assert_eq!(
        args(&["a:1"], "p").get_curve(),
        Err(String::from("Invalid temperature value: a"))
    );
}

#[test]
fn is_listed_compares_whole_names() {
    let ports = names(&["/dev/ttyS0", "/dev/ttyUSB0"]);
    assert!(is_listed(&ports, "/dev/ttyS0"));
    assert!(is_listed(&ports, "/dev/ttyUSB0"));
    assert!(!is_listed(&ports, "/dev/ttyS"));
    assert!(!is_listed(&ports, "/dev/ttyS00"));
    assert!(!is_listed(&ports, ""));
    assert!(!is_listed(&Vec::new(), "/dev/ttyS0"));
}

#[test]
fn serial_handle_for_a_listed_port() {
    let ports = names(&["/dev/ttyUSB0", "/dev/ttyS0"]);
    let got = args(&["60:50", "1:10"], "/dev/ttyS0").get_serial_handle(Some(&ports));
    assert_eq!(
        got,
        Ok((
            SerialSettings { port: String::from("/dev/ttyS0"), baud: 115200, timeout_ms: 1500 },
            vec![(1_000, 10_000), (60_000, 50_000)]
        ))
    );
    let default = args(&[], "/dev/ttyS0").get_serial_handle(Some(&ports)).unwrap();
    assert_eq!(default.1, get_default_curve());
}

#[test]
fn serial_handle_errors_in_order() {
    let ports = names(&["/dev/ttyUSB0"]);
    let none: Vec<String> = Vec::new();
    assert_eq!(
        args(&["x"], "/dev/ttyS0").get_serial_handle(None),
        Err(StartupError::FailedToParseSteps(String::from("Invalid step format: x")))
    );
    assert_eq!(
        args(&["x"], "/dev/ttyUSB0").get_serial_handle(Some(&ports)),
        Err(StartupError::FailedToParseSteps(String::from("Invalid step format: x")))
    );
    assert_eq!(
        args(&["1:1"], "/dev/ttyS0").get_serial_handle(None),
        Err(StartupError::PortListing)
    );
    assert_eq!(
        args(&["1:1"], "/dev/ttyS0").get_serial_handle(Some(&none)),
        Err(StartupError::NoSerialPorts)
    );
    assert_eq!(
        args(&["1:1"], "/dev/ttyS0").get_serial_handle(Some(&ports)),
        Err(StartupError::PortNotFound(String::from("/dev/ttyS0")))
    );
}

#[test]
fn exit_codes() {
    assert_eq!(ExitErrorCode::FailedToParseSteps.code(), 0);
    assert_eq!(ExitErrorCode::NoSerialPorts.code(), 1);
    assert_eq!(
        StartupError::FailedToParseSteps(String::from("m")).exit_code(),
        ExitErrorCode::FailedToParseSteps
    );
    assert_eq!(StartupError::PortListing.exit_code(), ExitErrorCode::NoSerialPorts);
    assert_eq!(StartupError::NoSerialPorts.exit_code(), ExitErrorCode::NoSerialPorts);
    assert_eq!(
        StartupError::PortNotFound(String::from("p")).exit_code(),
        ExitErrorCode::NoSerialPorts
    );
}

#[test]
fn startup_error_messages() {
    assert_eq!(
        StartupError::FailedToParseSteps(String::from("Invalid step format: x")).message(),
        "Invalid step format: x"
    );
    assert_eq!(StartupError::PortListing.message(), "Error listing serial ports");
    assert_eq!(StartupError::NoSerialPorts.message(), "No serial ports found.");
    assert_eq!(
        StartupError::PortNotFound(String::from("/dev/ttyS0")).message(),
        "Serial port /dev/ttyS0 not found."
    );
}
