use kirv::control::config::{parse_env_args, ArgText, ControlConfig};
use kirv::control::ControlError;
use std::num::ParseFloatError;

fn utf8(text: &str) -> ArgText {
    ArgText::Utf8(text.to_string())
}

fn parse(text: &str) -> Result<f32, ParseFloatError> {
    text.parse()
}

fn within(throttle: &f32, low: u8, high: u8) -> bool {
    (f32::from(low)..=f32::from(high)).contains(throttle)
}

fn parse_args(args: &Vec<String>) -> Result<ControlConfig<f32>, ControlError> {
    ControlConfig::parse_args(args, parse, within)
}

#[test]
fn parse_env_args_rejects_non_utf8_arguments() {
    let args = vec![
        utf8("kirv"),
        ArgText::Lossy("\u{fffd}".to_string()),
        utf8("10"),
    ];

    assert!(matches!(
        parse_env_args(args),
        Err(ControlError::InvalidArguments(
            "arguments must be valid UTF-8"
        ))
    ));
}

#[test]
fn parse_env_args_accepts_non_utf8_program_path() {
    let args = vec![
        ArgText::Lossy("kirv\u{fffd}".to_string()),
        utf8("123"),
        utf8("10"),
    ];

    let parsed = parse_env_args(args).expect("program path should be converted lossily");

    assert_eq!(parsed.len(), 3);
    assert_eq!(parsed[0], "kirv\u{fffd}");
    assert_eq!(parsed[1], "123");
    assert_eq!(parsed[2], "10");
}

#[test]
fn parse_env_args_of_nothing_is_nothing() {
    assert!(parse_env_args(Vec::new()).unwrap().is_empty());
}

#[test]
fn parse_args_rejects_invalid_arity() {
    let args = vec!["kirv".to_string(), "123".to_string()];
    assert!(matches!(
        parse_args(&args),
        Err(ControlError::InvalidArguments(
            "usage: kirv <pid> <percentage>"
        ))
    ));
}

#[test]
fn parse_args_rejects_invalid_pid() {
    let args = vec!["kirv".to_string(), "abc".to_string(), "10".to_string()];
    assert!(matches!(parse_args(&args), Err(ControlError::InvalidPid(_))));
}

#[test]
fn parse_args_rejects_non_positive_pid() {
    let args = vec!["kirv".to_string(), "-1".to_string(), "10".to_string()];
    assert!(matches!(
        parse_args(&args),
        Err(ControlError::InvalidArguments("pid must be greater than 0"))
    ));
}

#[test]
fn parse_args_rejects_out_of_range_percentage() {
    let args = vec!["kirv".to_string(), "123".to_string(), "100".to_string()];
    assert!(matches!(
        parse_args(&args),
        Err(ControlError::InvalidArguments(
            "percentage must be between 1 and 99"
        ))
    ));
}

#[test]
fn parse_args_accepts_percentage_above_fifty() {
    let args = vec!["kirv".to_string(), "123".to_string(), "99".to_string()];

    let parsed = parse_args(&args).expect("percentage should be accepted");

    assert_eq!(parsed.pid, 123);
    assert_eq!(parsed.throttle, 99.0);
}

#[test]
fn parse_args_rejects_empty_percentage() {
    let args = vec!["kirv".to_string(), "123".to_string(), "".to_string()];
    assert!(matches!(
        parse_args(&args),
        Err(ControlError::InvalidThrottle(_))
    ));
}

#[test]
fn parse_args_ignores_white_space_round_the_numbers() {
    let args = vec![
        "kirv".to_string(),
        "\u{3000} +42\t".to_string(),
        "\n1.5 ".to_string(),
    ];

    let parsed = parse_args(&args).expect("white space should be cut off");

    assert_eq!(parsed.pid, 42);
    assert_eq!(parsed.throttle, 1.5);
}

#[test]
fn parse_args_takes_the_bounds_of_a_pid() {
    let with_pid = |pid: &str| {
        parse_args(&vec!["kirv".to_string(), pid.to_string(), "10".to_string()])
    };

    assert_eq!(with_pid("2147483647").unwrap().pid, i32::MAX);
    assert!(matches!(
        with_pid("2147483648"),
        Err(ControlError::InvalidPid(_))
    ));
    assert!(matches!(
        with_pid("-2147483648"),
        Err(ControlError::InvalidArguments("pid must be greater than 0"))
    ));
    for text in ["", "-", "+", "1 2", "0x10", "--1", "1-", "\u{0663}"] {
        assert!(matches!(with_pid(text), Err(ControlError::InvalidPid(_))));
    }
}

#[test]
fn parse_args_takes_the_bounds_of_a_percentage() {
    let with_percentage = |percentage: &str| {
        parse_args(&vec![
            "kirv".to_string(),
            "7".to_string(),
            percentage.to_string(),
        ])
    };

    assert_eq!(with_percentage("1").unwrap().throttle, 1.0);
    for text in ["0.99", "99.01", "NaN"] {
        assert!(matches!(
            with_percentage(text),
            Err(ControlError::InvalidArguments(
                "percentage must be between 1 and 99"
            ))
        ));
    }
}

#[test]
fn from_env_reads_arguments_as_the_system_gives_them() {
    let args = vec![
        ArgText::Lossy("kirv\u{fffd}".to_string()),
        utf8("123"),
        utf8("10"),
    ];
    let config = ControlConfig::from_env(args, parse, within).unwrap();

    assert_eq!(config.pid, 123);
    assert_eq!(config.throttle, 10.0);

    let args = vec![
        utf8("kirv"),
        utf8("123"),
        ArgText::Lossy("\u{fffd}".to_string()),
    ];
    assert!(matches!(
        ControlConfig::from_env(args, parse, within),
        Err(ControlError::InvalidArguments(
            "arguments must be valid UTF-8"
        ))
    ));
}

#[test]
fn control_errors_read_as_sentences() {
    let pid_error = "abc".parse::<i32>().unwrap_err();
    let pid_text = pid_error.to_string();
    let float_error = "".parse::<f32>().unwrap_err();
    let float_text = float_error.to_string();

    assert_eq!(
        ControlError::InvalidArguments("usage: kirv <pid> <percentage>").message(),
        "usage: kirv <pid> <percentage>"
    );
    assert_eq!(
        ControlError::InvalidPid(pid_error).message(),
        format!("invalid pid: {pid_text}")
    );
    assert_eq!(
        ControlError::InvalidThrottle(float_error).message(),
        format!("invalid throttle percentage: {float_text}")
    );
    assert_eq!(
        ControlError::ActiveTargetAlreadySet.message(),
        "control loop is already active"
    );
    assert_eq!(
        ControlError::ResumeFailed(kirv::control::fault::IoFault::other("EPERM")).message(),
        "failed to resume target process group: EPERM"
    );
}
