use modscan::cli::{parse_args, UsageError, LISTED_EXIT_CODE, USAGE_EXIT_CODE};

fn args_of(words: &[&str]) -> Vec<String> {
    words.iter().map(|word| word.to_string()).collect()
}

#[test]
fn missing_argument_is_refused() {
    assert_eq!(parse_args(&args_of(&["modscan"])), Err(UsageError::MissingPid));
    assert_eq!(parse_args(&args_of(&[])), Err(UsageError::MissingPid));
}

#[test]
fn argument_that_is_no_number_is_refused() {
    assert_eq!(parse_args(&args_of(&["modscan", "abc"])), Err(UsageError::InvalidPid));
    assert_eq!(parse_args(&args_of(&["modscan", ""])), Err(UsageError::InvalidPid));
    assert_eq!(parse_args(&args_of(&["modscan", "-4"])), Err(UsageError::InvalidPid));
    assert_eq!(parse_args(&args_of(&["modscan", "12x"])), Err(UsageError::InvalidPid));
}

#[test]
fn argument_out_of_range_is_refused() {
    assert_eq!(parse_args(&args_of(&["modscan", "4294967296"])), Err(UsageError::InvalidPid));
}

#[test]
fn number_is_the_process_identifier() {
    assert_eq!(parse_args(&args_of(&["modscan", "4321"])), Ok(4321));
    assert_eq!(parse_args(&args_of(&["modscan", "0"])), Ok(0));
    assert_eq!(parse_args(&args_of(&["modscan", "4294967295"])), Ok(u32::MAX));
}

#[test]
fn arguments_behind_the_first_are_not_read() {
    assert_eq!(parse_args(&args_of(&["modscan", "17", "abc", "18"])), Ok(17));
    assert_eq!(parse_args(&args_of(&["modscan", "abc", "18"])), Err(UsageError::InvalidPid));
}

#[test]
fn usage_messages() {
    assert_eq!(
        UsageError::MissingPid.message(),
        "Please provide a process ID (PID) as an argument."
    );
    assert_eq!(UsageError::InvalidPid.message(), "Invalid PID provided.");
}

#[test]
fn exit_codes() {
    assert_eq!(USAGE_EXIT_CODE, 1);
    assert_eq!(LISTED_EXIT_CODE, 0);
}
