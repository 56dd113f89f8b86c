use comic_mirror::options::{parse_options, OptionError, Options};

fn args(v: &[&str]) -> Vec<String> {
    v.iter().map(|s| s.to_string()).collect()
}

#[test]
fn no_arguments_give_defaults() {
    assert_eq!(
        parse_options(&args(&[])).unwrap(),
        Options { root: "./download".to_string(), interval_ms: 2000, max_tries: 3 }
    );
}

#[test]
fn flags_set_options_and_last_wins() {
    let o = parse_options(&args(&["--root", "/tmp/m", "--interval-ms", "0", "--retries", "5", "--root", "out"])).unwrap();
    assert_eq!(o, Options { root: "out".to_string(), interval_ms: 0, max_tries: 5 });
}

#[test]
fn bad_arguments_are_refused() {
    assert_eq!(parse_options(&args(&["--verbose", "1"])), Err(OptionError::UnknownFlag));
    assert_eq!(parse_options(&args(&["--verbose"])), Err(OptionError::UnknownFlag));
    assert_eq!(parse_options(&args(&["--retries"])), Err(OptionError::MissingValue));
    assert_eq!(parse_options(&args(&["--interval-ms", "2s"])), Err(OptionError::BadNumber));
    assert_eq!(parse_options(&args(&["--retries", "0"])), Err(OptionError::BadNumber));
    assert_eq!(parse_options(&args(&["--retries", "4294967296"])), Err(OptionError::BadNumber));
    assert_eq!(parse_options(&args(&["--retries", "4294967295"])).unwrap().max_tries, u32::MAX);
}
