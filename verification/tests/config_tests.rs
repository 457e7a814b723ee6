use htmlisp::config::{ArgsError, Config};

fn args(list: &[&str]) -> Vec<String> {
    list.iter().map(|s| s.to_string()).collect()
}

#[test]
fn input_and_output_files_are_read() {
    let cfg = Config::new(args(&["htmlisp", "-i", "in.htmlisp", "-o", "out.html"])).unwrap();
    assert_eq!(cfg.input_file, "in.htmlisp");
    assert_eq!(cfg.output_file, "out.html");
    assert!(!cfg.help);
    assert!(!cfg.prettify);
    assert_eq!(cfg.watch, "");
}

#[test]
fn long_flags_are_accepted() {
    let cfg = Config::new(args(&[
        "htmlisp",
        "--input",
        "a",
        "--output",
        "b",
        "--prettify",
    ]))
    .unwrap();
    assert_eq!(cfg.input_file, "a");
    assert_eq!(cfg.output_file, "b");
    assert!(cfg.prettify);
}

#[test]
fn help_alone_is_enough() {
    let cfg = Config::new(args(&["htmlisp", "-h"])).unwrap();
    assert!(cfg.help);
}

#[test]
fn no_arguments_misses_the_input() {
    assert_eq!(Config::new(args(&["htmlisp"])).unwrap_err(), ArgsError::InputMissing);
}

#[test]
fn input_flag_without_a_value() {
    assert_eq!(
        Config::new(args(&["htmlisp", "-i"])).unwrap_err(),
        ArgsError::InputMissing
    );
}

#[test]
fn output_flag_without_a_value() {
    assert_eq!(
        Config::new(args(&["htmlisp", "-i", "a", "-o"])).unwrap_err(),
        ArgsError::OutputMissing
    );
}

#[test]
fn watch_flag_without_a_value() {
    assert_eq!(
        Config::new(args(&["htmlisp", "-w"])).unwrap_err(),
        ArgsError::WatchDirMissing
    );
}

#[test]
fn watch_still_requires_an_output_file() {
    assert_eq!(
        Config::new(args(&["htmlisp", "-w", "dir"])).unwrap_err(),
        ArgsError::OutputMissing
    );
    let cfg = Config::new(args(&["htmlisp", "-w", "dir", "-o", "out.html"])).unwrap();
    assert_eq!(cfg.watch, "dir");
}

#[test]
fn input_without_output_misses_the_output() {
    assert_eq!(
        Config::new(args(&["htmlisp", "-i", "a"])).unwrap_err(),
        ArgsError::OutputMissing
    );
}

#[test]
fn unknown_flag_is_reported_verbatim() {
    assert_eq!(
        Config::new(args(&["htmlisp", "-x"])).unwrap_err(),
        ArgsError::UnknownArg("-x".to_string())
    );
}

#[test]
fn later_values_overwrite_earlier_ones() {
    let cfg = Config::new(args(&["htmlisp", "-i", "a", "-i", "b", "-o", "c"])).unwrap();
    assert_eq!(cfg.input_file, "b");
}

#[test]
fn error_messages() {
    assert_eq!(
        Config::new(args(&["htmlisp"])).unwrap_err().message(),
        "Input file not specified"
    );
    assert_eq!(
        Config::new(args(&["htmlisp", "-i", "a"])).unwrap_err().message(),
        "Output file not specified"
    );
    assert_eq!(
        Config::new(args(&["htmlisp", "-w"])).unwrap_err().message(),
        "Directory to watch not specified"
    );
    assert_eq!(
        Config::new(args(&["htmlisp", "-x"])).unwrap_err().message(),
        "Unknown flag '-x'"
    );
}
