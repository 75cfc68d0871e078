use rustarray30::cli::{parse_args, ParsedArgs};

fn args(words: &[&str]) -> Vec<String> {
    words.iter().map(|w| w.to_string()).collect()
}

fn run(words: &[&str]) -> (bool, Option<String>) {
    match parse_args(&args(words)) {
        ParsedArgs::Run { use_big_char, mode } => (use_big_char, mode),
        other => panic!("not a run: {:?}", other),
    }
}

#[test]
fn no_arguments_run_with_defaults() {
    assert_eq!(run(&["rustarray30"]), (false, None));
    assert_eq!(run(&[]), (false, None));
}

#[test]
fn program_name_is_passed_over() {
    assert_eq!(run(&["--big"]), (false, None));
    assert_eq!(run(&["--help"]), (false, None));
}

#[test]
fn flags_in_both_forms() {
    assert_eq!(run(&["p", "--big"]), (true, None));
    assert_eq!(run(&["p", "-b"]), (true, None));
    assert_eq!(run(&["p", "--console"]), (false, Some("console".to_string())));
    assert_eq!(run(&["p", "-c"]), (false, Some("console".to_string())));
    assert_eq!(run(&["p", "--gui"]), (false, Some("gui".to_string())));
    assert_eq!(run(&["p", "-g"]), (false, Some("gui".to_string())));
}

#[test]
fn the_later_front_end_counts() {
    assert_eq!(run(&["p", "-c", "-b", "-g"]), (true, Some("gui".to_string())));
    assert_eq!(run(&["p", "-g", "-c"]), (false, Some("console".to_string())));
}

#[test]
fn help_ends_the_reading() {
    assert!(matches!(parse_args(&args(&["p", "-b", "--help", "bogus"])), ParsedArgs::Help));
    assert!(matches!(parse_args(&args(&["p", "-h"])), ParsedArgs::Help));
}

#[test]
fn unknown_argument_is_reported() {
    match parse_args(&args(&["p", "-b", "--fast", "--help"])) {
        ParsedArgs::Unknown(arg) => assert_eq!(arg, "--fast"),
        other => panic!("unexpected: {:?}", other),
    }
    match parse_args(&args(&["p", "--BIG"])) {
        ParsedArgs::Unknown(arg) => assert_eq!(arg, "--BIG"),
        other => panic!("unexpected: {:?}", other),
    }
}
