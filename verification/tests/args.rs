use media_player::args::{parse_args, parse_u32, str_eq, ArgError, Command, Runs};

fn parse(words: &[&str]) -> Result<Command, ArgError> {
    let args: Vec<String> = words.iter().map(|w| w.to_string()).collect();
    let angles: Vec<bool> = args.iter().map(|a| a.parse::<f32>().is_ok()).collect();
    parse_args(&args, &angles)
}

fn play(words: &[&str]) -> (String, Runs, bool, Option<String>) {
    match parse(words) {
        Ok(Command::Play(o)) => (o.path, o.repeat, o.no_window, o.rotate),
        other => panic!("expected options, got {:?}", other),
    }
}

#[test]
fn nothing_given_is_a_usage_error() {
    assert_eq!(parse(&[]).unwrap_err(), ArgError::NoArguments);
    assert!(ArgError::NoArguments.shows_usage());
    assert_eq!(ArgError::NoArguments.message(), "");
}

#[test]
fn help_wins_when_it_comes_first() {
    assert!(matches!(parse(&["-h"]), Ok(Command::Help)));
    assert!(matches!(parse(&["movie.mp4", "--help", "x", "y"]), Ok(Command::Help)));
    assert_eq!(parse(&["a", "b", "--help"]).unwrap_err(), ArgError::Unknown);
}

#[test]
fn defaults() {
    assert_eq!(play(&["movie.mp4"]), ("movie.mp4".to_string(), Runs::Times(1), false, None));
}

#[test]
fn repeat_zero_means_forever() {
    assert_eq!(play(&["--repeat", "0", "a.mp4"]).1, Runs::Forever);
    assert_eq!(play(&["-r", "3", "a.mp4"]).1, Runs::Times(3));
    assert_eq!(play(&["-r", "3", "a.mp4", "--repeat", "+7"]).1, Runs::Times(7));
}

#[test]
fn repeat_needs_a_count() {
    assert_eq!(parse(&["-r"]).unwrap_err(), ArgError::ExpectCount { short: true });
    assert_eq!(parse(&["a", "--repeat", "x"]).unwrap_err(), ArgError::ExpectCount { short: false });
    assert_eq!(parse(&["--repeat", "-1"]).unwrap_err(), ArgError::ExpectCount { short: false });
    assert_eq!(
        ArgError::ExpectCount { short: true }.message(),
        "Invalid argument. Expect a positive integer after -r flag"
    );
}

#[test]
fn rotate_and_no_window() {
    assert_eq!(
        play(&["--no-window", "--rotate", "90", "a.mp4", "--rotate", "-45.5"]),
        ("a.mp4".to_string(), Runs::Times(1), true, Some("-45.5".to_string()))
    );
    assert_eq!(parse(&["--rotate", "abc", "x", "y"]).unwrap_err(), ArgError::ExpectAngle);
    assert_eq!(parse(&["a", "--rotate"]).unwrap_err(), ArgError::ExpectAngle);
}

#[test]
fn one_file_only() {
    assert_eq!(parse(&["a", "b"]).unwrap_err(), ArgError::Unknown);
    assert!(ArgError::Unknown.shows_usage());
    assert_eq!(parse(&["--no-window"]).unwrap_err(), ArgError::NoFile);
    assert_eq!(ArgError::NoFile.message(), "Invalid argument. Expect a file to open.");
}

#[test]
fn u32_parsing_follows_str_parse() {
    for s in ["0", "7", "+7", "007", "4294967295", "4294967296", "", "+", "-1", "1 ", "1a", "٣"] {
        assert_eq!(parse_u32(s), s.parse::<u32>().ok(), "{}", s);
    }
}

#[test]
fn string_equality() {
    assert!(str_eq("--help", "--help"));
    assert!(!str_eq("--help", "--hel"));
    assert!(!str_eq("-h", "-r"));
}
