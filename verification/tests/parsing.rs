use redirector::input_param::ErrorKind;
use redirector::input_param::{
    parse_args_from_iterator, parse_args_from_string, parse_resume, parse_slow, parse_start,
    parse_stop, ParseError, ParsedCommand,
};

fn words(ws: &[&str]) -> Vec<String> {
    ws.iter().map(|w| w.to_string()).collect()
}

fn start_parts(r: Result<ParsedCommand, ParseError>) -> (String, String, String) {
    match r {
        Ok(ParsedCommand::Start(n, e, t)) => (n, e, t),
        other => panic!("expected a start command, got {:?}", other),
    }
}

#[test]
fn parses_documented_start_example() {
    let (n, e, t) = start_parts(parse_args_from_string(
        "start my_app_https 1001:127.0.0.1:7176".to_string(),
    ));
    assert_eq!(n, "my_app_https");
    assert_eq!(e, "1001");
    assert_eq!(t, "127.0.0.1:7176");
}

#[test]
fn parses_documented_stop_example() {
    match parse_args_from_string("stop my_app_https".to_string()) {
        Ok(ParsedCommand::Stop(name)) => assert_eq!(name, "my_app_https"),
        other => panic!("unexpected {:?}", other),
    }
}

#[test]
fn parses_documented_slow_example() {
    match parse_args_from_string("slow my_app_https 200".to_string()) {
        Ok(ParsedCommand::Slow(name, time)) => {
            assert_eq!(name, "my_app_https");
            assert_eq!(time, "200");
        }
        other => panic!("unexpected {:?}", other),
    }
}

#[test]
fn parses_resume() {
    match parse_args_from_string("resume svc".to_string()) {
        Ok(ParsedCommand::Resume(name)) => assert_eq!(name, "svc"),
        other => panic!("unexpected {:?}", other),
    }
}

#[test]
fn from_str_reads_a_request() {
    match ParsedCommand::from_str("stop a") {
        Ok(ParsedCommand::Stop(name)) => assert_eq!(name, "a"),
        other => panic!("unexpected {:?}", other),
    }
}

#[test]
fn empty_word_is_unknown() {
    match parse_args_from_string(String::new()) {
        Err(ParseError::UnknownCommand(w)) => assert_eq!(w, ""),
        other => panic!("unexpected {:?}", other),
    }
}

#[test]
fn unknown_command_is_named() {
    match parse_args_from_string("restart x".to_string()) {
        Err(ParseError::UnknownCommand(w)) => assert_eq!(w, "restart"),
        other => panic!("unexpected {:?}", other),
    }
}

#[test]
fn commands_are_case_sensitive() {
    assert!(matches!(
        parse_args_from_string("STOP x".to_string()),
        Err(ParseError::UnknownCommand(_))
    ));
}

#[test]
fn no_words_is_no_command() {
    assert!(matches!(parse_args_from_iterator(Vec::new()), Err(ParseError::NoCommand)));
}

#[test]
fn missing_arguments_are_reported() {
    assert!(matches!(parse_args_from_string("start".to_string()), Err(ParseError::MissingName)));
    assert!(matches!(
        parse_args_from_string("start a".to_string()),
        Err(ParseError::MissingAddressPair)
    ));
    assert!(matches!(
        parse_args_from_string("start a 1001".to_string()),
        Err(ParseError::MissingSeparator)
    ));
    assert!(matches!(parse_args_from_string("stop".to_string()), Err(ParseError::MissingName)));
    assert!(matches!(parse_args_from_string("slow".to_string()), Err(ParseError::MissingName)));
    assert!(matches!(parse_args_from_string("slow a".to_string()), Err(ParseError::MissingTime)));
    assert!(matches!(parse_args_from_string("resume".to_string()), Err(ParseError::MissingName)));
}

#[test]
fn double_space_gives_an_empty_word() {
    match parse_args_from_string("stop  x".to_string()) {
        Ok(ParsedCommand::Stop(name)) => assert_eq!(name, ""),
        other => panic!("unexpected {:?}", other),
    }
}

#[test]
fn trailing_space_gives_an_empty_argument() {
    match parse_args_from_string("stop ".to_string()) {
        Ok(ParsedCommand::Stop(name)) => assert_eq!(name, ""),
        other => panic!("unexpected {:?}", other),
    }
}

#[test]
fn extra_words_are_ignored() {
    match parse_args_from_string("stop a b c".to_string()) {
        Ok(ParsedCommand::Stop(name)) => assert_eq!(name, "a"),
        other => panic!("unexpected {:?}", other),
    }
}

#[test]
fn pair_splits_at_first_colon() {
    let (n, e, t) = start_parts(parse_args_from_string("start a :".to_string()));
    assert_eq!((n.as_str(), e.as_str(), t.as_str()), ("a", "", ""));
    let (_, e, t) = start_parts(parse_args_from_string("start a x:y:z".to_string()));
    assert_eq!((e.as_str(), t.as_str()), ("x", "y:z"));
}

#[test]
fn non_ascii_text_is_split_by_characters() {
    let (n, e, t) = start_parts(parse_args_from_string("start ñame é:ü".to_string()));
    assert_eq!((n.as_str(), e.as_str(), t.as_str()), ("ñame", "é", "ü"));
}

#[test]
fn word_parsers_take_the_arguments() {
    let (n, e, t) = start_parts(parse_start(words(&["a", "1:b"])));
    assert_eq!((n.as_str(), e.as_str(), t.as_str()), ("a", "1", "b"));
    assert!(matches!(parse_stop(words(&["a"])), Ok(ParsedCommand::Stop(_))));
    assert!(matches!(parse_slow(words(&["a", "5"])), Ok(ParsedCommand::Slow(_, _))));
    assert!(matches!(parse_resume(words(&[])), Err(ParseError::MissingName)));
    assert!(matches!(
        parse_args_from_iterator(words(&["slow", "a", "5"])),
        Ok(ParsedCommand::Slow(_, _))
    ));
}

#[test]
fn written_commands_read_back() {
    // A command written with single spaces reads back as itself.
    let (n, e, t) = start_parts(parse_args_from_string(format!(
        "start {} {}:{}",
        "svc", "8080", "10.0.0.1:80"
    )));
    assert_eq!((n.as_str(), e.as_str(), t.as_str()), ("svc", "8080", "10.0.0.1:80"));
}

#[test]
fn parse_errors_carry_their_text() {
    let cases = [
        ("restart x", "Unknown command: restart"),
        ("start", "Missing name argument"),
        ("start a", "Missing address pair argument"),
        ("start a 1", "Missing ':' in address pair"),
        ("slow a", "Missing time argument"),
    ];
    for (input, text) in cases {
        match parse_args_from_string(input.to_string()) {
            Err(e) => {
                assert_eq!(e.message(), text);
                assert_eq!(e.kind(), ErrorKind::InvalidInput);
            }
            Ok(c) => panic!("unexpected {:?}", c),
        }
    }
    match parse_args_from_iterator(Vec::new()) {
        Err(e) => assert_eq!(e.message(), "Cannot parse command"),
        Ok(c) => panic!("unexpected {:?}", c),
    }
}
