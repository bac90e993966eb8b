use pm::parser::{Command, Parser, ParserError};
use pm::words::split_words;

fn name_of(c: &Command) -> Option<String> {
    match c {
        Command::Get { name } => Some(name.clone()),
        Command::Del { name } => Some(name.clone()),
        Command::SetSecret { name, .. } => Some(name.clone()),
        _ => None,
    }
}

#[test]
fn parse_get_with_one_name() {
    let c = Parser::parse("get www.example.com").unwrap();
    assert!(matches!(c, Command::Get { .. }));
    assert_eq!(name_of(&c), Some("www.example.com".to_string()));
}

#[test]
fn parse_lowercases_the_command_word() {
    let c = Parser::parse("GeT Mail").unwrap();
    assert!(matches!(c, Command::Get { .. }));
    assert_eq!(name_of(&c), Some("Mail".to_string()));
}

#[test]
fn parse_set_takes_three_arguments() {
    let c = Parser::parse("set www.example.com balenablu 133434").unwrap();
    match c {
        Command::SetSecret { name, username, password } => {
            assert_eq!(name, "www.example.com");
            assert_eq!(username, "balenablu");
            assert_eq!(password, "133434");
        }
        _ => panic!("expected a set command"),
    }
}

#[test]
fn parse_del_takes_one_argument() {
    let c = Parser::parse("del site").unwrap();
    assert!(matches!(c, Command::Del { .. }));
    assert_eq!(name_of(&c), Some("site".to_string()));
}

#[test]
fn parse_commands_without_arguments() {
    assert!(matches!(Parser::parse("all"), Ok(Command::All)));
    assert!(matches!(Parser::parse("exit"), Ok(Command::Exit)));
    assert!(matches!(Parser::parse("HELP"), Ok(Command::Help)));
    assert!(matches!(Parser::parse("all extra words"), Ok(Command::All)));
}

#[test]
fn parse_missing_arguments() {
    assert!(matches!(Parser::parse("get"), Err(ParserError::MissingArgument)));
    assert!(matches!(Parser::parse("get a b"), Err(ParserError::MissingArgument)));
    assert!(matches!(Parser::parse("del"), Err(ParserError::MissingArgument)));
    assert!(matches!(Parser::parse("set a b"), Err(ParserError::MissingArgument)));
    assert!(matches!(Parser::parse("set a b c d"), Err(ParserError::MissingArgument)));
}

#[test]
fn parse_unknown_command() {
    assert!(matches!(Parser::parse("list"), Err(ParserError::UnknownCommand)));
    assert!(matches!(Parser::parse("getx a"), Err(ParserError::UnknownCommand)));
}

#[test]
fn parse_splits_on_any_white_space() {
    let c = Parser::parse("  get\t\u{3000}name\u{2003} ").unwrap();
    assert_eq!(name_of(&c), Some("name".to_string()));
    let c = Parser::parse("set\u{a0}a\nb\u{85}c").unwrap();
    assert!(matches!(c, Command::SetSecret { .. }));
}

#[test]
fn parse_command_rejects_empty_arguments() {
    assert!(matches!(Parser::parse_command("get", &[""]), Err(ParserError::InvalidArgument)));
    assert!(matches!(Parser::parse_command("del", &[""]), Err(ParserError::InvalidArgument)));
    assert!(matches!(Parser::parse_command("set", &["a", "", "c"]), Err(ParserError::InvalidArgument)));
    assert!(matches!(Parser::parse_command("set", &["a", "b"]), Err(ParserError::MissingArgument)));
    assert!(matches!(Parser::parse_command("GET", &["a"]), Err(ParserError::UnknownCommand)));
    assert!(matches!(Parser::parse_command("get", &["a"]), Ok(Command::Get { .. })));
}

#[test]
fn parser_error_messages() {
    assert_eq!(ParserError::UnknownCommand.message(), "unknown command");
    assert_eq!(ParserError::MissingArgument.message(), "missing argument");
    assert_eq!(ParserError::InvalidArgument.message(), "invalid argument");
}

#[test]
fn split_words_matches_split_whitespace() {
    let inputs = ["", "   ", "a", " a  b\tc ", "x\u{2028}y\u{205f}z", "é ü\u{1680}ß"];
    for s in inputs.iter() {
        let ours: Vec<&str> = split_words(s);
        let std_words: Vec<&str> = s.split_whitespace().collect();
        assert_eq!(ours, std_words);
    }
}
