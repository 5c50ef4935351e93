//! The chat command parser and the space trimmer.

use classicl_server::chat::trim_spaces;
use classicl_server::commands::{Command, CommandError};

#[test]
fn tp_with_one_argument_parses() {
    match Command::from_str(&b"tp bob".to_vec()).unwrap() {
        Command::Tp(name) => assert_eq!(name, b"bob".to_vec()),
    }
}

#[test]
fn tp_without_argument_is_refused() {
    assert!(matches!(
        Command::from_str(&b"tp".to_vec()),
        Err(CommandError::NotEnoughArguments)
    ));
}

#[test]
fn tp_with_two_arguments_is_refused() {
    assert!(matches!(
        Command::from_str(&b"tp a b".to_vec()),
        Err(CommandError::TooManyArguments)
    ));
}

#[test]
fn unknown_command_is_refused() {
    assert!(matches!(
        Command::from_str(&b"fly".to_vec()),
        Err(CommandError::CommandNotKnown)
    ));
}

#[test]
fn empty_command_is_refused() {
    assert!(matches!(
        Command::from_str(&b"".to_vec()),
        Err(CommandError::NoCommand)
    ));
    assert!(matches!(
        Command::from_str(&b" tp bob".to_vec()),
        Err(CommandError::NoCommand)
    ));
}

#[test]
fn trim_strips_padding() {
    assert_eq!(trim_spaces(&b"  hi there  ".to_vec()), b"hi there".to_vec());
    assert_eq!(trim_spaces(&b"     ".to_vec()), Vec::<u8>::new());
    assert_eq!(trim_spaces(&b"x".to_vec()), b"x".to_vec());
    let mut padded = b"alice".to_vec();
    padded.resize(64, 0x20);
    assert_eq!(trim_spaces(&padded), b"alice".to_vec());
}
