//! The generation-side pieces on their own: name extraction from provider
//! output, outcome classification, and the prompt strings.

use breadbot::gen::{
    build_prompt, classify_outcome, extract_name, is_rename_command, stop_sequence, str_eq,
    system_prompt, GenError, GenOutcome,
};

#[test]
fn extracts_name_after_first_bracket() {
    let r = extract_name("Some filler [Breadix]").unwrap();
    assert_eq!(r, "Breadix");
}

#[test]
fn missing_bracket_is_a_parse_error() {
    let r = extract_name("no bracket here");
    assert!(matches!(r, Err(GenError::Parse)));
}

#[test]
fn stop_sequence_usually_leaves_no_closing_bracket() {
    // With the stop string in effect the provider output ends before `]`.
    let r = extract_name("assistant: [AlbyDough").unwrap();
    assert_eq!(r, "AlbyDough");
}

#[test]
fn empty_name_between_brackets() {
    let r = extract_name("[]").unwrap();
    assert_eq!(r, "");
}

#[test]
fn empty_output_is_a_parse_error() {
    assert!(matches!(extract_name(""), Err(GenError::Parse)));
}

#[test]
fn everything_after_the_first_bracket_is_kept() {
    // Only `]` cuts the name; a second `[` is part of it.
    let r = extract_name("a[b[c").unwrap();
    assert_eq!(r, "b[c");
}

#[test]
fn classification_of_each_outcome() {
    let ok = classify_outcome(GenOutcome::Content("[Crumb]".to_string()));
    assert_eq!(ok.unwrap(), "Crumb");
    let parse = classify_outcome(GenOutcome::Content("Crumb".to_string()));
    assert!(matches!(parse, Err(GenError::Parse)));
    let empty = classify_outcome(GenOutcome::NoChoice);
    assert!(matches!(empty, Err(GenError::EmptyCompletion)));
    let provider = classify_outcome(GenOutcome::Failure);
    assert!(matches!(provider, Err(GenError::Provider)));
}

#[test]
fn prompt_wraps_the_member_name() {
    assert_eq!(
        build_prompt("Bradix"),
        "Rewrite the name Bradix to be a bread related pun."
    );
}

#[test]
fn system_prompt_describes_the_format() {
    let p = system_prompt();
    assert!(p.contains("bread puns"));
    assert!(p.contains("[name_1]"));
}

#[test]
fn stop_string_is_the_closing_bracket() {
    assert_eq!(stop_sequence(), "]");
}

#[test]
fn string_equality_by_characters() {
    assert!(str_eq("abc", "abc"));
    assert!(!str_eq("abc", "abd"));
    assert!(!str_eq("abc", "abcd"));
    assert!(str_eq("", ""));
}

#[test]
fn command_dispatch_recognizes_rename() {
    assert!(is_rename_command("rename"));
    assert!(!is_rename_command("renam"));
    assert!(!is_rename_command("other"));
}
