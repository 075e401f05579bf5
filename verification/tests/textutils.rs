use chrono::Utc;
use netchat::textutils::find_char;
use netchat::textutils::format_outgoing_message;
use netchat::textutils::i64_to_string;
use netchat::textutils::split_whitespace_tokens;
use netchat::textutils::str_equal;
use netchat::textutils::str_starts_with;
use netchat::textutils::trim;
use netchat::textutils::u64_to_string;

#[test]
fn test_format_outgoing_message() {
    let username = "testuser";
    let recipient = "global";
    let command_message = "Hello, world!";
    let timestamp = Utc::now().timestamp_millis();
    let formatted_message = format_outgoing_message(username, recipient, command_message, timestamp);
    assert_eq!(
        formatted_message,
        format!("{}:{}:{}:{}", timestamp, username, recipient, command_message)
    );
}

#[test]
fn test_format_outgoing_message_exact() {
    let m = format_outgoing_message("alice", "bob", "hi there", 1700000000);
    assert_eq!(m, "1700000000:alice:bob:hi there");
}

#[test]
fn test_format_outgoing_message_negative_timestamp() {
    let m = format_outgoing_message("a", "b", "c", -42);
    assert_eq!(m, "-42:a:b:c");
}

#[test]
fn test_u64_to_string() {
    assert_eq!(u64_to_string(0), "0");
    assert_eq!(u64_to_string(7), "7");
    assert_eq!(u64_to_string(10), "10");
    assert_eq!(u64_to_string(123456789), "123456789");
    assert_eq!(u64_to_string(u64::MAX), "18446744073709551615");
}

#[test]
fn test_i64_to_string() {
    assert_eq!(i64_to_string(0), "0");
    assert_eq!(i64_to_string(-1), "-1");
    assert_eq!(i64_to_string(1700000000), "1700000000");
    assert_eq!(i64_to_string(i64::MIN), "-9223372036854775808");
    assert_eq!(i64_to_string(i64::MAX), "9223372036854775807");
}

#[test]
fn test_trim() {
    assert_eq!(trim("  hello \r\n"), "hello");
    assert_eq!(trim("hello"), "hello");
    assert_eq!(trim(" \t\n\r "), "");
    assert_eq!(trim(""), "");
    assert_eq!(trim("a b"), "a b");
}

#[test]
fn test_str_starts_with() {
    assert!(str_starts_with("AUTH:alice:tok", "AUTH:"));
    assert!(!str_starts_with("AUT", "AUTH:"));
    assert!(!str_starts_with("auth:alice", "AUTH:"));
    assert!(str_starts_with("anything", ""));
}

#[test]
fn test_str_equal() {
    assert!(str_equal("abc", "abc"));
    assert!(!str_equal("abc", "abd"));
    assert!(!str_equal("abc", "abcd"));
    assert!(str_equal("", ""));
}

#[test]
fn test_find_char() {
    assert_eq!(find_char("ab:cd:e", ':'), Some(2));
    assert_eq!(find_char("abcde", ':'), None);
    assert_eq!(find_char(":x", ':'), Some(0));
}

#[test]
fn test_split_whitespace_tokens() {
    let toks = split_whitespace_tokens("!perf one  two");
    assert_eq!(toks, vec!["!perf", "one", "two"]);
    let toks = split_whitespace_tokens("  spaced \t out \n");
    assert_eq!(toks, vec!["spaced", "out"]);
    let toks = split_whitespace_tokens("   ");
    assert!(toks.is_empty());
    let toks = split_whitespace_tokens("single");
    assert_eq!(toks, vec!["single"]);
}
