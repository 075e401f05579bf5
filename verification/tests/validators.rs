use netchat::validators::validate_session_token;
use netchat::validators::validate_username;

#[test]
fn test_validate_username() {
    assert!(validate_username("testuser"));
    assert!(validate_username("testuser123"));
    assert!(validate_username("test-user"));
    assert!(validate_username("test_user"));
    assert!(validate_username("test.user"));
    assert!(validate_username("test-user123"));
    assert!(validate_username("test_user123"));
    assert!(validate_username("test.user123"));
    assert!(validate_username("test-user1234"));
    assert!(validate_username("test_user1234"));
    assert!(validate_username("test.user1234"));
    assert!(validate_username("test-user12345"));
    assert!(validate_username("test_user12345"));
    assert!(validate_username("test.user12345"));
    assert!(validate_username("test-user123456"));
    assert!(validate_username("test_user123456"));
    assert!(validate_username("test.user123456"));
    assert!(validate_username("test-user1234567"));
    assert!(validate_username("test_user1234567"));
    assert!(validate_username("test.user1234567"));
    assert!(validate_username("test-user12345678"));
    assert!(validate_username("test_user12345678"));
    assert!(validate_username("test.user12345678"));
    assert!(validate_username("test-user123456789"));
    assert!(validate_username("test_user123456789"));
    assert!(validate_username("test.user123456789"));
    assert!(!validate_username("test-user1234567890"));
    assert!(!validate_username("test_user1234567890"));
    assert!(!validate_username("test.user1234567890"));
    assert!(!validate_username("test-user12345678901"));
    assert!(!validate_username("test_user12345678901"));
}

#[test]
fn test_username_length_bounds() {
    assert!(!validate_username(""));
    assert!(!validate_username("ab"));
    assert!(validate_username("abc"));
    assert!(validate_username("abcdefghijklmnopqr"));
    assert!(!validate_username("abcdefghijklmnopqrs"));
}

#[test]
fn test_username_charset() {
    assert!(validate_username("A-b_c.9"));
    assert!(!validate_username("abc def"));
    assert!(!validate_username("abc:def"));
    assert!(!validate_username("abc!def"));
    assert!(!validate_username("abc@def"));
    assert!(!validate_username("ab\u{e9}d"));
}

#[test]
fn test_session_token_length() {
    let ok: String = "a".repeat(256);
    assert!(validate_session_token(&ok));
    let short: String = "a".repeat(255);
    assert!(!validate_session_token(&short));
    let long: String = "a".repeat(257);
    assert!(!validate_session_token(&long));
    assert!(!validate_session_token(""));
}

#[test]
fn test_session_token_charset() {
    let mut t: String = "A0b1C2d3".repeat(32);
    assert_eq!(t.len(), 256);
    assert!(validate_session_token(&t));
    t.pop();
    t.push('-');
    assert!(!validate_session_token(&t));
    let spaced = format!("{} {}", "a".repeat(127), "b".repeat(128));
    assert_eq!(spaced.len(), 256);
    assert!(!validate_session_token(&spaced));
}
