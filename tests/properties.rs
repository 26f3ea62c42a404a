use nanostr::{NanoStr, OversizedError};

#[test]
fn new_keeps_two_emoji() {
    let s = "👋🌍";
    assert_eq!(s.len(), 8);
    let ns = NanoStr::new(s).unwrap();
    assert_eq!(ns.as_str(), s);
}

#[test]
fn new_truncated_refuses_six_emoji() {
    let s = "👋🌍👋👋🌍🌍";
    assert_eq!(s.len(), 24);
    let e = NanoStr::new_truncated(s).unwrap_err();
    assert_eq!(e.length(), 24);
}

#[test]
fn new_refuses_twenty_four_bytes() {
    let s = "x".repeat(24);
    let e = NanoStr::new(&s).unwrap_err();
    assert_eq!(e.length(), 24);
}

#[test]
fn new_accepts_exactly_capacity() {
    let s = "abcdefghijklmnopqrstuvw";
    assert_eq!(s.len(), 23);
    let ns = NanoStr::new(s).unwrap();
    assert_eq!(ns.as_str(), s);
    assert_eq!(ns.as_str().len(), 23);
}

#[test]
fn new_accepts_empty_text() {
    let ns = NanoStr::new("").unwrap();
    assert_eq!(ns.as_str(), "");
    assert_eq!(ns.to_string(), "");
}

#[test]
fn new_reports_wrapped_length() {
    let s = "y".repeat(300);
    let e = NanoStr::new(&s).unwrap_err();
    assert_eq!(e.length(), 44);
}

#[test]
fn new_refuses_long_multibyte_text() {
    let s = "é".repeat(12);
    assert_eq!(s.len(), 24);
    assert!(NanoStr::new(&s).is_err());
}

#[test]
fn new_truncated_refuses_long_multibyte_text() {
    let s = "aaaaaaaaaaaaaaaaaaaaaaé";
    assert_eq!(s.len(), 24);
    let e = NanoStr::new_truncated(s).unwrap_err();
    assert_eq!(e.length(), 24);
}

#[test]
fn new_truncated_cuts_ascii_to_capacity() {
    let s = "Hello World !!!!!!!!!!!!!!!!!!!!!!!!!!!!!";
    let ns = NanoStr::new_truncated(s).unwrap();
    assert_eq!(ns.as_str(), &s[..23]);
    assert_eq!(ns.as_str().len(), 23);
    assert_ne!(ns.as_str(), s);
}

#[test]
fn new_truncated_cuts_twenty_four_ascii_bytes() {
    let s = "x".repeat(24);
    let ns = NanoStr::new_truncated(&s).unwrap();
    assert_eq!(ns.as_str(), "x".repeat(23));
}

#[test]
fn new_truncated_matches_new_on_short_multibyte_text() {
    let s = "héllo wörld 👋";
    assert!(s.len() <= 23);
    let t = NanoStr::new_truncated(s).unwrap();
    let n = NanoStr::new(s).unwrap();
    assert_eq!(t, n);
    assert_eq!(t.as_str(), s);
}

#[test]
fn new_truncated_matches_new_on_short_ascii_text() {
    let s = "short";
    assert_eq!(NanoStr::new_truncated(s).unwrap(), NanoStr::new(s).unwrap());
}

#[test]
fn new_unchecked_matches_new_on_short_text() {
    let s = "👋 tag";
    assert_eq!(NanoStr::new_unchecked(s), NanoStr::new(s).unwrap());
    assert_eq!(NanoStr::new_unchecked(""), NanoStr::new("").unwrap());
}

#[test]
fn new_unchecked_cuts_long_ascii_text() {
    let s = "abcdefghijklmnopqrstuvwxyz";
    let ns = NanoStr::new_unchecked(s);
    assert_eq!(ns.as_str(), "abcdefghijklmnopqrstuvw");
}

#[test]
fn display_round_trips_bytes() {
    let s = "ünïcödé ✓";
    let ns = NanoStr::new(s).unwrap();
    let shown = ns.to_string();
    assert_eq!(shown.as_bytes(), s.as_bytes());
    assert_eq!(String::from_utf8(shown.into_bytes()).unwrap(), s);
}

#[test]
fn display_round_trips_truncated_bytes() {
    let s = "The quick brown fox jumps over the lazy dog";
    let ns = NanoStr::new_truncated(s).unwrap();
    assert_eq!(ns.to_string().as_bytes(), &s.as_bytes()[..23]);
}

#[test]
fn copies_are_independent_and_equal() {
    let a = NanoStr::new("label").unwrap();
    let b = a;
    assert_eq!(a, b);
    assert_eq!(b.as_str(), "label");
}

#[test]
fn error_message_names_length() {
    let e = NanoStr::new(&"z".repeat(24)).unwrap_err();
    assert_eq!(
        e.to_string(),
        "Oversized text, length should be < 23 (got: 24)"
    );
}

#[test]
fn error_message_with_one_digit_length() {
    let e: OversizedError = NanoStr::new(&"q".repeat(261)).unwrap_err();
    assert_eq!(e.length(), 5);
    assert_eq!(e.to_string(), "Oversized text, length should be < 23 (got: 5)");
}
