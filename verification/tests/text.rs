use rest_gateway::text::{owned, push_decimal, same_text, strip_prefix};

#[test]
fn same_text_compares_characters() {
    assert!(same_text("show.ShowInterface", "show.ShowInterface"));
    assert!(!same_text("show.ShowInterface", "show.showinterface"));
    assert!(!same_text("job", "jobs"));
    assert!(same_text("", ""));
    assert!(same_text("höst", "höst"));
    assert!(!same_text("höst", "host"));
}

#[test]
fn strip_prefix_removes_a_leading_prefix_only() {
    assert_eq!(strip_prefix("Bearer abc.def", "Bearer "), Some("abc.def"));
    assert_eq!(strip_prefix("Bearer ", "Bearer "), Some(""));
    assert_eq!(strip_prefix("bearer abc", "Bearer "), None);
    assert_eq!(strip_prefix("Bear", "Bearer "), None);
    assert_eq!(strip_prefix("x Bearer abc", "Bearer "), None);
    assert_eq!(strip_prefix("é-rest", "é-"), Some("rest"));
}

#[test]
fn owned_copies_text() {
    assert_eq!(owned("error"), "error".to_string());
    assert_eq!(owned(""), String::new());
}

#[test]
fn push_decimal_writes_numerals() {
    let mut out = String::from("[");
    push_decimal(&mut out, 0);
    assert_eq!(out, "[0");
    let mut out = String::new();
    push_decimal(&mut out, 7);
    push_decimal(&mut out, 10);
    push_decimal(&mut out, 1234567890);
    assert_eq!(out, "7101234567890");
    let mut out = String::new();
    push_decimal(&mut out, usize::MAX);
    assert_eq!(out, usize::MAX.to_string());
}
