use pingpong::http::{route, same_text, Reply};

#[test]
fn routes() {
    assert_eq!(route("/", false), Reply::Text);
    assert_eq!(route("/", true), Reply::Text);
    assert_eq!(route("/close", true), Reply::Close);
    assert_eq!(route("/close", false), Reply::BadRequest);
    assert_eq!(route("/error", false), Reply::NotFound);
    assert_eq!(route("", true), Reply::NotFound);
    assert_eq!(route("/closed", true), Reply::NotFound);
}

#[test]
fn same_text_compares_characters() {
    assert!(same_text("abc", "abc"));
    assert!(!same_text("abc", "abd"));
    assert!(!same_text("ab", "abc"));
    assert!(same_text("", ""));
}
