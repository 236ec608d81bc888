use portier_broker::pages::version_text;

#[test]
fn version_text_names_the_commit() {
    assert_eq!(version_text("0.3.0", Some("abc123".to_string())), "Portier 0.3.0 (git commit abc123)");
    assert_eq!(version_text("0.3.0", None), "Portier 0.3.0 (git commit unknown)");
}
