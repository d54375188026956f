use vertex_stage0::explain::explain;

#[test]
fn explain_e0308_returns_text() {
    let text = explain("E0308").expect("E0308 should be registered");
    assert!(!text.is_empty());
    assert!(text.contains("mismatched types"));
    assert!(text.contains("E0308"));

    let lower = explain("e0308").expect("lowercase should also work");
    assert_eq!(text, lower);
}

#[test]
fn explain_unknown_returns_none() {
    assert!(explain("E9999").is_none());
}
