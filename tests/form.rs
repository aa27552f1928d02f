use autograder::form::{normalize_lines, optional_textarea, textarea, Problem};

#[test]
fn text_areas_are_normalized() {
    assert_eq!(textarea("  a\r\nb  "), "a\nb\n");
    assert_eq!(textarea("a\n"), "a\n");
    assert_eq!(textarea(" \t\n "), "");
    assert_eq!(textarea("x\r\r\ny"), "x\r\ny\n");
    assert_eq!(normalize_lines("  a\r\n"), "  a\n");
    assert_eq!(normalize_lines(""), "");
    assert_eq!(textarea("\u{3000}\u{a0}a b\u{85}\u{2029}"), "a b\n");
    assert_eq!(textarea("\u{200b}a"), "\u{200b}a\n");
}

#[test]
fn empty_optional_text_area_is_none() {
    assert_eq!(optional_textarea("   "), None);
    assert_eq!(optional_textarea(" print(1) "), Some("print(1)\n".to_string()));
}

#[test]
fn problem_form_fields() {
    let p = Problem::from_form("Sum".to_string(), "Add two numbers.\r\n", 1000, true, "1 2\r\n--\r\n3", "  ");
    assert_eq!(p.description, "Add two numbers.\n");
    assert_eq!(p.tests, "1 2\n--\n3\n");
    assert_eq!(p.custom_judger, None);
    assert_eq!(p.time_limit, 1000);
    assert!(p.visible);
}
