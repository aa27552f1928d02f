use autograder::model::{all_languages, parse_tests, Language, PermissionLevel, Tests, TestsFromStrError};

#[test]
fn language_numbers_and_names() {
    let all = all_languages();
    assert_eq!(all.len(), 5);
    for (i, l) in all.iter().enumerate() {
        assert_eq!(l.repr(), i as i64);
        assert_eq!(Language::from_repr(i as i64), Some(*l));
    }
    assert_eq!(Language::from_repr(5), None);
    assert_eq!(Language::from_repr(-1), None);
    assert_eq!(Language::Python3.name(), "Python 3");
    assert_eq!(Language::Cpp.name(), "C++");
    assert_eq!(Language::Rust.name(), "Rust");
}

#[test]
fn permission_levels() {
    assert_eq!(PermissionLevel::default(), PermissionLevel::User);
    assert_eq!(PermissionLevel::ProblemAuthor.repr(), 10);
    assert_eq!(PermissionLevel::from_repr(20), Some(PermissionLevel::Admin));
    assert_eq!(PermissionLevel::from_repr(5), None);
    assert_eq!(PermissionLevel::ProblemAuthor.name(), "Problem author");
    assert!(PermissionLevel::Admin.at_least(PermissionLevel::ProblemAuthor));
    assert!(!PermissionLevel::User.at_least(PermissionLevel::ProblemAuthor));
}

#[test]
fn tests_are_split_into_cases() {
    let raw = "1 2\n--\n3\n===\n4 5\n--\n9";
    let tests = Tests::try_from(raw.to_string()).unwrap();
    assert_eq!(
        tests.cases(),
        vec![("1 2".to_string(), "3".to_string()), ("4 5".to_string(), "9".to_string())]
    );
    assert_eq!(tests.repr(), raw);
}

#[test]
fn case_without_separator_is_reported_by_index() {
    assert_eq!(Tests::validate("a\n--\nb\n===\nc"), Err(TestsFromStrError::InvalidTest { index: 1 }));
    assert_eq!(Tests::validate("a\n===\nb\n--\nc"), Err(TestsFromStrError::InvalidTest { index: 0 }));
    assert_eq!(Tests::validate(""), Err(TestsFromStrError::InvalidTest { index: 0 }));
    assert_eq!(Tests::validate("a\n--\nb"), Ok(()));
    assert!(Tests::try_from("x".to_string()).is_err());
}

#[test]
fn parse_tests_keeps_empty_parts() {
    assert_eq!(
        parse_tests("\n--\n\n===\nx"),
        vec![Some((String::new(), String::new())), None]
    );
    assert_eq!(
        parse_tests("a\n--\nb\n--\nc"),
        vec![Some(("a".to_string(), "b\n--\nc".to_string()))]
    );
}
