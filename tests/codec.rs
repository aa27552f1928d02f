use autograder::codec::chars_of;
use autograder::decimal::{decimal, parse_u64};
use autograder::model::{SimpleTestResponse, TestResponseFromStrError};
use autograder::sandbox::{CaseResult, CaseResultKind, TestResponse};

fn case(kind: CaseResultKind, memory_usage: u64, time: u64) -> CaseResult {
    CaseResult { kind, memory_usage, time }
}

#[test]
fn scenario_single_correct_case() {
    let r = TestResponse::Completed(vec![case(CaseResultKind::Correct, 120, 15)]);
    assert_eq!(r.repr(), "oc,120,15;");
    assert_eq!(TestResponse::from_str("oc,120,15;").unwrap(), r);
}

#[test]
fn scenario_correct_then_wrong() {
    let r = TestResponse::Completed(vec![
        case(CaseResultKind::Correct, 120, 15),
        case(CaseResultKind::Wrong, 130, 20),
    ]);
    assert_eq!(r.repr(), "ec,120,15;w,130,20;");
    assert_eq!(TestResponse::from_str("ec,120,15;w,130,20;").unwrap(), r);
}

#[test]
fn scenario_invalid_program() {
    let r = TestResponse::InvalidProgram("division by zero".to_string());
    assert_eq!(r.repr(), "idivision by zero");
    assert_eq!(TestResponse::from_str("idivision by zero").unwrap(), r);
}

#[test]
fn round_trip_no_cases() {
    let r = TestResponse::Completed(vec![]);
    assert_eq!(r.repr(), "o");
    assert_eq!(TestResponse::from_str(&r.repr()).unwrap(), r);
}

#[test]
fn round_trip_every_kind() {
    let r = TestResponse::Completed(vec![
        case(CaseResultKind::Correct, 0, 0),
        case(CaseResultKind::Wrong, 1, 2),
        case(CaseResultKind::RuntimeError, 3, 4),
        case(CaseResultKind::TimeLimitExceeded, 5, 6000),
        case(CaseResultKind::MemoryLimitExceeded, u64::MAX, u64::MAX),
    ]);
    let text = r.repr();
    assert_eq!(
        text,
        "ec,0,0;w,1,2;r,3,4;t,5,6000;m,18446744073709551615,18446744073709551615;"
    );
    assert_eq!(TestResponse::from_str(&text).unwrap(), r);
}

#[test]
fn round_trip_reasons() {
    for reason in ["", "line one\nline two\n", "error: ;,o\u{e9}\u{1F600}"] {
        let r = TestResponse::InvalidProgram(reason.to_string());
        let text = r.repr();
        assert_eq!(text, format!("i{reason}"));
        assert_eq!(TestResponse::from_str(&text).unwrap(), r);
    }
}

#[test]
fn tag_is_o_only_when_all_correct() {
    let all = TestResponse::Completed(vec![
        case(CaseResultKind::Correct, 1, 1),
        case(CaseResultKind::Correct, 2, 2),
    ]);
    assert!(all.repr().starts_with('o'));
    for kind in [
        CaseResultKind::Wrong,
        CaseResultKind::RuntimeError,
        CaseResultKind::TimeLimitExceeded,
        CaseResultKind::MemoryLimitExceeded,
    ] {
        let r = TestResponse::Completed(vec![case(CaseResultKind::Correct, 1, 1), case(kind, 2, 2)]);
        assert!(r.repr().starts_with('e'));
    }
}

#[test]
fn simple_decode_agrees_with_full_decode() {
    let cases = [
        (TestResponse::Completed(vec![case(CaseResultKind::Correct, 1, 1)]), SimpleTestResponse::Correct),
        (TestResponse::Completed(vec![]), SimpleTestResponse::Correct),
        (TestResponse::Completed(vec![case(CaseResultKind::Wrong, 1, 1)]), SimpleTestResponse::Wrong),
        (TestResponse::InvalidProgram("x".to_string()), SimpleTestResponse::InvalidProgram),
    ];
    for (r, simple) in cases {
        assert_eq!(SimpleTestResponse::from_str(&r.repr()).unwrap(), simple);
    }
}

#[test]
fn simple_decode_rejects_unknown_tag() {
    assert_eq!(
        SimpleTestResponse::from_str("xc,1,1;"),
        Err(TestResponseFromStrError("xc,1,1;".to_string()))
    );
    assert!(SimpleTestResponse::from_str("").is_err());
}

#[test]
fn simple_response_labels() {
    assert_eq!(SimpleTestResponse::Correct.as_str(), "Correct");
    assert_eq!(SimpleTestResponse::Wrong.as_str(), "Wrong");
    assert_eq!(SimpleTestResponse::InvalidProgram.as_str(), "Invalid program");
}

#[test]
fn decode_rejects_malformed_text() {
    for text in [
        "",
        "x",
        "Oc,1,1;",
        "oc,1;",
        "oc;",
        "o;",
        "oc,1,1;;",
        "oc,a,1;",
        "oc,1,b;",
        "oc,1,;",
        "oc,,1;",
        "oc,-1,1;",
        "oc,1,1,1;",
        "ox,1,1;",
        "occ,1,1;",
        "o,1,1;",
        "oc,18446744073709551616,1;",
    ] {
        assert_eq!(
            TestResponse::from_str(text),
            Err(TestResponseFromStrError(text.to_string())),
            "{text:?}"
        );
    }
}

#[test]
fn decode_accepts_last_record_without_terminator() {
    assert_eq!(
        TestResponse::from_str("ec,1,2;w,3,4").unwrap(),
        TestResponse::Completed(vec![case(CaseResultKind::Correct, 1, 2), case(CaseResultKind::Wrong, 3, 4)])
    );
}

#[test]
fn decode_takes_tag_as_given() {
    assert_eq!(
        TestResponse::from_str("ew,1,2;").unwrap(),
        TestResponse::Completed(vec![case(CaseResultKind::Wrong, 1, 2)])
    );
    assert_eq!(
        TestResponse::from_str("ow,1,2;").unwrap(),
        TestResponse::Completed(vec![case(CaseResultKind::Wrong, 1, 2)])
    );
}

#[test]
fn numbers_may_carry_a_plus_sign() {
    assert_eq!(
        TestResponse::from_str("oc,+7,08;").unwrap(),
        TestResponse::Completed(vec![case(CaseResultKind::Correct, 7, 8)])
    );
}

#[test]
fn decimal_forms() {
    assert_eq!(decimal(0), "0");
    assert_eq!(decimal(7), "7");
    assert_eq!(decimal(1200), "1200");
    assert_eq!(decimal(u64::MAX), "18446744073709551615");
}

#[test]
fn parse_u64_reads_a_range() {
    let v = chars_of("x+42,007,18446744073709551615,18446744073709551616,,+");
    assert_eq!(parse_u64(&v, 1, 4), Some(42));
    assert_eq!(parse_u64(&v, 5, 8), Some(7));
    assert_eq!(parse_u64(&v, 9, 29), Some(u64::MAX));
    assert_eq!(parse_u64(&v, 30, 50), None);
    assert_eq!(parse_u64(&v, 51, 51), None);
    assert_eq!(parse_u64(&v, 52, 53), None);
    assert_eq!(parse_u64(&v, 0, 4), None);
}

#[test]
fn chars_of_keeps_every_character() {
    assert_eq!(chars_of("a\u{e9}\u{1F600}"), vec!['a', '\u{e9}', '\u{1F600}']);
    assert_eq!(chars_of(""), Vec::<char>::new());
}

#[test]
fn decoding_from_owned_strings() {
    assert_eq!(
        TestResponse::try_from("ew,5,6;".to_string()).unwrap(),
        TestResponse::Completed(vec![case(CaseResultKind::Wrong, 5, 6)])
    );
    assert_eq!(SimpleTestResponse::try_from("ew,5,6;".to_string()), Ok(SimpleTestResponse::Wrong));
    assert_eq!(
        SimpleTestResponse::try_from("q".to_string()),
        Err(TestResponseFromStrError("q".to_string()))
    );
    assert!(TestResponse::try_from("oc,1;".to_string()).is_err());
}
