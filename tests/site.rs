use autograder::auth::{Token, User};
use autograder::config::Smtp;
use autograder::error::constraint_message;
use autograder::model::PermissionLevel;
use autograder::password::hash;
use autograder::return_to::{add_to_path, encode_query, ReturnTo};
use autograder::routes::problems::{self, ProblemPermissionLevel};
use autograder::routes::submissions::{self, SubmissionPermissionLevel};
use autograder::routes::users::{self, UserEditPermissionLevel};
use autograder::template::BannerKind;
use autograder::time::{days, format_utc, hours, minutes, now, CivilTime, Timestamp};

fn user(id: i64, permission_level: PermissionLevel) -> User {
    User { id, display_name: format!("user {id}"), permission_level }
}

#[test]
fn query_values_are_escaped() {
    assert_eq!(encode_query(b"plain text-_.~"), "plain text-_.~");
    assert_eq!(encode_query(b";/?@&=+$,"), "%3B%2F%3F%40%26%3D%2B%24%2C");
    assert_eq!(encode_query(&[0x00, 0x1f, 0x7f, 0x80, 0xff]), "%00%1F%7F%80%FF");
    assert_eq!(add_to_path("/log-in", "/problem/3?tab=1"), "/log-in?returnto=%2Fproblem%2F3%3Ftab%3D1");
    assert_eq!(add_to_path("/log-in", "/caf\u{e9}"), "/log-in?returnto=%2Fcaf%C3%A9");
}

#[test]
fn return_to_paths() {
    let none = ReturnTo { return_to: None };
    assert_eq!(none.path(), "/");
    assert_eq!(none.add_to_path("/log-in"), "/log-in");
    let some = ReturnTo { return_to: Some("/users".to_string()) };
    assert_eq!(some.path(), "/users");
    assert_eq!(some.add_to_path("/register"), "/register?returnto=%2Fusers");
}

#[test]
fn submission_permissions() {
    let admin = user(1, PermissionLevel::Admin);
    let author = user(2, PermissionLevel::ProblemAuthor);
    let plain = user(3, PermissionLevel::User);
    assert_eq!(submissions::permission_level(None, 3, Some(2)), SubmissionPermissionLevel::NoAccess);
    assert_eq!(submissions::permission_level(Some(&admin), 3, Some(2)), SubmissionPermissionLevel::Edit);
    assert_eq!(submissions::permission_level(Some(&plain), 3, Some(2)), SubmissionPermissionLevel::Edit);
    assert_eq!(submissions::permission_level(Some(&author), 3, Some(2)), SubmissionPermissionLevel::View);
    assert_eq!(submissions::permission_level(Some(&author), 3, None), SubmissionPermissionLevel::NoAccess);
    let demoted = user(2, PermissionLevel::User);
    assert_eq!(submissions::permission_level(Some(&demoted), 3, Some(2)), SubmissionPermissionLevel::NoAccess);
    assert!(SubmissionPermissionLevel::View.can_view());
    assert!(!SubmissionPermissionLevel::View.can_edit());
    assert!(SubmissionPermissionLevel::Edit.can_edit());
    assert!(!SubmissionPermissionLevel::NoAccess.can_view());
}

#[test]
fn user_and_problem_permissions() {
    let admin = user(1, PermissionLevel::Admin);
    let author = user(2, PermissionLevel::ProblemAuthor);
    let plain = user(3, PermissionLevel::User);
    assert_eq!(users::permission_level(Some(&admin), 3), UserEditPermissionLevel::Admin);
    assert_eq!(users::permission_level(Some(&plain), 3), UserEditPermissionLevel::Edit);
    assert_eq!(users::permission_level(Some(&plain), 4), UserEditPermissionLevel::NoAccess);
    assert_eq!(users::permission_level(None, 4), UserEditPermissionLevel::NoAccess);
    assert_eq!(problems::permission_level(Some(&admin), Some(2), false), ProblemPermissionLevel::Edit);
    assert_eq!(problems::permission_level(Some(&author), Some(2), false), ProblemPermissionLevel::Edit);
    assert_eq!(problems::permission_level(Some(&author), Some(5), true), ProblemPermissionLevel::View);
    assert_eq!(problems::permission_level(Some(&plain), Some(3), false), ProblemPermissionLevel::NoAccess);
    assert_eq!(problems::permission_level(None, None, true), ProblemPermissionLevel::View);
}

#[test]
fn constraint_messages() {
    assert_eq!(constraint_message("users_username_unique"), Some("That username is already taken."));
    assert_eq!(constraint_message("problems_name"), Some("Problem name can only contain printable characters."));
    assert_eq!(constraint_message("problems_name_not_empty"), Some("Problem name cannot be empty."));
    assert_eq!(constraint_message("users"), None);
    assert_eq!(constraint_message(""), None);
}

#[test]
fn smtp_tls_default_by_port() {
    let mut smtp = Smtp {
        host: "mail".to_string(),
        port: 465,
        username: String::new(),
        password: String::new(),
        implicit_tls: None,
    };
    assert!(smtp.implicit_tls());
    smtp.port = 587;
    assert!(!smtp.implicit_tls());
    smtp.port = 2525;
    assert!(!smtp.implicit_tls());
    smtp.implicit_tls = Some(true);
    assert!(smtp.implicit_tls());
}

#[test]
fn banner_names() {
    assert_eq!(BannerKind::Info.as_str(), "info");
    assert_eq!(BannerKind::Error.name(), "Error");
}

#[test]
fn timestamps() {
    let t = Timestamp::from_seconds(1000);
    assert_eq!(t.plus(minutes(2)).repr(), 1120);
    assert_eq!(t.minus(10).repr(), 990);
    assert_eq!(t.plus(5).since(t), 5);
    assert!(t.is_before(t.plus(1)));
    assert!(!t.is_before(t));
    assert_eq!(hours(2), 7200);
    assert_eq!(days(1), 86400);
    assert_eq!(Timestamp::from_clock(None).repr(), 0);
    assert_eq!(Timestamp::from_clock(Some(u64::MAX)).repr(), i64::MAX);
    assert_eq!(Timestamp::from_clock(Some(42)).repr(), 42);
    assert!(now().repr() > 1_600_000_000);
    assert!(t.is_in_past());
    assert!(!Timestamp::from_seconds(i64::MAX).is_in_past());
}

#[test]
fn tokens_in_hexadecimal() {
    let text = "00ff10Ab".repeat(8);
    let token = Token::from_str(&text).unwrap();
    assert_eq!(token.0[..4], [0x00, 0xff, 0x10, 0xab]);
    assert_eq!(token.encode(), text.to_lowercase());
    assert!(Token::from_str("00ff").is_err());
    assert!(Token::from_str(&"zz".repeat(32)).is_err());
    assert!(Token::from_str(&"0".repeat(63)).is_err());
    let a = Token::generate().unwrap();
    let b = Token::generate().unwrap();
    assert_ne!(a.0, b.0);
    assert_eq!(Token::from_str(&a.encode()).unwrap().0, a.0);
}

#[test]
fn password_hashes() {
    let h = hash("hunter2").unwrap();
    assert!(h.0.starts_with("$2b$12$"));
    assert_eq!(h.verify("hunter2"), Some(true));
    assert_eq!(h.verify("hunter3"), Some(false));
    let broken = autograder::password::Hash("not a hash".to_string());
    assert_eq!(broken.verify("x"), None);
}

#[test]
fn utc_text_of_timestamps() {
    assert_eq!(Timestamp::from_seconds(0).to_utc_string(), Some("1970-01-01 00:00:00 UTC".to_string()));
    assert_eq!(
        Timestamp::from_seconds(1_700_000_000).to_utc_string(),
        Some("2023-11-14 22:13:20 UTC".to_string())
    );
    assert_eq!(Timestamp::from_seconds(-1).to_utc_string(), Some("1969-12-31 23:59:59 UTC".to_string()));
    assert_eq!(Timestamp::from_seconds(i64::MAX).to_utc_string(), None);
}

#[test]
fn utc_text_padding() {
    let c = CivilTime { year: 987, month: 3, day: 5, hour: 7, minute: 8, second: 9 };
    assert_eq!(format_utc(c), "0987-03-05 07:08:09 UTC");
    let c = CivilTime { year: -1, month: 12, day: 31, hour: 23, minute: 59, second: 59 };
    assert_eq!(format_utc(c), "-001-12-31 23:59:59 UTC");
    let c = CivilTime { year: 12345, month: 1, day: 1, hour: 0, minute: 0, second: 0 };
    assert_eq!(format_utc(c), "12345-01-01 00:00:00 UTC");
}
