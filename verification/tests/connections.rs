use database_ide::connections::{ConnectionEnvironment, ConnectionInput};
use database_ide::text::is_blank;
use database_ide::AppError;

fn input() -> ConnectionInput {
    ConnectionInput {
        name: "Local".into(),
        host: "localhost".into(),
        port: 5432,
        database: "app".into(),
        username: "dev".into(),
        password: "secret".into(),
        environment: ConnectionEnvironment::Local,
        read_only: false,
    }
}

#[test]
fn valid_input_passes_both_checks() {
    assert!(input().validate().is_ok());
    assert!(input().validate_for_create().is_ok());
}

#[test]
fn each_field_check_reports_its_error() {
    let mut i = input();
    i.name = "   ".into();
    assert!(matches!(i.validate(), Err(AppError::EmptyName)));
    let mut i = input();
    i.host = "".into();
    assert!(matches!(i.validate(), Err(AppError::EmptyHost)));
    let mut i = input();
    i.database = "\n".into();
    assert!(matches!(i.validate(), Err(AppError::EmptyDatabase)));
    let mut i = input();
    i.username = "\u{3000}\u{a0}".into();
    assert!(matches!(i.validate(), Err(AppError::EmptyUsername)));
    let mut i = input();
    i.port = 0;
    assert!(matches!(i.validate(), Err(AppError::InvalidPort)));
    let mut i = input();
    i.password = "".into();
    assert!(i.validate().is_ok());
    assert!(matches!(i.validate_for_create(), Err(AppError::EmptyPassword)));
}

#[test]
fn first_failing_check_wins() {
    let mut i = input();
    i.name = "".into();
    i.host = "".into();
    i.port = 0;
    i.password = "".into();
    assert!(matches!(i.validate(), Err(AppError::EmptyName)));
    assert!(matches!(i.validate_for_create(), Err(AppError::EmptyName)));
    let mut i = input();
    i.database = "".into();
    i.username = "".into();
    assert!(matches!(i.validate(), Err(AppError::EmptyDatabase)));
}

#[test]
fn whitespace_only_password_is_accepted_for_create() {
    let mut i = input();
    i.password = " ".into();
    assert!(i.validate_for_create().is_ok());
}

#[test]
fn surrounding_whitespace_is_not_blank() {
    let mut i = input();
    i.name = "  prod  ".into();
    assert!(i.validate().is_ok());
}

#[test]
fn is_blank_agrees_with_trim() {
    let samples = [
        "", " ", "\t\n\r", "\u{b}\u{c}", "\u{85}", "\u{1680}", "\u{2000}\u{200a}", "\u{2028}\u{2029}",
        "\u{202f}\u{205f}\u{3000}", "\u{200b}", "a", " a ", "\u{180e}", "\u{feff}", "x\u{3000}",
    ];
    for s in samples {
        assert_eq!(is_blank(s), s.trim().is_empty(), "{s:?}");
    }
}

#[test]
fn accepted_for_create_implies_valid() {
    for password in ["", "x"] {
        for name in ["", "n"] {
            let mut i = input();
            i.password = password.into();
            i.name = name.into();
            if i.validate_for_create().is_ok() {
                assert!(i.validate().is_ok());
            }
        }
    }
}
