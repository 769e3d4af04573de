use notes_reminder::bot::{reply_for, Reply};
use notes_reminder::settings::{env_assignments, parse_signed, parse_unsigned, Settings, SettingsError};

fn some(s: &str) -> Option<String> {
    Some(s.to_string())
}

#[test]
fn settings_from_complete_variables() {
    let st = Settings::from_vars(
        some("postgres://db"),
        some("30"),
        some("SECRET-REDACTED"),
        some("http://tracker/"),
        None,
        some("-42"),
    )
    .unwrap();
    assert_eq!(st.db_uri, "postgres://db");
    assert_eq!(st.db_timeout, 30);
    assert_eq!(st.bot_token, "SECRET-REDACTED");
    assert_eq!(st.tracker_url, "http://tracker");
    assert_eq!(st.tracker_web_url, "http://tracker");
    assert_eq!(st.chat_id, -42);
}

#[test]
fn settings_defaults_and_web_address() {
    let st = Settings::from_vars(some("db"), None, some("t"), some("http://a"), some("http://web//"), some("7"))
        .unwrap();
    assert_eq!(st.db_timeout, 10);
    assert_eq!(st.tracker_url, "http://a");
    assert_eq!(st.tracker_web_url, "http://web/");
}

#[test]
fn settings_errors_in_reading_order() {
    let err = |r: Result<Settings, SettingsError>| r.err().unwrap();
    assert_eq!(err(Settings::from_vars(None, some("x"), None, None, None, None)), SettingsError::DatabaseUrlMissing);
    assert_eq!(err(Settings::from_vars(some("db"), some("ten"), None, None, None, None)), SettingsError::TimeoutNotInteger);
    assert_eq!(err(Settings::from_vars(some("db"), None, None, None, None, None)), SettingsError::BotTokenMissing);
    assert_eq!(err(Settings::from_vars(some("db"), None, some("t"), None, None, None)), SettingsError::TrackerUrlMissing);
    assert_eq!(err(Settings::from_vars(some("db"), None, some("t"), some("u"), None, None)), SettingsError::UserIdMissing);
    assert_eq!(err(Settings::from_vars(some("db"), None, some("t"), some("u"), None, some("1x"))), SettingsError::UserIdNotInteger);
    assert_eq!(SettingsError::UserIdNotInteger.message(), "User id should be int");
    assert_eq!(SettingsError::DatabaseUrlMissing.message(), "DATABASE_URL not found");
}

#[test]
fn numbers_parse_as_std_does() {
    for s in ["0", "+5", "18446744073709551615", "18446744073709551616", "", "+", "-1", " 1", "12a"] {
        assert_eq!(parse_unsigned(s), s.parse::<u64>().ok(), "{:?}", s);
    }
    for s in ["0", "-5", "+5", "9223372036854775807", "9223372036854775808", "-9223372036854775808", "-9223372036854775809", "-", "", "--1"] {
        assert_eq!(parse_signed(s), s.parse::<i64>().ok(), "{:?}", s);
    }
}

#[test]
fn env_file_lines() {
    let pairs = env_assignments("A = 1\n\nB=two words \r\nC=\n").unwrap();
    assert_eq!(
        pairs,
        vec![
            ("A".to_string(), "1".to_string()),
            ("B".to_string(), "two words".to_string()),
            ("C".to_string(), String::new()),
        ]
    );
    assert_eq!(env_assignments("X=a=b"), Some(vec![("X".to_string(), "a=b".to_string())]));
    assert_eq!(env_assignments(""), Some(vec![]));
    assert_eq!(env_assignments("A=1\nno equals\n"), None);
}

#[test]
fn replies_to_commands() {
    assert_eq!(reply_for(1, 2, Some("/start")), Reply::Ignore);
    assert_eq!(reply_for(2, 2, Some("/start")), Reply::Help);
    assert_eq!(reply_for(2, 2, Some("/remind")), Reply::Remind);
    assert_eq!(reply_for(2, 2, Some("/repeat")), Reply::Repeat);
    assert_eq!(reply_for(2, 2, Some("/other")), Reply::Unknown);
    assert_eq!(reply_for(2, 2, None), Reply::Unknown);
    assert_eq!(Reply::Help.message(), Some("/remind to remind the note"));
    assert_eq!(Reply::Unknown.message(), Some("Command not found"));
    assert_eq!(Reply::Remind.message(), None);
}
