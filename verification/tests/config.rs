use interlinked::config::{parse_log_level, str_eq_ignore_ascii_case, Config, ConfigError, ConfigOverrides, LogLevel};
use interlinked::urls::parse_url;

fn no_overrides() -> ConfigOverrides {
    ConfigOverrides { address: None, url: None, db_url: None, log_level: None, difficulty: None }
}

#[test]
fn default_settings() {
    let c = Config::default();
    assert_eq!(c.address, "127.0.0.1:8080");
    assert_eq!(c.url, "http://localhost:8080/");
    assert_eq!(c.db_url, "./interlinked.sqlite");
    assert_eq!(c.log_level, LogLevel::Info);
    assert_eq!(c.difficulty, 1);
}

#[test]
fn default_url_is_the_parsed_form_of_the_default_address() {
    match parse_url("http://localhost:8080") {
        Ok(u) => assert_eq!(u, Config::default().url),
        Err(_) => panic!("refused"),
    }
}

#[test]
fn no_overrides_keep_the_defaults() {
    let c = match Config::default().with_overrides(no_overrides()) {
        Ok(c) => c,
        Err(_) => panic!("refused"),
    };
    assert_eq!(c.url, "http://localhost:8080/");
    assert_eq!(c.difficulty, 1);
}

#[test]
fn overrides_replace_settings() {
    let o = ConfigOverrides {
        address: Some("0.0.0.0:3000".to_string()),
        url: Some("http://example.com".to_string()),
        db_url: Some("interlinked.db".to_string()),
        log_level: Some("debug".to_string()),
        difficulty: Some("3".to_string()),
    };
    let c = match Config::default().with_overrides(o) {
        Ok(c) => c,
        Err(_) => panic!("refused"),
    };
    assert_eq!(c.address, "0.0.0.0:3000");
    assert_eq!(c.url, "http://example.com/");
    assert_eq!(c.db_url, "interlinked.db");
    assert_eq!(c.log_level, LogLevel::Debug);
    assert_eq!(c.difficulty, 3);
}

#[test]
fn bad_url_is_refused_before_bad_difficulty() {
    let mut o = no_overrides();
    o.url = Some("not a url".to_string());
    o.difficulty = Some("x".to_string());
    assert!(matches!(Config::default().with_overrides(o), Err(ConfigError::InvalidUrl(_))));
}

#[test]
fn bad_difficulty_is_refused() {
    let mut o = no_overrides();
    o.difficulty = Some("-1".to_string());
    assert!(matches!(Config::default().with_overrides(o), Err(ConfigError::InvalidDifficulty)));
}

#[test]
fn bad_log_level_is_refused_after_url_before_difficulty() {
    let mut o = no_overrides();
    o.log_level = Some("loud".to_string());
    o.difficulty = Some("x".to_string());
    assert!(matches!(Config::default().with_overrides(o), Err(ConfigError::InvalidLogLevel)));
    let mut o = no_overrides();
    o.url = Some("not a url".to_string());
    o.log_level = Some("loud".to_string());
    assert!(matches!(Config::default().with_overrides(o), Err(ConfigError::InvalidUrl(_))));
}

fn as_tracing(l: LogLevel) -> tracing::Level {
    match l {
        LogLevel::Error => tracing::Level::ERROR,
        LogLevel::Warn => tracing::Level::WARN,
        LogLevel::Info => tracing::Level::INFO,
        LogLevel::Debug => tracing::Level::DEBUG,
        LogLevel::Trace => tracing::Level::TRACE,
    }
}

#[test]
fn log_levels_read_as_tracing_reads_them() {
    let cases = [
        "1", "2", "3", "4", "5", "0", "6", "+3", "03", "-1", "error", "ERROR", "Warn", "info",
        "dEbUg", "trace", "TRACE ", "", "inf", "information", "warning", "é",
    ];
    for c in cases {
        let ours = parse_log_level(c).map(as_tracing);
        let theirs = c.parse::<tracing::Level>().ok();
        assert_eq!(ours, theirs, "input {c:?}");
    }
}

#[test]
fn case_insensitive_comparison() {
    assert!(str_eq_ignore_ascii_case("DeBuG", "debug"));
    assert!(!str_eq_ignore_ascii_case("debug", "debugs"));
    assert!(!str_eq_ignore_ascii_case("ebug", "debu"));
}
