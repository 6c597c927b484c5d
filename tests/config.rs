use rust_db_talk::config::{parse_port, ConfigError, DbConfig, ModelSelect, OllamaConfig};

#[test]
fn ports_parse_like_u16() {
    assert_eq!(parse_port("11434"), Some(11434));
    assert_eq!(parse_port("+80"), Some(80));
    assert_eq!(parse_port("0065535"), Some(65535));
    assert_eq!(parse_port("0"), Some(0));
    assert_eq!(parse_port("65536"), None);
    assert_eq!(parse_port("99999999999999999999"), None);
    assert_eq!(parse_port(""), None);
    assert_eq!(parse_port("+"), None);
    assert_eq!(parse_port("-1"), None);
    assert_eq!(parse_port(" 80"), None);
    assert_eq!(parse_port("8a"), None);
}

#[test]
fn settings_and_defaults() {
    assert_eq!(DbConfig::from_setting(None).url, "");
    assert_eq!(DbConfig::from_setting(Some("sqlite://todo.db".to_string())).url, "sqlite://todo.db");
    let c = OllamaConfig::from_settings(Some("http://localhost".to_string()), Some("11434".to_string())).ok().unwrap();
    assert_eq!((c.url.as_str(), c.port), ("http://localhost", 11434));
    let d = OllamaConfig::from_settings(None, None).ok().unwrap();
    assert_eq!((d.url.as_str(), d.port), ("", 0));
    match OllamaConfig::from_settings(None, Some("port".to_string())) {
        Err(ConfigError::InvalidPort { value }) => assert_eq!(value, "port"),
        other => panic!("unexpected {:?}", other),
    }
}

#[test]
fn model_identifiers() {
    assert_eq!(ModelSelect::SqlOperate.as_str(None), "sqlcoder:7b");
    assert_eq!(ModelSelect::NplOperate.as_str(None), "llama3");
    assert_eq!(ModelSelect::TinyLlma.as_str(None), "timyllama:latest");
    assert_eq!(ModelSelect::NplOperate.as_str(Some("mistral".to_string())), "mistral");
    assert_eq!(ModelSelect::SqlOperate.setting_name(), "SQL_OPERATE");
    assert_eq!(ModelSelect::TinyLlma.setting_name(), "TINY_LLAMA");
}
