use media_transcriber::config::{Config, ConfigError};
use media_transcriber::envfile::find_api_key_in_env_text;

fn make(
    arg_key: Option<&str>,
    env_key: Option<&str>,
    file_key: Option<&str>,
) -> Result<Config, ConfigError> {
    Config::new(
        arg_key.map(|s| s.to_string()),
        env_key.map(|s| s.to_string()),
        file_key.map(|s| s.to_string()),
        None,
        None,
        None,
        "out".to_string(),
    )
}

#[test]
fn explicit_key_beats_environment_and_file() {
    let c = make(Some("sk-arg"), Some("sk-env"), Some("sk-file")).unwrap();
    assert_eq!(c.api_key, "sk-arg");
    let c = make(None, Some("sk-env"), Some("sk-file")).unwrap();
    assert_eq!(c.api_key, "sk-env");
    let c = make(None, None, Some("sk-file")).unwrap();
    assert_eq!(c.api_key, "sk-file");
}

#[test]
fn missing_or_malformed_key_is_rejected() {
    assert!(matches!(make(None, None, None), Err(ConfigError::ApiKeyNotFound)));
    assert!(matches!(
        make(Some("token-without-prefix"), None, None),
        Err(ConfigError::ApiKeyNotFound)
    ));
    assert!(matches!(
        make(Some("s"), None, None),
        Err(ConfigError::ApiKeyNotFound)
    ));
}

#[test]
fn config_carries_its_fields() {
    let c = Config::new(
        Some("sk-proj-123".to_string()),
        None,
        None,
        Some("en".to_string()),
        Some("jargon".to_string()),
        Some(5),
        "transcripts".to_string(),
    )
    .unwrap();
    assert_eq!(c.language.as_deref(), Some("en"));
    assert_eq!(c.prompt.as_deref(), Some("jargon"));
    assert_eq!(c.limit, Some(5));
    assert_eq!(c.output_dir, "transcripts");
}

#[test]
fn env_text_assignment_is_found() {
    assert_eq!(
        find_api_key_in_env_text("OPENAI_API_KEY=sk-abc\n"),
        Some("sk-abc".to_string())
    );
    assert_eq!(
        find_api_key_in_env_text("FOO=1\nOPENAI_API_KEY = sk-two \nBAR=2\n"),
        Some("sk-two".to_string())
    );
}

#[test]
fn env_text_quotes_and_comments_are_stripped() {
    assert_eq!(
        find_api_key_in_env_text("OPENAI_API_KEY=\"sk-quoted\"\n"),
        Some("sk-quoted".to_string())
    );
    assert_eq!(
        find_api_key_in_env_text("OPENAI_API_KEY='sk-single'\n"),
        Some("sk-single".to_string())
    );
    assert_eq!(
        find_api_key_in_env_text("OPENAI_API_KEY=sk-live # production\n"),
        Some("sk-live".to_string())
    );
}

#[test]
fn env_text_comment_lines_are_skipped() {
    assert_eq!(
        find_api_key_in_env_text("# OPENAI_API_KEY=sk-commented\n"),
        None
    );
    assert_eq!(
        find_api_key_in_env_text("# header\n\nsk-bare rest of line\n"),
        Some("sk-bare".to_string())
    );
}

#[test]
fn env_text_without_key_yields_nothing() {
    assert_eq!(find_api_key_in_env_text(""), None);
    assert_eq!(find_api_key_in_env_text("USER=me\nHOME=/root\n"), None);
    assert_eq!(find_api_key_in_env_text("OPENAI_API_KEY=\n"), None);
}
