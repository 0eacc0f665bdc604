use hoarder::api_config::APIConfig;

#[test]
fn default_has_no_key() {
    let config = APIConfig::default();
    assert_eq!(config.tmdb_api_key, None);
    assert!(config.needs_key());
    assert_eq!(config.api_key(), None);
}

#[test]
fn environment_goes_before_the_file() {
    let file = APIConfig { tmdb_api_key: Some("from file".to_string()) };
    let config = file.clone().with_env_key(Some("from env".to_string()));
    assert_eq!(config.api_key(), Some("from env"));
    assert_eq!(file.clone().with_env_key(None), file);
    assert_eq!(APIConfig::default().with_env_key(None).api_key(), None);
}

#[test]
fn entered_key_is_trimmed() {
    let config = APIConfig::default().with_entered_key("  abc123 \n");
    assert_eq!(config.api_key(), Some("abc123"));
    assert!(!config.needs_key());
    assert_eq!(APIConfig::default().with_entered_key("\n").api_key(), Some(""));
}
