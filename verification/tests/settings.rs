use llm_playground::settings::APIKey;
use llm_playground::settings::Provider;
use llm_playground::settings::Settings;

#[test]
fn provider_names() {
    assert_eq!(Provider::OpenAI.to_string(), "OpenAI");
    assert_eq!(Provider::Anthropic.to_string(), "Anthropic");
}

#[test]
fn default_settings_match_a_fresh_installation() {
    let s = Settings::default();
    assert_eq!(s.temperature_tenths, 10);
    assert_eq!(s.max_tokens, 1024);
    assert_eq!(s.model, "");
    assert!(s.api_key.is_none());
    assert!(s.api_keys.is_empty());
}

#[test]
fn selected_key_handles_missing_and_out_of_range() {
    let mut s = Settings::default();
    assert!(s.selected_key().is_none());
    s.api_keys.push(APIKey {
        name: "work".to_string(),
        key: "sk-1".to_string(),
        provider: Provider::Anthropic,
    });
    assert!(s.selected_key().is_none());
    s.api_key = Some(0);
    let k = s.selected_key().unwrap();
    assert_eq!(k.name, "work");
    assert_eq!(k.key, "sk-1");
    s.api_key = Some(3);
    assert!(s.selected_key().is_none());
}

#[test]
fn remove_key_by_name() {
    let mut s = Settings::default();
    s.add_api_key(APIKey {
        name: "work".to_string(),
        key: "sk-1".to_string(),
        provider: Provider::OpenAI,
    });
    s.add_api_key(APIKey {
        name: "home".to_string(),
        key: "sk-2".to_string(),
        provider: Provider::Anthropic,
    });
    assert!(!s.remove_api_key(&"absent".to_string()));
    assert_eq!(s.api_keys.len(), 2);
    assert!(s.remove_api_key(&"work".to_string()));
    assert_eq!(s.api_keys.len(), 1);
    assert_eq!(s.api_keys[0].name, "home");
    assert!(!s.remove_api_key(&"work".to_string()));
}

#[test]
fn duplicate_key_names_are_rejected() {
    let mut s = Settings::default();
    assert!(s.add_api_key(APIKey {
        name: "work".to_string(),
        key: "sk-1".to_string(),
        provider: Provider::OpenAI,
    }));
    assert!(!s.add_api_key(APIKey {
        name: "work".to_string(),
        key: "sk-2".to_string(),
        provider: Provider::Anthropic,
    }));
    assert!(s.add_api_key(APIKey {
        name: "home".to_string(),
        key: "sk-3".to_string(),
        provider: Provider::Anthropic,
    }));
    assert_eq!(s.api_keys.len(), 2);
    assert_eq!(s.api_keys[0].key, "sk-1");
}
