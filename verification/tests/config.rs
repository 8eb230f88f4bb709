use devops_agent::llm::config_store::{
    mask_api_key, LlmConfigStore, LlmConfigUpdate, ProviderConfig as EnvProviderConfig,
};
use devops_agent::llm::provider::config::{
    build_model_router, LlmConfigSnapshot, LlmConfigStore as ProviderStore, ProviderConfig, ProviderKind,
};
use devops_agent::llm::router::TaskLevel;

#[test]
fn config_store_test_mask_api_key_long() {
    assert_eq!(mask_api_key("sk-abc123def456ghi"), "sk-a****6ghi");
}

#[test]
fn config_store_test_mask_api_key_short() {
    assert_eq!(mask_api_key("short"), "****");
}

#[test]
fn config_store_test_mask_api_key_exact_8() {
    assert_eq!(mask_api_key("12345678"), "****");
}

#[test]
fn config_test_mask_api_key_long() {
    assert_eq!(mask_api_key("sk-abc123def456ghi"), "sk-a****6ghi");
}

#[test]
fn config_test_mask_api_key_short() {
    assert_eq!(mask_api_key("short"), "****");
}

#[test]
fn config_test_mask_api_key_exact_8() {
    assert_eq!(mask_api_key("12345678"), "****");
}

#[test]
fn mask_api_key_nine_bytes_shows_both_ends() {
    assert_eq!(mask_api_key("123456789"), "1234****6789");
}

fn env_provider(key: Option<&str>, url: Option<&str>, flash: Option<&str>, pro: Option<&str>) -> EnvProviderConfig {
    EnvProviderConfig {
        api_key: key.map(|s| s.to_string()),
        base_url: url.map(|s| s.to_string()),
        model_flash: flash.map(|s| s.to_string()),
        model_pro: pro.map(|s| s.to_string()),
    }
}

#[test]
fn test_config_store_update() {
    let mut store = LlmConfigStore::default();
    store.update(LlmConfigUpdate {
        openai: Some(env_provider(Some("sk-test-key"), Some("https://custom.api.com/v1"), None, None)),
        anthropic: None,
    });

    let snapshot = store.snapshot();
    assert_eq!(snapshot.openai.api_key, Some("sk-test-key".to_string()));
    assert_eq!(snapshot.openai.base_url, Some("https://custom.api.com/v1".to_string()));
    assert!(snapshot.anthropic.api_key.is_none());
}

#[test]
fn test_config_store_partial_update() {
    let mut store = LlmConfigStore::default();
    store.update(LlmConfigUpdate {
        openai: Some(env_provider(Some("sk-old"), Some("https://old.api.com"), None, None)),
        anthropic: None,
    });
    store.update(LlmConfigUpdate {
        openai: Some(env_provider(Some("sk-new"), None, None, None)),
        anthropic: None,
    });

    let snapshot = store.snapshot();
    assert_eq!(snapshot.openai.api_key, Some("sk-new".to_string()));
    assert_eq!(snapshot.openai.base_url, Some("https://old.api.com".to_string()));
}

#[test]
fn config_store_test_masked_snapshot() {
    let mut store = LlmConfigStore::default();
    store.update(LlmConfigUpdate {
        openai: Some(env_provider(Some("sk-abcdefghij12345"), None, None, None)),
        anthropic: None,
    });

    let masked = store.snapshot().with_masked_keys();
    assert_eq!(masked.openai.api_key, Some("sk-a****2345".to_string()));
}

#[test]
fn test_model_flash_and_pro_storage() {
    let mut store = LlmConfigStore::default();
    store.update(LlmConfigUpdate {
        openai: Some(env_provider(Some("sk-test"), None, Some("gpt-4o-mini"), Some("o3"))),
        anthropic: None,
    });

    let snapshot = store.snapshot();
    assert_eq!(snapshot.openai.model_flash, Some("gpt-4o-mini".to_string()));
    assert_eq!(snapshot.openai.model_pro, Some("o3".to_string()));
}

#[test]
fn test_from_env_with_models() {
    let store = LlmConfigStore::from_env(
        Some("sk-test"),
        Some("https://custom.api.com"),
        Some("gpt-4o-mini"),
        Some("o3"),
        None,
        None,
        None,
        None,
    );

    let snapshot = store.snapshot();
    assert_eq!(snapshot.openai.api_key, Some("sk-test".to_string()));
    assert_eq!(snapshot.openai.base_url, Some("https://custom.api.com".to_string()));
    assert_eq!(snapshot.openai.model_flash, Some("gpt-4o-mini".to_string()));
    assert_eq!(snapshot.openai.model_pro, Some("o3".to_string()));
    assert!(snapshot.anthropic.api_key.is_none());
}

#[test]
fn from_env_ignores_empty_key() {
    let store = LlmConfigStore::from_env(Some(""), Some("https://x"), None, None, None, None, None, None);
    assert!(store.snapshot().openai.base_url.is_none());
}

#[test]
fn build_router_fills_defaults() {
    let store = LlmConfigStore::from_env(Some("sk-1"), None, None, None, Some("sk-2"), None, None, None);
    let (openai, anthropic, routing) = store.build_router("default-model");
    assert!(matches!(routing.default_level, TaskLevel::L1));
    assert_eq!(routing.max_tokens_l1, 1024);
    assert_eq!(routing.max_tokens_l2, 4096);
    let openai = openai.unwrap();
    assert_eq!(openai.base_url, "https://api.openai.com");
    assert_eq!(openai.default_model, "gpt-4o-mini");
    assert_eq!(openai.timeout_secs, 60);
    let anthropic = anthropic.unwrap();
    assert_eq!(anthropic.base_url, "https://api.anthropic.com");
    assert_eq!(anthropic.default_model, "default-model");
}

#[test]
fn build_router_without_keys_is_empty() {
    let store = LlmConfigStore::default();
    let (openai, anthropic, _) = store.build_router("m");
    assert!(openai.is_none());
    assert!(anthropic.is_none());
}

fn provider(id: &str, key: Option<&str>, url: Option<&str>, flash: Option<&str>, pro: Option<&str>) -> ProviderConfig {
    ProviderConfig {
        id: id.to_string(),
        api_key: key.map(|s| s.to_string()),
        base_url: url.map(|s| s.to_string()),
        model_flash: flash.map(|s| s.to_string()),
        model_pro: pro.map(|s| s.to_string()),
    }
}

#[test]
fn test_provider_config_lookup() {
    let snapshot = LlmConfigSnapshot {
        providers: vec![
            provider("openai", Some("sk-test"), Some("https://custom.api.com"), Some("gpt-4o-mini"), Some("o3")),
            provider("anthropic", Some("sk-ant-test"), Some("https://api.anthropic.com"), Some("Qwen3.6"), None),
        ],
        default_provider: "anthropic".to_string(),
    };

    assert!(snapshot.get_provider("openai").is_some());
    assert!(snapshot.get_provider("anthropic").is_some());
    assert!(snapshot.get_provider("unknown").is_none());
    assert_eq!(snapshot.default_model_flash(), Some("Qwen3.6".to_string()));
}

#[test]
fn config_test_masked_snapshot() {
    let snapshot = LlmConfigSnapshot {
        providers: vec![provider("openai", Some("sk-abcdefghij12345"), Some("https://api.openai.com"), None, None)],
        default_provider: "openai".to_string(),
    };

    let masked = snapshot.with_masked_keys();
    assert_eq!(masked.providers[0].api_key, Some("sk-a****2345".to_string()));
}

#[test]
fn test_from_providers() {
    let store = ProviderStore::from_providers(
        vec![provider("openai", Some("sk-test"), Some("https://custom.api.com"), Some("gpt-4o-mini"), Some("o3"))],
        "openai".to_string(),
    );

    let snapshot = store.snapshot();
    assert_eq!(snapshot.providers.len(), 1);
    assert_eq!(snapshot.providers[0].id, "openai");
    assert_eq!(snapshot.providers[0].api_key, Some("sk-test".to_string()));
    assert_eq!(snapshot.default_provider, "openai");
}

#[test]
fn model_router_plan_puts_default_first_and_skips_unusable() {
    let providers = vec![
        provider("openai", Some("sk-1"), Some("https://a"), Some("gpt-4o-mini"), Some("o3")),
        provider("deepseek", Some(""), Some("https://b"), None, None),
        provider("mystery", Some("sk-3"), Some("https://c"), None, None),
        provider("nvidia", Some("sk-4"), None, None, None),
        provider("anthropic", Some("sk-5"), Some("https://d"), Some("m-flash"), None),
    ];
    let plan = build_model_router(&providers, "anthropic");
    assert_eq!(plan.len(), 2);
    assert_eq!(plan[0].id, "anthropic");
    assert_eq!(plan[0].kind, ProviderKind::Anthropic);
    assert_eq!(plan[0].models.default_model, Some("m-flash".to_string()));
    assert_eq!(plan[1].id, "openai");
    assert_eq!(plan[1].kind, ProviderKind::OpenAICompat);
    assert_eq!(plan[1].base_url, "https://a");
}
