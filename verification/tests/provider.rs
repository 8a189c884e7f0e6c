use cgrep::provider::{
    normalize_batch_size, normalize_max_chars, parse_bool_value, parse_model_value, parse_usize_text,
    parse_usize_value, provider_config_from_env, truncate_texts, CommandProvider, DummyProvider,
    EmbeddingModel, EnvValue, ProviderEnv, ProviderError, DEFAULT_FASTEMBED_BATCH_SIZE,
    DEFAULT_FASTEMBED_MAX_CHARS, MAX_FASTEMBED_BATCH_SIZE,
};
use cgrep::text::truncate_to_chars;

#[test]
fn test_normalize_batch_size_zero_uses_default() {
    assert_eq!(
        normalize_batch_size(0),
        DEFAULT_FASTEMBED_BATCH_SIZE,
        "zero batch size should fallback to default"
    );
}

#[test]
fn test_normalize_batch_size_clamps_max() {
    assert_eq!(normalize_batch_size(MAX_FASTEMBED_BATCH_SIZE + 1), MAX_FASTEMBED_BATCH_SIZE);
}

#[test]
fn test_normalize_max_chars_zero_uses_default() {
    assert_eq!(normalize_max_chars(0), DEFAULT_FASTEMBED_MAX_CHARS);
}

#[test]
fn test_truncate_to_chars() {
    let input = "hello";
    assert_eq!(truncate_to_chars(input, 2), "he".to_string());
    assert_eq!(truncate_to_chars(input, 5), input);
}

#[test]
fn test_truncate_to_chars_unicode_boundary() {
    let input = "가나다라마바사";
    assert_eq!(truncate_to_chars(input, 3), "가나다".to_string());
}

#[test]
fn truncate_to_zero_is_empty() {
    assert_eq!(truncate_to_chars("abc", 0), "");
    let t = truncate_texts(&["abcdef".to_string(), "xy".to_string()], 3);
    assert_eq!(t, vec!["abc".to_string(), "xy".to_string()]);
}

#[test]
fn usize_text_follows_from_str() {
    assert_eq!(parse_usize_text("42"), Some(42));
    assert_eq!(parse_usize_text("+7"), Some(7));
    assert_eq!(parse_usize_text("+"), None);
    assert_eq!(parse_usize_text(""), None);
    assert_eq!(parse_usize_text("-1"), None);
    assert_eq!(parse_usize_text("1x"), None);
    assert_eq!(parse_usize_text("99999999999999999999999999"), None);
    assert_eq!(parse_usize_text(&usize::MAX.to_string()), Some(usize::MAX));
}

#[test]
fn env_settings_are_read_with_defaults() {
    assert_eq!(parse_usize_value("X", EnvValue::Unset, 9), Ok(9));
    assert_eq!(parse_usize_value("X", EnvValue::Text("  "), 9), Ok(9));
    assert_eq!(parse_usize_value("X", EnvValue::Text(" 12 "), 9), Ok(12));
    assert_eq!(
        parse_usize_value("X", EnvValue::Text("abc"), 9),
        Err(ProviderError::InvalidValue { name: "X".to_string(), value: "abc".to_string() })
    );
    assert_eq!(
        parse_usize_value("X", EnvValue::Unreadable, 9),
        Err(ProviderError::Unreadable { name: "X".to_string() })
    );
    assert_eq!(parse_bool_value("B", EnvValue::Text("YES"), false), Ok(true));
    assert_eq!(parse_bool_value("B", EnvValue::Text("off"), true), Ok(false));
    assert_eq!(parse_bool_value("B", EnvValue::Text(""), true), Ok(true));
    let e = parse_bool_value("B", EnvValue::Text("Maybe"), true).unwrap_err();
    assert_eq!(e.message(), "Invalid B value: maybe");
}

#[test]
fn model_names_are_recognised() {
    assert_eq!(parse_model_value(EnvValue::Unset), Ok(EmbeddingModel::AllMiniLML6V2));
    assert_eq!(parse_model_value(EnvValue::Text("MiniLM")), Ok(EmbeddingModel::AllMiniLML6V2));
    assert_eq!(
        parse_model_value(EnvValue::Text("sentence-transformers/all-MiniLM-L6-v2")),
        Ok(EmbeddingModel::AllMiniLML6V2)
    );
    let e = parse_model_value(EnvValue::Text("Other")).unwrap_err();
    assert_eq!(e, ProviderError::UnsupportedModel("other".to_string()));
    assert_eq!(e.message(), "Unsupported FASTEMBED_MODEL 'other'. Supported value: minilm");
    assert_eq!(EmbeddingModel::AllMiniLML6V2.to_string(), "all-MiniLM-L6-v2");
}

#[test]
fn provider_config_reads_environment_over_overrides() {
    let unset = ProviderEnv {
        model: EnvValue::Unset,
        batch_size: EnvValue::Unset,
        max_chars: EnvValue::Unset,
        normalize: EnvValue::Unset,
    };
    let c = provider_config_from_env(Some(0), Some(0), unset).unwrap();
    assert_eq!(c.batch_size, 4);
    assert_eq!(c.max_chars, 2000);
    assert!(c.normalize);
    let env = ProviderEnv {
        model: EnvValue::Unset,
        batch_size: EnvValue::Text("5000"),
        max_chars: EnvValue::Text("10"),
        normalize: EnvValue::Text("0"),
    };
    let c = provider_config_from_env(Some(8), None, env).unwrap();
    assert_eq!(c.batch_size, 1024);
    assert_eq!(c.max_chars, 10);
    assert!(!c.normalize);
    let bad = ProviderEnv {
        model: EnvValue::Text("nope"),
        batch_size: EnvValue::Text("x"),
        max_chars: EnvValue::Unset,
        normalize: EnvValue::Unset,
    };
    assert_eq!(provider_config_from_env(None, None, bad), Err(ProviderError::UnsupportedModel("nope".to_string())));
}

#[test]
fn provider_defaults() {
    let c = CommandProvider::new("embedder".to_string(), "m".to_string());
    assert_eq!(c.batch_size, 64);
    assert_eq!(c.model_id(), "m");
    let d = DummyProvider::new(384);
    assert_eq!(d.model_id(), "dummy");
    assert_eq!(d.dimension, 384);
    assert_eq!(d.batch_size, 4);
}
