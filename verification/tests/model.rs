use naina::model::{
    total_vram, FinishReason, LoadVerdict, MockModelProvider, ModelLedger, ModelRuntimeConfig,
    ModelRuntimeError, ModelState, QwenGgufAdapter,
};

#[test]
fn test_05_mock_provider_lifecycle_and_inference() {
    let mut mock = MockModelProvider::new();
    assert_eq!(mock.current_vram_usage_bytes(), 0);

    mock.load_model("test-model").unwrap();
    assert_eq!(mock.current_vram_usage_bytes(), 500_000_000);

    let response = mock.generate("test-model", "Hello NAINA OS").unwrap();
    assert!(response.text.contains("Mock completion"));
    assert_eq!(response.finish_reason, FinishReason::Stop);
    assert!(response.usage.is_some());

    mock.unload_model("test-model").unwrap();
    assert_eq!(mock.current_vram_usage_bytes(), 0);
}

#[test]
fn test_06_mock_provider_streaming_tokens() {
    let mut mock = MockModelProvider::new();
    mock.load_model("stream-model").unwrap();
    let tokens = mock.stream_tokens("stream-model").unwrap();
    assert_eq!(tokens, vec!["Mock ", "stream ", "for ", "stream-model"]);
}

#[test]
fn mock_counts_prompt_bytes_and_refuses_before_loading() {
    let mut mock = MockModelProvider::with_name("alt");
    assert_eq!(mock.provider_name(), "alt");
    assert!(mock.is_model_supported("any-model"));
    let err = mock.generate("m", "hi").unwrap_err();
    assert_eq!(err.to_string(), "Model inference failed: Mock model 'm' not loaded");
    mock.load_model("m").unwrap();
    let r = mock.generate("m", "héllo wörld").unwrap();
    let usage = r.usage.unwrap();
    assert_eq!(usage.prompt_tokens, "héllo wörld".len() / 4 + 1);
    assert_eq!(usage.completion_tokens, 8);
    assert_eq!(usage.total_tokens, usage.prompt_tokens + 8);
    assert_eq!(r.text, "Mock completion for prompt: 'héllo wörld'");
}

#[test]
fn ledger_enforces_the_vram_budget_before_and_after_loading() {
    let config = ModelRuntimeConfig::default();
    assert_eq!(config.max_vram_bytes, 4_800_000_000);
    assert_eq!(config.default_model, "qwen-7b-gguf");
    let mut ledger = ModelLedger::new(config);
    let err = ledger.begin_load("mock", "m", true, 0).unwrap_err();
    assert!(matches!(err, ModelRuntimeError::ProviderNotFound { .. }));
    ledger.register_provider("mock");
    assert!(ledger.has_provider("mock"));
    let err = ledger.begin_load("mock", "m", false, 0).unwrap_err();
    assert_eq!(err.to_string(), "Model not found: m");
    assert_eq!(ledger.model_state("m"), None);

    ledger.begin_load("mock", "m", true, 4_000_000_000).unwrap();
    assert_eq!(ledger.model_state("m"), Some(ModelState::Loading));
    assert_eq!(ledger.finish_load("m", Ok(()), 4_500_000_000), LoadVerdict::Loaded);
    assert_eq!(ledger.model_state("m"), Some(ModelState::Ready));

    let verdict = ledger.finish_load("big", Ok(()), 5_000_000_000);
    assert_eq!(
        verdict,
        LoadVerdict::Rejected(ModelRuntimeError::VramExceeded {
            limit_bytes: 4_800_000_000,
            requested_bytes: 5_000_000_000
        })
    );
    assert_eq!(ledger.model_state("big"), Some(ModelState::Error));
    let err = ledger.begin_load("mock", "again", true, 4_900_000_000).unwrap_err();
    assert_eq!(
        err.to_string(),
        "GPU VRAM limit exceeded: limit 4800000000 bytes, requested 4900000000 bytes"
    );
    assert_eq!(ledger.model_state("again"), Some(ModelState::Error));
}

#[test]
fn ledger_tracks_inference_and_unloading() {
    let mut ledger = ModelLedger::new(ModelRuntimeConfig::default());
    ledger.register_provider("mock");
    ledger.begin_inference("mock", "m").unwrap();
    assert_eq!(ledger.model_state("m"), Some(ModelState::Inferring));
    ledger.finish_inference("m", false);
    assert_eq!(ledger.model_state("m"), Some(ModelState::Error));
    assert!(ledger.finish_unload("m", false).is_err());
    ledger.finish_unload("m", true).unwrap();
    assert_eq!(ledger.model_state("m"), Some(ModelState::Unloaded));
    let failed = ledger.finish_load(
        "m",
        Err(ModelRuntimeError::LoadFailed {
            message: "x".to_string(),
        }),
        0,
    );
    assert!(matches!(failed, LoadVerdict::Failed(ModelRuntimeError::LoadFailed { .. })));
}

#[test]
fn total_vram_adds_provider_usages() {
    assert_eq!(total_vram(&vec![500_000_000, 4_300_000_000, 0]), 4_800_000_000);
    assert_eq!(total_vram(&vec![]), 0);
}

#[test]
fn test_qwen_adapter_creation() {
    let adapter = QwenGgufAdapter::new();
    assert_eq!(adapter.provider_name(), "qwen-gguf");
    assert_eq!(adapter.model_name(), "qwen-7b-gguf");
}

#[test]
fn test_qwen_adapter_supported_models() {
    let adapter = QwenGgufAdapter::new();
    assert!(adapter.is_model_supported("qwen-7b-gguf"));
    assert!(adapter.is_model_supported("qwen-7b"));
    assert!(!adapter.is_model_supported("llama-2"));
}

#[test]
fn test_01_provider_construction_and_names() {
    let mock = MockModelProvider::new();
    assert_eq!(mock.provider_name(), "mock");

    let qwen = QwenGgufAdapter::new();
    assert_eq!(qwen.provider_name(), "qwen-gguf");
    assert_eq!(qwen.model_path(), "./models/qwen-7b-instruct-q4_k_m.gguf");
}

#[test]
fn test_02_supported_model_detection() {
    let mock = MockModelProvider::new();
    assert!(mock.is_model_supported("any-model"));

    let qwen = QwenGgufAdapter::new();
    assert!(qwen.is_model_supported("qwen-7b-gguf"));
    assert!(qwen.is_model_supported("qwen-7b"));
    assert!(qwen.is_model_supported("qwen-2.5-7b-instruct"));
    assert!(!qwen.is_model_supported("llama-3-8b"));
}

#[test]
fn test_04_qwen_adapter_unsupported_model_failure() {
    let mut qwen = QwenGgufAdapter::new();
    let err = qwen.load_model("unsupported-model", false).unwrap_err();
    assert!(matches!(err, ModelRuntimeError::ModelNotFound { .. }));
}

#[test]
fn qwen_adapter_without_backend_answers_deterministically() {
    let mut qwen = QwenGgufAdapter::with_model_path("/tmp/m.gguf");
    assert!(qwen.is_model_supported("My-QWEN-variant"));
    let err = qwen.load_model("qwen-7b", false).unwrap_err();
    assert_eq!(
        err.to_string(),
        "Model load failed: Qwen 7B GGUF model file not found at path: /tmp/m.gguf. Local model file is required."
    );
    assert!(qwen.generate("qwen-7b", "x").is_err());
    qwen.load_model("qwen-7b", true).unwrap();
    assert_eq!(qwen.current_vram_usage_bytes(), 4_300_000_000);
    let r = qwen.generate("qwen-7b", "Hello").unwrap();
    assert_eq!(r.text, "Qwen 7B GGUF output for prompt: 'Hello' (tensors: 0)");
    assert_eq!(r.usage.unwrap().total_tokens, 5 / 4 + 1 + 16);
    let words = qwen.stream_tokens("qwen-7b", "Hello").unwrap();
    assert_eq!(
        words.concat(),
        "Qwen 7B streamed Candle output (tensors: 0) for prompt len 5 "
    );
    qwen.unload_model("qwen-7b").unwrap();
    assert_eq!(qwen.current_vram_usage_bytes(), 0);
    assert!(!qwen.is_cuda_active());
    assert_eq!(qwen.gpu_layers_offloaded(), 0);
    assert_eq!(qwen.backend_name(), "Mock Provider");
}

#[test]
fn qwen_adapter_reports_latency_without_backend() {
    let mut qwen = QwenGgufAdapter::with_model_path("/tmp/m.gguf");
    let total = std::time::Duration::from_millis(7);
    assert!(qwen.generate_detailed("qwen-7b", "Hi", total).is_err());
    qwen.load_model("qwen-7b", true).unwrap();
    let b = qwen.generate_detailed("qwen-7b", "Hi", total).unwrap();
    assert_eq!(b.total_duration, total);
    assert_eq!(b.ttft, std::time::Duration::from_secs(0));
    assert_eq!(b.decoding_duration, std::time::Duration::from_secs(0));
    assert_eq!(b.response.text, "Qwen 7B GGUF output for prompt: 'Hi' (tensors: 0)");
    assert_eq!(b.response.tokens_generated, 16);
}
