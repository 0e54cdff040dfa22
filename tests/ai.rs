use moon_reader::ai::{
    connection_status, evaluation_from_reply, reply_content, AIError, AIEvaluation, AIProviderType,
    AIServiceFactory, DeepSeekProvider, LocalAIProvider, Provider,
};
use moon_reader::config::ProviderConfig;

fn config(pairs: &[(&str, &str)]) -> ProviderConfig {
    let mut c = ProviderConfig::new();
    for (k, v) in pairs {
        c.insert(k.to_string(), v.to_string());
    }
    c
}

#[test]
fn test_deepseek_provider_creation() {
    let provider = DeepSeekProvider::new("test-key".to_string());
    assert_eq!(provider.api_key(), "test-key");
    assert_eq!(provider.model(), "deepseek-chat");
}

#[test]
fn test_local_provider_creation() {
    let provider = LocalAIProvider::new("http://localhost:8080".to_string());
    assert_eq!(provider.api_url(), "http://localhost:8080");
    assert_eq!(provider.model(), "local-model");
}

#[test]
fn test_ai_service_factory() {
    let mut config = ProviderConfig::new();
    config.insert("api_key".to_string(), "test-key".to_string());
    let provider = AIServiceFactory::create_provider(AIProviderType::DeepSeek, config);
    assert!(provider.is_ok());
}

#[test]
fn test_ai_service_factory_missing_config() {
    let config = ProviderConfig::new();
    let provider = AIServiceFactory::create_provider(AIProviderType::DeepSeek, config);
    assert!(provider.is_err());
}

#[test]
fn hosted_factory_names_the_missing_key() {
    match AIServiceFactory::create_provider(AIProviderType::DeepSeek, config(&[("api_url", "x")])) {
        Err(AIError::ConfigError(m)) => assert!(m.contains("api_key")),
        _ => panic!("expected a configuration error"),
    }
}

#[test]
fn self_hosted_factory_needs_api_url() {
    match AIServiceFactory::create_provider(AIProviderType::Local, config(&[("api_key", "k")])) {
        Err(AIError::ConfigError(m)) => assert!(m.contains("api_url")),
        _ => panic!("expected a configuration error"),
    }
    let p = AIServiceFactory::create_provider(AIProviderType::Local, config(&[("api_url", "http://h:1")])).unwrap();
    let r = p.question_request("ctx");
    assert_eq!(r.url, "http://h:1/v1/chat/completions");
    assert_eq!(r.authorization, None);
    assert_eq!(r.model, "local-model");
}

#[test]
fn factory_reads_optional_settings_and_ignores_malformed_ones() {
    let p = AIServiceFactory::create_provider(
        AIProviderType::DeepSeek,
        config(&[("api_key", "k"), ("model", "m1"), ("max_tokens", "+250"), ("temperature", "1.5e0")]),
    )
    .unwrap();
    let r = p.connection_request();
    assert_eq!(r.url, "https://api.deepseek.com/v1/chat/completions");
    assert_eq!(r.authorization.as_deref(), Some("Bearer k"));
    assert_eq!(r.model, "m1");
    assert_eq!(r.max_tokens, 250);
    assert_eq!(r.temperature, "1.5e0");
    let p = AIServiceFactory::create_provider(
        AIProviderType::DeepSeek,
        config(&[("api_key", "k"), ("max_tokens", "lots"), ("temperature", "warm"), ("max_tokens", "4294967296")]),
    )
    .unwrap();
    let r = p.connection_request();
    assert_eq!(r.model, "deepseek-chat");
    assert_eq!(r.max_tokens, 1000);
    assert_eq!(r.temperature, "0.7");
}

#[test]
fn temperature_literals_follow_the_float_grammar() {
    for good in ["0.7", "2", ".5", "5.", "-1e-3", "+INF", "nan", "Infinity", "1E10"] {
        let p = LocalAIProvider::with_config("u".to_string(), None, None, Some(good.to_string()));
        let r = Provider::Local(p).connection_request();
        assert_eq!(r.temperature, good);
    }
    for bad in ["", ".", "e5", "1e", "1.2.3", "0x1", " 1", "infin", "1e+"] {
        let p = LocalAIProvider::with_config("u".to_string(), None, None, Some(bad.to_string()));
        let r = Provider::Local(p).connection_request();
        assert_eq!(r.temperature, "0.7");
    }
}

#[test]
fn question_requests_embed_their_own_context() {
    let p = Provider::DeepSeek(DeepSeekProvider::new("k".to_string()));
    for i in 0..8 {
        let context = format!("context number {}", i);
        let r = p.question_request(&context);
        assert_eq!(r.messages.len(), 2);
        assert_eq!(r.messages[0].role, "system");
        assert_eq!(r.messages[1].role, "user");
        let user = r.messages[1].content.clone().unwrap();
        assert!(user.ends_with(&context));
        assert_eq!(user, format!("基于以下学习材料生成一个问题：\n\n{}", context));
    }
}

#[test]
fn evaluation_request_layout() {
    let p = Provider::Local(LocalAIProvider::new("http://h".to_string()));
    let r = p.evaluation_request("Q?", "A.", "C");
    assert_eq!(
        r.messages[1].content.as_deref(),
        Some("Reference material:\nC\n\nQuestion: Q?\n\nLearner's answer: A.\n\nPlease evaluate this answer and return a JSON-formatted evaluation result.")
    );
}

fn evaluation(score: u8, feedback: &str, suggestions: &[&str]) -> AIEvaluation {
    AIEvaluation {
        score,
        feedback: feedback.to_string(),
        suggestions: suggestions.iter().map(|s| s.to_string()).collect(),
    }
}

#[test]
fn parsed_evaluation_is_taken() {
    let e = evaluation_from_reply("{..}".to_string(), Some(evaluation(85, "Good", &["a", "b"])), "fallback");
    assert_eq!(e, evaluation(85, "Good", &["a", "b"]));
    let e = evaluation_from_reply("{..}".to_string(), Some(evaluation(250, "", &[])), "f");
    assert_eq!(e.score, 100);
}

#[test]
fn unexpected_shapes_fall_back() {
    for raw in [r#"{"score": "high"}"#, "Plain prose answer", ""] {
        let e = evaluation_from_reply(raw.to_string(), None, "Please refer to the reference material");
        assert_eq!(e.score, 70);
        assert_eq!(e.feedback, raw);
        assert_eq!(e.suggestions, vec!["Please refer to the reference material".to_string()]);
    }
    let p = Provider::DeepSeek(DeepSeekProvider::new("k".to_string()));
    let e = p.evaluation_from_reply("not json".to_string(), None);
    assert_eq!(e.suggestions, vec!["请参考参考材料进一步完善答案".to_string()]);
    let p = Provider::Local(LocalAIProvider::new("u".to_string()));
    let e = p.evaluation_from_reply("x".to_string(), Some(evaluation(9, "fine", &[])));
    assert_eq!(e, evaluation(9, "fine", &[]));
}

#[test]
fn replies_are_interpreted() {
    assert_eq!(reply_content(200, "{}".to_string(), Ok(Some("Why?".to_string()))), Ok("Why?".to_string()));
    assert_eq!(
        reply_content(401, "denied".to_string(), Ok(Some("ignored".to_string()))),
        Err(AIError::ApiError { status: 401, message: "denied".to_string() })
    );
    assert_eq!(
        reply_content(200, "<html>".to_string(), Err("expected value".to_string())),
        Err(AIError::JsonError("expected value".to_string()))
    );
    assert_eq!(
        reply_content(204, "{}".to_string(), Ok(None)),
        Err(AIError::InvalidResponse("No content in response".to_string()))
    );
}

#[test]
fn connection_probe_never_fails() {
    assert!(connection_status(&Ok("hi".to_string())));
    assert!(!connection_status(&Err(AIError::HttpError("down".to_string()))));
    assert!(!connection_status(&Err(AIError::ApiError { status: 500, message: String::new() })));
}

#[test]
fn later_settings_override_earlier_ones() {
    let c = config(&[("model", "a"), ("model", "b")]);
    assert_eq!(c.get("model").map(|s| s.as_str()), Some("b"));
    assert_eq!(c.get("missing"), None);
}

#[test]
fn concurrent_question_requests_stay_apart() {
    let provider = std::sync::Arc::new(Provider::Local(LocalAIProvider::new("http://h".to_string())));
    let runtime = tokio::runtime::Builder::new_multi_thread().worker_threads(4).build().unwrap();
    runtime.block_on(async {
        let mut handles = Vec::new();
        for i in 0..32 {
            let provider = provider.clone();
            handles.push(tokio::spawn(async move {
                let context = format!("document {} body", i);
                let request = provider.question_request(&context);
                (context, request.messages[1].content.clone().unwrap())
            }));
        }
        for handle in handles {
            let (context, user) = handle.await.unwrap();
            assert_eq!(user, format!("Generate a question based on the following learning material:\n\n{}", context));
        }
    });
}
