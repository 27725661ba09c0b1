use hero_call::ai::{
    connection_response_has_message, mark_current_provider, provider_display_name, provider_http_status, research_report_system_prompt,
    sanitize_api_error_body, stored_review_view,
    sanitize_diagnostic_response, AiProviderConfigView,
};
use hero_call::ai_report::AiProviderError;
use hero_call::json::JsonValue;
use hero_call::records::AiReview;

#[test]
fn api_errors_keep_status_but_redact_the_key() {
    let error = AiProviderError::http_error(401, "invalid api key: [REDACTED]");
    assert!(error.to_text().contains("API认证失败（HTTP 401）"));
    assert_eq!(error.http_status, Some(401));
    assert_eq!(
        sanitize_api_error_body(b"{\"error\":\"sk-test-secret\"}", "sk-test-secret"),
        "{\"error\":\"[REDACTED]\"}"
    );
}

fn config(provider: &str, display: &str, model: &str, endpoint: &str, enabled: bool, priority: i64) -> AiProviderConfigView {
    AiProviderConfigView {
        provider: provider.into(),
        display_name: display.into(),
        model: model.into(),
        endpoint: endpoint.into(),
        configured: true,
        enabled,
        is_current: false,
        priority,
    }
}

#[test]
fn provider_status_marks_only_the_runtime_priority_winner_as_current() {
    let mut providers = vec![
        config("DEEPSEEK", "DeepSeek", "deepseek-chat", "https://api.deepseek.com/chat/completions", true, 1),
        config(
            "TENCENT_TOKENHUB",
            "腾讯混元（TokenHub）",
            "hy3",
            "https://tokenhub.tencentmaas.com/v1/chat/completions",
            true,
            2,
        ),
        config(
            "DOUBAO",
            "豆包",
            "doubao-seed-1-6-250615",
            "https://ark.cn-beijing.volces.com/api/v3/chat/completions",
            false,
            3,
        ),
    ];

    mark_current_provider(&mut providers);

    assert!(providers[0].is_current);
    assert!(!providers[1].is_current);
    assert!(!providers[2].is_current);
}

#[test]
fn tokenhub_provider_uses_the_hy3_openai_compatible_configuration() {
    assert_eq!(provider_display_name("TENCENT_TOKENHUB"), "腾讯混元（TokenHub）");
    let answered = JsonValue::parse(r#"{"choices": [{"message": {"content": "pong"}}]}"#).unwrap();
    assert!(connection_response_has_message(&answered));
    let empty = JsonValue::parse(r#"{"choices": []}"#).unwrap();
    assert!(!connection_response_has_message(&empty));
}

#[test]
fn diagnostic_response_is_redacted_of_the_key() {
    let text = sanitize_diagnostic_response("key sk-abc echoed", "sk-abc");
    assert!(!text.contains("sk-abc"));
    assert!(text.contains("[REDACTED]"));
}

#[test]
fn provider_status_is_read_from_curl_output_before_the_body() {
    assert_eq!(provider_http_status(b"200", b"{}", "k").unwrap(), 200);
    assert_eq!(provider_http_status(b" 204\n", b"", "k").unwrap(), 204);
    let missing = provider_http_status(b"", b"{}", "k").unwrap_err();
    assert_eq!(missing.to_text(), "AI Provider 返回格式错误：缺少HTTP状态码");
    assert_eq!(missing.http_status, None);
    let refused = provider_http_status(b"401", b"bad key sk-1", "sk-1").unwrap_err();
    assert_eq!(refused.to_text(), "AI Provider API认证失败（HTTP 401）：bad key [REDACTED]");
    assert_eq!(refused.http_status, Some(401));
    let busy = provider_http_status(b"429", b"", "k").unwrap_err();
    assert_eq!(busy.to_text(), "AI Provider API请求过于频繁（HTTP 429）");
}

fn stored(facts: &str) -> AiReview {
    AiReview {
        id: 7,
        review_id: 3,
        model: "deepseek-chat".into(),
        prompt_version: "v1".into(),
        context_id: Some(1),
        provider: "DEEPSEEK".into(),
        request_status: "SUCCEEDED".into(),
        error_code: None,
        facts: facts.into(),
        inferences: "[]".into(),
        risks: "[]".into(),
        report_json: None,
        security_id: None,
        security_name: None,
        security_symbol: None,
        research_run_id: None,
        created_at: "2026-08-07T08:00:00.000Z".into(),
    }
}

#[test]
fn historical_review_without_report_remains_readable() {
    let view = stored_review_view(
        stored("[\"已保存事实\"]"),
        vec!["已保存事实".into()],
        vec!["已保存分析".into()],
        vec!["已保存风险".into()],
        None,
    )
    .unwrap();
    assert_eq!(view.id, 7);
    assert_eq!(view.facts, vec!["已保存事实".to_string()]);
    assert!(view.report.is_none());
}

#[test]
fn blank_stored_entries_are_refused() {
    let refused = stored_review_view(stored("[\" \"]"), vec![" ".into()], vec![], vec![], None)
        .unwrap_err();
    assert_eq!(refused.message(), "AI输出包含空内容");
}

#[test]
fn research_prompt_demands_cited_evidence_and_forbids_trading_advice() {
    let prompt = research_report_system_prompt();
    assert!(prompt.contains("researchContext.allowedEvidenceIds"));
    assert!(prompt.contains("不得输出买入、卖出"));
    assert!(prompt.contains("{\"facts\":[],\"inferences\":[],\"risks\":[],\"strategy_reference\":\"\"}"));
}

#[test]
fn equal_priorities_keep_the_first_eligible_provider() {
    let mut providers = vec![
        config("DOUBAO", "豆包", "doubao", "https://ark.example.invalid", false, 1),
        config("DEEPSEEK", "DeepSeek", "deepseek-chat", "https://api.example.invalid", true, 2),
        config("TENCENT_TOKENHUB", "腾讯混元（TokenHub）", "hy3", "https://tokenhub.example.invalid", true, 2),
    ];
    mark_current_provider(&mut providers);
    assert!(!providers[0].is_current);
    assert!(providers[1].is_current);
    assert!(!providers[2].is_current);

    let mut none_ready = vec![config("DEEPSEEK", "DeepSeek", "deepseek-chat", "https://api.example.invalid", false, 1)];
    mark_current_provider(&mut none_ready);
    assert!(!none_ready[0].is_current);
}

#[test]
fn error_bodies_lose_every_key_occurrence_line_break_and_excess_length() {
    assert_eq!(
        sanitize_api_error_body(b"aab\nsk-1sk-1\r\nAuthorization: Bearer x", "sk-1"),
        "aab [REDACTED][REDACTED]  Authorization: [REDACTED] x"
    );
    let long = vec![b'x'; 900];
    let cut = sanitize_api_error_body(&long, "sk-1");
    assert_eq!(cut.chars().count(), 801);
    assert!(cut.ends_with('…'));
}
