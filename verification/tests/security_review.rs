use hero_call::ai_report::{AiProviderError, AiReviewSections, AiServiceError};
use hero_call::json::JsonValue;
use hero_call::market::MarketSecurity;
use hero_call::records::StoredMarketQuote;
use hero_call::research_context::profile_context;
use hero_call::security_review::{quotes_for_symbol, review_decision, security_review_input, ReviewDecision};

fn quote(symbol: &str, price: &str) -> StoredMarketQuote {
    StoredMarketQuote {
        symbol: symbol.into(),
        name: "测试证券".into(),
        market: "SSE".into(),
        current_price: price.into(),
        previous_close: "10".into(),
        price_change: "0".into(),
        change_percent: "0".into(),
        volume: "0".into(),
        turnover_amount: "0".into(),
        market_timestamp: "2026-08-07T07:00:00+00:00".into(),
        fetched_at: "2026-08-07T07:00:00+00:00".into(),
        source: "Recorded source".into(),
        delay_status: "CLOSED".into(),
    }
}

fn empty_sections() -> AiReviewSections {
    AiReviewSections {
        facts: Vec::new(),
        inferences: Vec::new(),
        risks: Vec::new(),
        stock_status: None,
        market_analysis: None,
        sector_analysis: None,
        news_analysis: None,
        technical_analysis: None,
        strategy_reference: None,
        conclusion: None,
        actions: None,
        core_drivers: None,
        market_thesis: None,
        bull_bear_analysis: None,
        future_catalysts: None,
        risk_factors: None,
        research_score: None,
    }
}

#[test]
fn quotes_of_one_security_are_kept_in_order() {
    let quotes = vec![quote("600519", "11"), quote("600000", "12"), quote("600519", "13")];
    let mine = quotes_for_symbol(&quotes, "600519");
    let prices: Vec<&str> = mine.iter().map(|q| q.current_price.as_str()).collect();
    assert_eq!(prices, vec!["11", "13"]);
    assert!(quotes_for_symbol(&quotes, "000001").is_empty());
}

#[test]
fn review_input_carries_the_security_and_its_citable_evidence() {
    let security = MarketSecurity {
        security_id: 3,
        symbol: "600519".into(),
        name: "测试证券".into(),
        market: "SSE".into(),
    };
    let holding = vec![JsonValue::parse("{\"symbol\":\"600519\"}").unwrap()];
    let news = vec![JsonValue::parse("{\"id\":12}").unwrap()];
    let input = security_review_input(
        41,
        "2026-08-07T07:05:00+00:00",
        None,
        5,
        &security,
        holding,
        Vec::new(),
        JsonValue::parse("{\"status\":\"INSUFFICIENT_HISTORY\"}").unwrap(),
        news,
        Vec::new(),
        JsonValue::parse("{\"status\":\"NO_DATA\"}").unwrap(),
        profile_context(None),
    );
    assert_eq!(input.prompt_version, "research-agent-evidence-v2");
    assert_eq!(input.manual_refresh_run_id, 41);
    assert_eq!(input.daily_review_id, 5);
    assert_eq!(input.security_id, 3);
    assert_eq!(input.security_symbol, "600519");
    assert_eq!(input.security.get("securityType").and_then(|v| v.as_str()), Some("STOCK"));
    assert_eq!(input.sector.get("status").and_then(|v| v.as_str()), Some("UNAVAILABLE"));
    assert_eq!(input.news.get("status").and_then(|v| v.as_str()), Some("AVAILABLE"));
    assert_eq!(input.events.get("status").and_then(|v| v.as_str()), Some("NO_DATA"));
    assert_eq!(
        input.market.get("snapshotCompletedAt").and_then(|v| v.as_str()),
        Some("2026-08-07T07:05:00+00:00")
    );
    let ids: Vec<&str> = input
        .research_context
        .get("allowedEvidenceIds")
        .and_then(|v| v.as_array())
        .unwrap()
        .iter()
        .map(|v| v.as_str().unwrap())
        .collect();
    assert!(ids.contains(&"MARKET"));
    assert!(ids.contains(&"NEWS:12"));
}

#[test]
fn provider_failure_keeps_the_raw_answer_only_as_a_failure_record() {
    let context = JsonValue::parse("{\"allowedEvidenceIds\":[\"MARKET\"]}").unwrap();
    let error = AiProviderError {
        message: "AI 返回格式无法解析".into(),
        http_status: Some(200),
        raw_response: Some("not json".into()),
    };
    match review_decision("deepseek", "deepseek-chat", 9, Err(error), &context) {
        ReviewDecision::Failed { error: AiServiceError::Provider(e), failure: Some(f) } => {
            assert_eq!(e.message, "AI 返回格式无法解析");
            assert_eq!(f.provider, "deepseek");
            assert_eq!(f.model, "deepseek-chat");
            assert_eq!(f.security_id, 9);
            assert_eq!(f.raw_response, "not json");
            assert_eq!(f.error_message, "AI 返回格式无法解析");
        }
        other => panic!("unexpected decision: {other:?}"),
    }
    let quiet = AiProviderError { message: "网络错误".into(), http_status: None, raw_response: None };
    assert!(matches!(
        review_decision("deepseek", "deepseek-chat", 9, Err(quiet), &context),
        ReviewDecision::Failed { error: AiServiceError::Provider(_), failure: None }
    ));
}

#[test]
fn empty_sections_never_become_a_review() {
    let context = JsonValue::parse("{\"allowedEvidenceIds\":[\"MARKET\"]}").unwrap();
    assert!(matches!(
        review_decision("deepseek", "deepseek-chat", 9, Ok(empty_sections()), &context),
        ReviewDecision::Failed { error: AiServiceError::InvalidOutput("AI投研报告缺少必填维度"), failure: None }
    ));
}

#[test]
fn the_first_failing_check_names_the_rejection() {
    let context = JsonValue::parse("{\"allowedEvidenceIds\":[\"MARKET\"]}").unwrap();
    let mut blank = empty_sections();
    blank.facts = vec!["   ".into()];
    assert!(matches!(
        review_decision("deepseek", "deepseek-chat", 9, Ok(blank), &context),
        ReviewDecision::Failed { error: AiServiceError::InvalidOutput("AI输出包含空内容"), failure: None }
    ));
    let mut advice = empty_sections();
    advice.risks = vec!["目标价为100元".into()];
    assert!(matches!(
        review_decision("deepseek", "deepseek-chat", 9, Ok(advice), &context),
        ReviewDecision::Failed {
            error: AiServiceError::InvalidOutput("AI输出包含禁止的投资建议或预测"),
            failure: None
        }
    ));
}
