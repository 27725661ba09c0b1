use hero_call::ai_report::{AiReviewSections, AiServiceError};
use hero_call::ai_response::parse_and_normalize_provider_sections;

fn lists(facts: &[&str], inferences: &[&str], risks: &[&str]) -> AiReviewSections {
    let strings = |items: &[&str]| items.iter().map(|item| item.to_string()).collect::<Vec<_>>();
    AiReviewSections {
        facts: strings(facts),
        inferences: strings(inferences),
        risks: strings(risks),
        stock_status: None,
        market_analysis: None,
        sector_analysis: None,
        news_analysis: None,
        technical_analysis: None,
        strategy_reference: None,
        conclusion: None,
        actions: None,
        core_drivers: None,
        market_thesis: None,
        bull_bear_analysis: None,
        future_catalysts: None,
        risk_factors: None,
        research_score: None,
    }
}

#[test]
fn invalid_json_and_prohibited_content_are_rejected() {
    // `{"facts":[]}` lacks the other two lists, so it has no typed reading.
    assert!(parse_and_normalize_provider_sections(r#"{"facts":[]}"#, None).is_err());
    let text = r#"{"facts":["行情暂无数据"],"inferences":["目标价为100元"],"risks":["需要核验来源"]}"#;
    let typed = lists(&["行情暂无数据"], &["目标价为100元"], &["需要核验来源"]);
    assert!(matches!(
        parse_and_normalize_provider_sections(text, Some(typed)),
        Err(AiServiceError::InvalidOutput(_))
    ));
}

#[test]
fn response_normalizer_maps_explicit_chinese_fields_without_inventing_data() {
    let normalized = parse_and_normalize_provider_sections(
        r#"{
          "当前个股情况":"个股行情来自已保存快照",
          "市场环境分析":"市场指数本次快照已保存",
          "消息面分析":"暂无关联公告",
          "技术面分析":["短期走势暂无完整数据"],
          "风险提示":"需要核验后续数据",
          "策略参考":"本报告不提供交易建议，建议观察公告",
          "summary":"仅基于本次保存数据"
        }"#,
        None,
    )
    .expect("normalize compatible response");
    assert_eq!(normalized.facts.len(), 3);
    assert_eq!(normalized.inferences, vec!["短期走势暂无完整数据"]);
    assert_eq!(normalized.risks, vec!["需要核验后续数据"]);
    assert_eq!(
        normalized.strategy_reference.as_deref(),
        Some("本报告不提供交易建议，建议观察公告")
    );
}

#[test]
fn response_normalizer_accepts_summary_style_provider_payload() {
    let normalized = parse_and_normalize_provider_sections(
        r#"{"analysis":"市场分析仅以本次快照为准","summary":"继续关注后续公告"}"#,
        None,
    )
    .expect("normalize summary style response");
    assert_eq!(normalized.facts, vec!["市场分析仅以本次快照为准"]);
    assert_eq!(normalized.conclusion.as_deref(), Some("继续关注后续公告"));
}

#[test]
fn response_normalizer_rejects_unmappable_payloads() {
    assert!(matches!(
        parse_and_normalize_provider_sections(r#"["unexpected", "array"]"#, None),
        Err(AiServiceError::InvalidOutput("AI_REVIEW_PARSE_FAILED"))
    ));
}
