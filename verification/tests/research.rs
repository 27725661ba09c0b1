use hero_call::research::{calculate_technical_snapshot, parse_eastmoney_history, PriceHistoryBar};
use hero_call::json::JsonValue;
use hero_call::research_context::{evidence_section, profile_context, research_context};

#[test]
fn technical_snapshot_is_calculated_from_twenty_real_bars() {
    let bars = (1..=20)
        .map(|day: i64| PriceHistoryBar {
            trade_date: format!("2026-08-{day:02}"),
            open: day.to_string(),
            high: (day + 1).to_string(),
            low: (day - 1).to_string(),
            close: day.to_string(),
            volume: (day * 10).to_string(),
            amount: "0".into(),
            change_percent: None,
        })
        .collect::<Vec<_>>();
    let snapshot = calculate_technical_snapshot(&bars);
    assert_eq!(snapshot.status, "AVAILABLE");
    assert_eq!(snapshot.ma5.as_deref(), Some("18"));
    assert_eq!(snapshot.ma20.as_deref(), Some("10.5"));
    assert_eq!(snapshot.high_20d.as_deref(), Some("21"));
}

#[test]
fn insufficient_history_is_explicit() {
    assert_eq!(calculate_technical_snapshot(&[]).status, "INSUFFICIENT_HISTORY");
}

#[test]
fn eastmoney_history_parser_preserves_source_fields_without_inference() {
    let bars = parse_eastmoney_history(
        r#"{"data":{"klines":["2026-08-07,10.00,10.50,10.80,9.90,1234,5678,0,5.00,0,0"]}}"#,
    )
    .unwrap();
    assert_eq!(bars.len(), 1);
    assert_eq!(bars[0].trade_date, "2026-08-07");
    assert_eq!(bars[0].close, "10.50");
    assert_eq!(bars[0].change_percent.as_deref(), Some("5.00"));
}

#[test]
fn evidence_sections_mark_missing_items_as_no_data() {
    let empty = evidence_section(Vec::new());
    assert_eq!(empty.get("status").and_then(|v| v.as_str()), Some("NO_DATA"));
    assert_eq!(empty.get("items").and_then(|v| v.as_array()).map(|v| v.len()), Some(0));
    let item = JsonValue::parse("{\"id\":7}").unwrap();
    let filled = evidence_section(vec![item]);
    assert_eq!(filled.get("status").and_then(|v| v.as_str()), Some("AVAILABLE"));
    let items = filled.get("items").and_then(|v| v.as_array()).unwrap();
    assert_eq!(items[0].get("id").and_then(|v| v.as_i64()), Some(7));
}

#[test]
fn research_context_lists_only_citable_evidence_ids() {
    let market = JsonValue::parse("{\"holding\":[{\"symbol\":\"600519\"}],\"indices\":[]}").unwrap();
    let news = evidence_section(vec![JsonValue::parse("{\"id\":12}").unwrap()]);
    let events = evidence_section(Vec::new());
    let intelligence = JsonValue::parse(
        "{\"verifiedIntelligence\":[{\"id\":5}],\"rumors\":[{\"id\":9}],\"communityOpinion\":[{\"id\":4}]}",
    )
    .unwrap();
    let context = research_context(profile_context(None), &market, &news, &events, &intelligence);
    let ids: Vec<&str> = context
        .get("allowedEvidenceIds")
        .and_then(|v| v.as_array())
        .unwrap()
        .iter()
        .map(|v| v.as_str().unwrap())
        .collect();
    assert_eq!(ids, vec!["INTELLIGENCE:5", "INTELLIGENCE:9", "MARKET", "NEWS:12", "NO_DATA"]);
}
