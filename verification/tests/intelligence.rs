use chrono::{Duration, Utc};
use hero_call::disclosure::DisclosureSecurity;
use hero_call::events::{order_events, EventStatus, EventView};
use hero_call::intelligence::{
    byte_prefix_of, flash_records, parse_eastmoney_time, topic_key, CredibilityLevel, FlashItem,
    FlashResponse, EastmoneyFlashNewsProvider, IntelligenceInput, IntelligenceProvider,
    IntelligenceService, IntelligenceServiceError, IntelligenceSourceType,
    OptionalCommunityProvider,
};
use hero_call::news::{NewsArticleInput, NewsSourceType};
use hero_call::records::{IntelligenceItem, IntelligenceItemWithSecurity, WatchlistItemData};
use hero_call::time::UtcTime;

fn input(
    title: &str,
    source: &str,
    kind: IntelligenceSourceType,
    credibility: CredibilityLevel,
    security_id: i64,
) -> IntelligenceInput {
    IntelligenceInput {
        title: title.into(),
        summary: title.into(),
        source: source.into(),
        source_type: kind,
        source_url: None,
        published_at: "2026-08-11T08:00:00Z".into(),
        fetched_at: "2026-08-11T08:01:00Z".into(),
        credibility_level: credibility,
        intelligence_type: "TEST".into(),
        security_ids: vec![security_id],
        status: if kind == IntelligenceSourceType::Rumor {
            "UNVERIFIED".into()
        } else {
            "ACTIVE".into()
        },
    }
}

fn stored(id: i64, title: &str, source: &str, source_type: &str, level: &str, score: i64) -> IntelligenceItemWithSecurity {
    IntelligenceItemWithSecurity {
        security_id: 9,
        security_name: "测试科技".into(),
        security_symbol: "300209".into(),
        item: IntelligenceItem {
            id,
            title: title.into(),
            summary: title.into(),
            source: source.into(),
            source_type: source_type.into(),
            source_url: None,
            published_at: "2026-08-11T08:00:00Z".into(),
            fetched_at: "2026-08-11T08:01:00Z".into(),
            credibility_level: level.into(),
            intelligence_type: "TEST".into(),
            dedup_key: format!("{title}|2026-08-11"),
            topic_key: title.into(),
            importance_score: score,
            heat_score: 1,
            status: "ACTIVE".into(),
        },
    }
}

fn event_at(time: String, source: &str) -> EventView {
    EventView {
        id: 1,
        event_type: "EARNINGS".into(),
        title: "财报披露".into(),
        event_time: time,
        timezone: "Asia/Shanghai".into(),
        source: source.into(),
        source_url: None,
        status: "CONFIRMED".into(),
        related_security: Some("测试科技 (300209)".into()),
        holding_related: true,
    }
}

#[test]
fn rumor_is_explicitly_unverified_and_radar_groups_future_windows() {
    let rumor = input("市场传闻", "传闻", IntelligenceSourceType::Rumor, CredibilityLevel::E, 1);
    assert_eq!(rumor.status, "UNVERIFIED");
    let event = event_at((Utc::now() + Duration::hours(20)).to_rfc3339(), "交易所");
    let radar = IntelligenceService::market_radar(vec![event]);
    assert_eq!(radar.next_24_hours.len(), 1);
    assert_eq!(radar.next_3_days.len(), 1);
    assert_eq!(radar.next_7_days.len(), 1);
}

#[test]
fn radar_windows_nest_and_drop_past_and_distant_events() {
    let now = UtcTime { seconds: 1_786_000_000, nanos: 0 };
    let at = |hours: i64| {
        chrono::DateTime::<Utc>::from_timestamp(1_786_000_000 + hours * 3600, 0)
            .unwrap()
            .to_rfc3339()
    };
    let events = vec![
        event_at(at(2), "交易所"),
        event_at(at(48), "财经日历"),
        event_at(at(100), "监管公告"),
        event_at(at(200), "交易所"),
        event_at(at(-3), "交易所"),
        event_at("not a time".into(), "交易所"),
    ];
    let radar = IntelligenceService::market_radar_at(events, now);
    assert_eq!(radar.next_24_hours.len(), 1);
    assert_eq!(radar.next_3_days.len(), 2);
    assert_eq!(radar.next_7_days.len(), 3);
    assert_eq!(radar.next_3_days[1].credibility_level, "C");
    assert_eq!(radar.next_7_days[2].credibility_level, "A");
    assert_eq!(radar.next_7_days[0].potential_impact, "UNCERTAIN");
}

#[test]
fn ingest_refuses_items_without_title_summary_or_security() {
    let mut blank = input("  ", "交易所", IntelligenceSourceType::Official, CredibilityLevel::A, 1);
    blank.summary = "摘要".into();
    assert_eq!(
        IntelligenceService::plan_ingest(blank).err(),
        Some(IntelligenceServiceError::Validation("情报缺少标题、摘要或关联证券"))
    );
    let mut unlinked = input("官方公告", "交易所", IntelligenceSourceType::Official, CredibilityLevel::A, 1);
    unlinked.security_ids.clear();
    assert!(IntelligenceService::plan_ingest(unlinked).is_err());
}

#[test]
fn ingest_plan_scores_credibility_and_confirms_only_first_party_items() {
    let official = IntelligenceService::plan_ingest(input(
        "Official Notice: 2026!",
        "交易所",
        IntelligenceSourceType::Official,
        CredibilityLevel::A,
        3,
    ))
    .unwrap();
    assert_eq!(official.item.importance_score, 500);
    assert_eq!(official.item.source_type, "OFFICIAL");
    assert_eq!(official.item.credibility_level, "A");
    assert_eq!(official.item.topic_key, "officialnotice2026");
    assert_eq!(official.item.dedup_key, "officialnotice2026|2026-08-11");
    assert_eq!(official.security_ids, vec![3]);
    assert!(official.confirms_rumors);

    let community = IntelligenceService::plan_ingest(input(
        "社区传闻",
        "社区",
        IntelligenceSourceType::Community,
        CredibilityLevel::D,
        3,
    ))
    .unwrap();
    assert_eq!(community.item.importance_score, 200);
    assert!(!community.confirms_rumors);
}

#[test]
fn dedup_key_prefers_the_source_link() {
    let mut linked = input("公告", "交易所", IntelligenceSourceType::Official, CredibilityLevel::A, 3);
    linked.source_url = Some("https://example.invalid/a".into());
    let plan = IntelligenceService::plan_ingest(linked).unwrap();
    assert_eq!(plan.item.dedup_key, "https://example.invalid/a");
}

#[test]
fn topic_key_keeps_at_most_twenty_four_characters() {
    let title = "一二三四五六七八九十一二三四五六七八九十一二三四五六";
    assert_eq!(topic_key(title).chars().count(), 24);
    assert_eq!(topic_key("A-b c"), "abc");
}

#[test]
fn byte_prefix_follows_str_get() {
    assert_eq!(byte_prefix_of("2026-08-11T08:00:00Z", 10).as_deref(), Some("2026-08-11"));
    assert_eq!(byte_prefix_of("短", 10), None);
    assert_eq!(byte_prefix_of("一二三四", 10), None);
    assert_eq!(byte_prefix_of("a一二三", 10).as_deref(), Some("a一二三"));
}

#[test]
fn news_articles_become_intelligence_with_their_credibility() {
    let article = NewsArticleInput {
        title: "年度报告".into(),
        source: "交易所".into(),
        source_type: NewsSourceType::Media,
        published_at: "2026-08-11T08:00:00Z".into(),
        fetch_time: "2026-08-11T08:01:00Z".into(),
        summary: "摘要".into(),
        url: "https://example.invalid/n".into(),
        related_security_id: Some(4),
    };
    let converted = IntelligenceService::from_news_input(&article).unwrap();
    assert_eq!(converted.source_type, IntelligenceSourceType::News);
    assert_eq!(converted.credibility_level, CredibilityLevel::B);
    assert_eq!(converted.security_ids, vec![4]);
    assert_eq!(converted.intelligence_type, "DISCLOSURE");
    let mut unlinked = article.clone();
    unlinked.related_security_id = None;
    assert!(IntelligenceService::from_news_input(&unlinked).is_none());
}

#[test]
fn same_source_duplicates_collapse_but_independent_sources_stay() {
    let records = vec![
        stored(1, "同一事项", "社区", "RUMOR", "E", 100),
        stored(2, "同一事项", "交易所", "OFFICIAL", "A", 500),
        stored(3, "同一事项", "交易所", "OFFICIAL", "A", 500),
    ];
    let view = IntelligenceService::build_security_view(records);
    assert_eq!(view.important_items.len(), 2);
    assert_eq!(view.important_items[0].id, 2);
    assert_eq!(view.important_items[1].id, 1);
    assert_eq!(view.rumors.len(), 1);
    assert_eq!(view.rumors[0].id, 1);
    assert_eq!(view.topics.len(), 1);
    assert_eq!(view.topics[0].source_count, 2);
    assert_eq!(view.topics[0].source_types, vec!["OFFICIAL".to_string(), "RUMOR".to_string()]);
    assert_eq!(view.topics[0].credibility_levels, vec!["A".to_string(), "E".to_string()]);
    assert_eq!(view.discussion_heat, "NORMAL");
    assert_eq!(view.security_name, "测试科技");
    assert_eq!(
        view.summary,
        "当前已聚合 3 条可追溯情报，核心主题为同一事项；舆情方向为暂无趋势判断。"
    );
}

#[test]
fn community_sentiment_counts_distinct_words() {
    let records = vec![
        stored(1, "业绩增长 利好", "论坛", "COMMUNITY", "D", 200),
        stored(2, "存在风险", "论坛", "SOCIAL", "D", 200),
        stored(3, "下跌", "交易所", "OFFICIAL", "A", 500),
    ];
    let view = IntelligenceService::build_security_view(records);
    assert_eq!(view.sentiment, "偏积极");
    assert_eq!(view.community_opinions, vec!["业绩增长 利好".to_string(), "存在风险".to_string()]);
}

#[test]
fn run_summary_keeps_community_out_of_verified_facts() {
    let records = vec![
        stored(1, "官方公告", "交易所", "OFFICIAL", "A", 500),
        stored(2, "社区传闻", "社区", "COMMUNITY", "D", 200),
    ];
    let summary = IntelligenceService::summary_for_records(records);
    assert_eq!(summary.verified_intelligence.len(), 1);
    assert_eq!(summary.verified_intelligence[0].id, 1);
    assert_eq!(summary.community_opinion, vec!["社区传闻".to_string()]);
}

#[test]
fn followed_security_without_intelligence_has_an_explicit_empty_state() {
    let watch = vec![WatchlistItemData {
        watchlist_item_id: 1,
        security_id: 9,
        name: "测试科技".into(),
        symbol: "300209".into(),
        market: "SZSE".into(),
        security_type: "STOCK".into(),
        created_at: "2026-08-11T08:00:00Z".into(),
        current_price: None,
        change_percent: None,
        quote_status: None,
        profile_status: None,
    }];
    let view = IntelligenceService::followed_view(&watch, &Vec::new());
    assert_eq!(view.securities.len(), 1);
    assert_eq!(view.securities[0].discussion_heat, "NO_DATA");
    assert!(view.securities[0].important_items.is_empty());
    assert_eq!(view.partial_unavailable_sources, vec!["社区舆情 Provider 未配置".to_string()]);

    let with_items = IntelligenceService::followed_view(&watch, &vec![stored(5, "公告", "交易所", "OFFICIAL", "A", 500)]);
    assert_eq!(with_items.securities[0].important_items.len(), 1);
}

#[test]
fn flash_feed_keeps_only_entries_naming_a_followed_security() {
    let securities = vec![DisclosureSecurity { id: 7, symbol: "300209".into(), name: "测试科技".into() }];
    let items = vec![
        FlashItem {
            code: Some("202608110001".into()),
            show_time: Some("2026-08-11 16:00:00".into()),
            title: Some(" 测试科技中标大单 ".into()),
            summary: None,
        },
        FlashItem {
            code: None,
            show_time: Some("2026-08-11 16:00:00".into()),
            title: Some("大盘收涨".into()),
            summary: Some("无关".into()),
        },
        FlashItem { code: None, show_time: None, title: Some("300209 公告".into()), summary: None },
    ];
    let records = flash_records(&securities, &items, "2026-08-11T08:30:00+00:00");
    assert_eq!(records.len(), 1);
    assert_eq!(records[0].title, "测试科技中标大单");
    assert_eq!(records[0].summary, "测试科技中标大单");
    assert_eq!(records[0].published_at, "2026-08-11T08:00:00+00:00");
    assert_eq!(records[0].source_url.as_deref(), Some("https://finance.eastmoney.com/a/202608110001.html"));
    assert_eq!(records[0].security_ids, vec![7]);
    assert_eq!(records[0].credibility_level, CredibilityLevel::B);

    let refused = EastmoneyFlashNewsProvider::records_from_response(
        &securities,
        &FlashResponse { code: Some("0".into()), list: items },
        "2026-08-11T08:30:00+00:00",
    );
    assert!(refused.is_err());
}

#[test]
fn eastmoney_time_is_read_as_china_time() {
    assert_eq!(parse_eastmoney_time(" 2026-08-11 16:00:00 ").as_deref(), Some("2026-08-11T08:00:00+00:00"));
    assert_eq!(parse_eastmoney_time("yesterday"), None);
}

#[test]
fn community_provider_is_not_configured() {
    let provider = OptionalCommunityProvider;
    assert_eq!(provider.source_type(), IntelligenceSourceType::Community);
    assert!(provider.fetch(&[]).is_err());
}

fn listed_event(id: i64, time: &str, status: &str, holding: bool) -> EventView {
    let mut e = event_at(time.to_string(), "测试公告来源");
    e.id = id;
    e.status = status.into();
    e.holding_related = holding;
    if !holding {
        e.related_security = None;
    }
    e
}

#[test]
fn event_listing_puts_held_securities_first_then_time_then_id() {
    let events = || {
        vec![
            listed_event(1, "2026-08-07T09:00:00+08:00", "CONFIRMED", false),
            listed_event(2, "2026-08-09T09:00:00+08:00", "CONFIRMED", true),
            listed_event(3, "2026-08-10T09:00:00+08:00", "UNCONFIRMED", true),
            listed_event(4, "2026-08-09T01:00:00Z", "CONFIRMED", true),
        ]
    };
    let all = order_events(events(), None);
    assert_eq!(all.iter().map(|e| e.id).collect::<Vec<_>>(), vec![2, 4, 3, 1]);
    let confirmed = order_events(events(), Some(EventStatus::Confirmed));
    assert_eq!(confirmed.iter().map(|e| e.id).collect::<Vec<_>>(), vec![2, 4, 1]);
}
