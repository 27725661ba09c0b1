use chrono::{TimeZone, Utc};
use hero_call::decimal::Dec;
use hero_call::json::JsonValue;
use hero_call::market::{
    determine_status, DataSourcePriority, MarketAdapterError, MarketDataAdapter, MarketDataSource,
    MarketFetchRequest, MarketPhase, MarketSecurity, MarketService, MarketSnapshot, MarketStatus,
    RawMarketQuote, SourceClass,
};
use hero_call::market_refresh::MarketRefreshService;
use hero_call::providers::{parse_eastmoney_quotes, parse_tushare_daily, TushareAdapter};
use hero_call::time::UtcTime;

fn decimal(value: &str) -> Dec {
    Dec::parse(value).expect("valid decimal")
}

fn utc(y: i32, mo: u32, d: u32, h: u32, mi: u32, s: u32) -> UtcTime {
    let t = Utc.with_ymd_and_hms(y, mo, d, h, mi, s).unwrap();
    UtcTime { seconds: t.timestamp(), nanos: 0 }
}

fn shifted(t: UtcTime, seconds: i64) -> UtcTime {
    UtcTime { seconds: t.seconds + seconds, nanos: t.nanos }
}

fn security() -> MarketSecurity {
    MarketSecurity {
        security_id: 42,
        symbol: "600519".into(),
        name: "测试夹具证券".into(),
        market: "SSE".into(),
    }
}

fn source(source_class: SourceClass) -> MarketDataSource {
    MarketDataSource {
        name: "Recorded test provider".into(),
        base_url: "https://test.invalid/market".into(),
        priority: DataSourcePriority::PublicQuote,
        source_class,
    }
}

fn raw_quote(market_timestamp: UtcTime) -> RawMarketQuote {
    RawMarketQuote {
        security: security(),
        current_price: decimal("1500"),
        previous_close: decimal("1490"),
        price_change: decimal("10"),
        change_percent: decimal("0.6711"),
        volume: decimal("100"),
        volume_unit: "LOTS".into(),
        turnover_amount: decimal("150000"),
        turnover_unit: "CNY".into(),
        market_timestamp,
    }
}

struct RecordedAdapter {
    response: Result<Vec<RawMarketQuote>, MarketAdapterError>,
}

impl MarketDataAdapter for RecordedAdapter {
    fn source(&self) -> MarketDataSource {
        source(SourceClass::PublicQuote)
    }

    fn fetch(&self, _: &MarketFetchRequest) -> Result<Vec<RawMarketQuote>, MarketAdapterError> {
        self.response.clone()
    }
}

fn request(at: UtcTime, market_phase: MarketPhase) -> MarketFetchRequest {
    MarketFetchRequest { securities: vec![security()], market_phase, fetched_at: at }
}

#[test]
fn adapter_contract_normalizes_required_quote_metadata() {
    let now = utc(2026, 8, 10, 2, 0, 30);
    let adapter = RecordedAdapter { response: Ok(vec![raw_quote(shifted(now, -30))]) };

    let snapshot = MarketService::fetch_snapshot(&adapter, &request(now, MarketPhase::Trading));

    assert_eq!(snapshot.delay_status, MarketStatus::Delayed);
    assert_eq!(snapshot.quotes.len(), 1);
    let quote = &snapshot.quotes[0];
    assert_eq!(quote.symbol, "600519");
    assert_eq!(quote.name, "测试夹具证券");
    assert!(quote.current_price.same_value(&decimal("1500")));
    assert!(quote.previous_close.same_value(&decimal("1490")));
    assert!(quote.price_change.same_value(&decimal("10")));
    assert!(quote.change_percent.same_value(&decimal("0.6711")));
    assert_eq!(quote.source, "Recorded test provider");
    assert_eq!(quote.fetched_at, now);
}

#[test]
fn adapter_failure_returns_no_data_without_a_substitute_quote() {
    let now = utc(2026, 8, 10, 2, 0, 0);
    let adapter = RecordedAdapter {
        response: Err(MarketAdapterError::Unavailable("test network outage".into())),
    };

    let snapshot = MarketService::fetch_snapshot(&adapter, &request(now, MarketPhase::Trading));

    assert_eq!(snapshot.delay_status, MarketStatus::NoData);
    assert!(snapshot.quotes.is_empty());
    assert!(snapshot.unavailable_reason.is_some());
}

#[test]
fn empty_provider_response_returns_no_data() {
    let now = utc(2026, 8, 10, 2, 0, 0);
    let adapter = RecordedAdapter { response: Ok(vec![]) };

    let snapshot = MarketService::fetch_snapshot(&adapter, &request(now, MarketPhase::Trading));

    assert_eq!(snapshot.delay_status, MarketStatus::NoData);
    assert!(snapshot.quotes.is_empty());
}

#[test]
fn fallback_uses_the_next_adapter_but_preserves_its_actual_source() {
    let now = utc(2026, 8, 10, 2, 0, 0);
    let unavailable = RecordedAdapter { response: Err(MarketAdapterError::NoData) };
    let fallback = RecordedAdapter { response: Ok(vec![raw_quote(now)]) };

    let snapshot = MarketService::fetch_with_fallback(
        &[&unavailable, &fallback],
        &request(now, MarketPhase::Trading),
    );

    assert_eq!(snapshot.delay_status, MarketStatus::Delayed);
    assert_eq!(snapshot.source.name, "Recorded test provider");
}

#[test]
fn status_distinguishes_authorized_realtime_delayed_closed_and_stale() {
    let now = utc(2026, 8, 10, 2, 10, 0);
    assert_eq!(
        determine_status(SourceClass::AuthorizedRealtime, MarketPhase::Trading, shifted(now, -59), now),
        MarketStatus::Realtime
    );
    assert_eq!(
        determine_status(SourceClass::AuthorizedRealtime, MarketPhase::Trading, shifted(now, -120), now),
        MarketStatus::Delayed
    );
    assert_eq!(
        determine_status(SourceClass::AuthorizedRealtime, MarketPhase::Trading, shifted(now, -360), now),
        MarketStatus::NoData
    );
    assert_eq!(
        determine_status(SourceClass::PublicQuote, MarketPhase::Trading, now, now),
        MarketStatus::Delayed
    );
    assert_eq!(
        determine_status(SourceClass::EndOfDay, MarketPhase::Trading, shifted(now, -86_400), now),
        MarketStatus::Closed
    );
}

#[test]
fn eastmoney_recorded_response_maps_to_canonical_quote() {
    let response = JsonValue::parse(
        r#"{"data":{"diff":[{"f2":1500.5,"f3":0.67,"f4":10,"f5":100,"f6":150000,"f12":"600519","f14":"测试夹具证券","f18":1490.5,"f124":1786327200}]}}"#,
    )
    .unwrap();

    let quotes = parse_eastmoney_quotes(&response, &vec![security()]).unwrap();

    assert_eq!(quotes.len(), 1);
    assert!(quotes[0].current_price.same_value(&decimal("1500.5")));
    assert!(quotes[0].previous_close.same_value(&decimal("1490.5")));
    assert_eq!(quotes[0].market_timestamp, UtcTime { seconds: 1786327200, nanos: 0 });
}

#[test]
fn tushare_recorded_daily_response_maps_to_closed_quote_fields() {
    let response = JsonValue::parse(
        r#"{"code":0,"data":{"fields":["ts_code","trade_date","close","pre_close","change","pct_chg","vol","amount"],"items":[["600519.SH","20260810",1500.5,1490.5,10,0.67,100,150000]]}}"#,
    )
    .unwrap();

    let quotes = parse_tushare_daily(&response, &security()).unwrap();
    let adapter = TushareAdapter::new().unwrap();

    assert_eq!(adapter.source().source_class, SourceClass::EndOfDay);
    assert_eq!(quotes.len(), 1);
    assert!(quotes[0].current_price.same_value(&decimal("1500.5")));
    assert!(quotes[0].previous_close.same_value(&decimal("1490.5")));
    assert_eq!(quotes[0].volume_unit, "LOTS");
    assert_eq!(quotes[0].turnover_unit, "THOUSAND_CNY");
}

fn snapshot(name: &str, status: MarketStatus, at: UtcTime, market_timestamp: Option<UtcTime>, reason: Option<&str>) -> MarketSnapshot {
    MarketSnapshot {
        source: MarketDataSource {
            name: name.into(),
            base_url: "https://example.invalid".into(),
            priority: DataSourcePriority::PublicQuote,
            source_class: SourceClass::PublicQuote,
        },
        market_timestamp,
        fetched_at: at,
        delay_status: status,
        quotes: Vec::new(),
        unavailable_reason: reason.map(|r| r.to_string()),
    }
}

#[test]
fn unconfigured_tushare_state_is_explicit_and_has_no_quote_values() {
    let fetched_at = utc(2026, 8, 8, 1, 0, 0);
    let view = MarketRefreshService::to_view(
        snapshot("Tushare", MarketStatus::NoData, fetched_at, None, Some("adapter configuration error")),
        "UNCONFIGURED",
    );

    assert_eq!(view.configuration_status, "UNCONFIGURED");
    assert_eq!(view.status, "NO_DATA");
    assert_eq!(view.quote_count, 0);
    assert_eq!(view.market_timestamp, None);
    assert!(view.message.expect("safe message").contains("未配置"));
}

#[test]
fn manual_snapshot_section_preserves_source_status_and_time() {
    let timestamp = utc(2026, 8, 8, 1, 0, 0);
    let section = MarketRefreshService::section_view(snapshot(
        "东方财富公开行情",
        MarketStatus::Delayed,
        timestamp,
        Some(timestamp),
        None,
    ));
    assert_eq!(section.source, "东方财富公开行情");
    assert_eq!(section.status, "DELAYED");
    assert_eq!(
        section.updated_at,
        Some(Utc.with_ymd_and_hms(2026, 8, 8, 1, 0, 0).unwrap().to_rfc3339())
    );
}

#[test]
fn index_quotes_get_canonical_board_codes() {
    let securities = MarketRefreshService::index_securities();
    assert_eq!(securities.len(), 4);
    assert_eq!(securities[3].symbol, "000688");
    let now = utc(2026, 8, 8, 1, 0, 0);
    let adapter = RecordedAdapter {
        response: Ok(vec![RawMarketQuote { security: securities[0].clone(), ..raw_quote(now) }]),
    };
    let fetched = MarketService::fetch_snapshot(
        &adapter,
        &MarketFetchRequest { securities, market_phase: MarketPhase::Unknown, fetched_at: now },
    );
    let canonical = MarketRefreshService::canonical_index_snapshot(fetched);
    assert_eq!(canonical.quotes[0].symbol, "000001.SH");
}

#[test]
fn manual_snapshot_reports_missing_news_and_event_adapters() {
    let now = utc(2026, 8, 8, 1, 0, 0);
    let view = MarketRefreshService::manual_snapshot_view(
        snapshot("东方财富公开行情", MarketStatus::Delayed, now, Some(now), None),
        snapshot("东方财富公开行情", MarketStatus::NoData, now, None, Some("none")),
        false,
    );
    assert_eq!(view.holdings.configuration_status, "PUBLIC_ONLY");
    assert_eq!(view.news.status, "NO_DATA");
    assert_eq!(view.events.source, "未配置数据源");
}
