use hero_call::disclosure::{classify_event, eastmoney_stock_code, http_body_length, parse_source_time};
use hero_call::events::EventType;

#[test]
fn source_time_and_event_type_are_preserved_without_inference() {
    assert_eq!(
        parse_source_time("2026-08-07 19:03:06:389").unwrap().to_rfc3339(),
        "2026-08-07T11:03:06.389+00:00"
    );
    assert_eq!(classify_event("公司2026年半年度报告"), EventType::Earnings);
    assert_eq!(classify_event("关于重大资产重组的公告"), EventType::MajorMatter);
    assert_eq!(classify_event("董事会决议公告"), EventType::CompanyAnnouncement);
}

#[test]
fn eastmoney_stock_code_accepts_plain_and_exchange_qualified_a_share_symbols() {
    assert_eq!(eastmoney_stock_code("300209").as_deref(), Some("300209"));
    assert_eq!(eastmoney_stock_code("300209.SZ").as_deref(), Some("300209"));
    assert_eq!(eastmoney_stock_code("600330.SH").as_deref(), Some("600330"));
    assert_eq!(eastmoney_stock_code("HK.00700"), None);
    assert_eq!(eastmoney_stock_code("30020"), None);
}

#[test]
fn http_status_marker_splits_body_and_checks_status() {
    let ok = b"{\"a\":1}\n__HERO_CALL_HTTP_STATUS__:200";
    assert_eq!(http_body_length(ok).unwrap(), 7);
    let twice = b"x\n__HERO_CALL_HTTP_STATUS__:500\n__HERO_CALL_HTTP_STATUS__: 204 \n";
    assert_eq!(http_body_length(twice).unwrap(), 31);
    let failed = b"{}\n__HERO_CALL_HTTP_STATUS__:404";
    assert_eq!(
        http_body_length(failed).unwrap_err().message,
        "东方财富公告请求失败（HTTP 404）"
    );
    let garbled = b"{}\n__HERO_CALL_HTTP_STATUS__:2x0";
    assert_eq!(
        http_body_length(garbled).unwrap_err().message,
        "东方财富公告请求 HTTP 状态异常"
    );
    let too_large = b"{}\n__HERO_CALL_HTTP_STATUS__:70000";
    assert_eq!(
        http_body_length(too_large).unwrap_err().message,
        "东方财富公告请求 HTTP 状态异常"
    );
    assert_eq!(
        http_body_length(b"{}").unwrap_err().message,
        "东方财富公告请求未返回 HTTP 状态"
    );
}

struct UnusedTransport;

impl hero_call::disclosure::AnnouncementTransport for UnusedTransport {
    fn fetch(
        &self,
        _: &str,
    ) -> Result<hero_call::disclosure::AnnouncementResponse, hero_call::disclosure::DisclosureAdapterError> {
        panic!("no request is made for a security without an announcement code")
    }
}

#[test]
fn securities_without_codes_are_skipped_without_a_request() {
    let securities = vec![hero_call::disclosure::DisclosureSecurity {
        id: 1,
        symbol: "HK.00700".into(),
        name: "腾讯控股".into(),
    }];
    let fetched_at = hero_call::time::UtcTime { seconds: 1_786_000_000, nanos: 0 };
    let found = hero_call::disclosure::EastmoneyAnnouncementAdapter
        .fetch_for_securities(&securities, fetched_at, &UnusedTransport)
        .unwrap();
    assert!(found.is_empty());
}
