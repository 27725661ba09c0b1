//! User-triggered, source-backed market refreshes.
//!
//! A refresh selects only existing holdings, leaves the external work to market adapters and
//! reports what came back. A missing Tushare token is an explicit unconfigured state, never a
//! reason to fabricate a quote or to use a hidden fallback.
use vstd::prelude::*;

use crate::market::{market_status_code, MarketQuote, MarketSecurity, MarketSnapshot, MarketStoreError};
use crate::text::{concat2, str_eq};
use crate::time::rfc3339_text;

verus! {

#[derive(Debug, Clone, PartialEq, Eq)]
pub struct MarketRefreshView {
    pub source: String,
    pub configuration_status: String,
    pub status: String,
    pub quote_count: usize,
    pub market_timestamp: Option<String>,
    pub fetched_at: String,
    pub message: Option<String>,
}

#[derive(Debug, Clone, PartialEq, Eq)]
pub struct SnapshotSectionView {
    pub source: String,
    pub status: String,
    pub item_count: usize,
    pub updated_at: Option<String>,
    pub message: Option<String>,
}

#[derive(Debug, Clone, PartialEq, Eq)]
pub struct ManualMarketSnapshotView {
    pub holdings: MarketRefreshView,
    pub indices: SnapshotSectionView,
    pub news: SnapshotSectionView,
    pub events: SnapshotSectionView,
}

#[derive(Debug)]
pub enum MarketRefreshError {
    Database(String),
    Store(MarketStoreError),
}

impl MarketRefreshError {
    /// The text the error displays.
    pub fn message(&self) -> (r: String)
        ensures
            r@ == match *self {
                MarketRefreshError::Database(m) => "database error: "@ + m@,
                MarketRefreshError::Store(e) => "market snapshot storage error: "@ + e.message@,
            },
    {
        match self {
            MarketRefreshError::Database(m) => concat2("database error: ", m.as_str()),
            MarketRefreshError::Store(e) => concat2("market snapshot storage error: ", e.message.as_str()),
        }
    }
}

/// The RFC 3339 text of a time `chrono` can hold; absent otherwise.
pub open spec fn time_text(t: crate::time::UtcTime) -> Option<Seq<char>> {
    if t.valid() {
        Some(rfc3339_text(t))
    } else {
        None
    }
}

pub open spec fn opt_time_text_is(v: Option<String>, t: Option<crate::time::UtcTime>) -> bool {
    match t {
        Some(x) => match time_text(x) {
            Some(s) => v is Some && v->Some_0@ == s,
            None => v is None,
        },
        None => v is None,
    }
}

/// `v` reports the snapshot as a section.
pub open spec fn section_of(v: SnapshotSectionView, s: MarketSnapshot) -> bool {
    &&& v.source == s.source.name
    &&& v.status@ == market_status_code(s.delay_status)
    &&& v.item_count == s.quotes@.len()
    &&& opt_time_text_is(v.updated_at, s.market_timestamp)
    &&& v.message == s.unavailable_reason
}

/// `v` reports a holdings refresh; an unconfigured Tushare says how to configure it.
pub open spec fn refresh_view_of(v: MarketRefreshView, s: MarketSnapshot, configuration: Seq<char>) -> bool {
    &&& v.source == s.source.name
    &&& v.configuration_status@ == configuration
    &&& v.status@ == market_status_code(s.delay_status)
    &&& v.quote_count == s.quotes@.len()
    &&& opt_time_text_is(v.market_timestamp, s.market_timestamp)
    &&& v.fetched_at@ == (match time_text(s.fetched_at) {
        Some(t) => t,
        None => Seq::empty(),
    })
    &&& (if configuration == "UNCONFIGURED"@ {
        v.message is Some && v.message->Some_0@ == "Tushare 未配置；请在设置页保存 Token 到系统钥匙串。"@
    } else {
        v.message == s.unavailable_reason
    })
}

/// The board indices as securities to quote: code, name and market, with negative ids that no
/// holding uses.
pub open spec fn index_security_is(s: MarketSecurity, id: i64, symbol: Seq<char>, name: Seq<char>, market: Seq<char>) -> bool {
    s.security_id == id && s.symbol@ == symbol && s.name@ == name && s.market@ == market
}

/// The canonical code of a board index quote; other quotes keep their code.
pub open spec fn canonical_symbol(symbol: Seq<char>, market: Seq<char>) -> Seq<char> {
    if symbol == "000001"@ && market == "SSE"@ {
        "000001.SH"@
    } else if symbol == "399001"@ && market == "SZSE"@ {
        "399001.SZ"@
    } else if symbol == "399006"@ && market == "SZSE"@ {
        "399006.SZ"@
    } else if symbol == "000688"@ && market == "SSE"@ {
        "000688.SH"@
    } else {
        symbol
    }
}

/// `b` is `a` with its code made canonical.
pub open spec fn canonical_quote_of(b: MarketQuote, a: MarketQuote) -> bool {
    &&& b.symbol@ == canonical_symbol(a.symbol@, a.market@)
    &&& b == (MarketQuote { symbol: b.symbol, ..a })
}

fn security(id: i64, symbol: &str, name: &str, market: &str) -> (r: MarketSecurity)
    ensures
        index_security_is(r, id, symbol@, name@, market@),
{
    MarketSecurity {
        security_id: id,
        symbol: String::from_str(symbol),
        name: String::from_str(name),
        market: String::from_str(market),
    }
}

fn canonical_symbol_exec(symbol: &str, market: &str) -> (r: String)
    ensures
        r@ == canonical_symbol(symbol@, market@),
{
    if str_eq(symbol, "000001") && str_eq(market, "SSE") {
        String::from_str("000001.SH")
    } else if str_eq(symbol, "399001") && str_eq(market, "SZSE") {
        String::from_str("399001.SZ")
    } else if str_eq(symbol, "399006") && str_eq(market, "SZSE") {
        String::from_str("399006.SZ")
    } else if str_eq(symbol, "000688") && str_eq(market, "SSE") {
        String::from_str("000688.SH")
    } else {
        String::from_str(symbol)
    }
}

fn time_string(t: crate::time::UtcTime) -> (r: Option<String>)
    ensures
        match time_text(t) {
            Some(s) => r is Some && r->Some_0@ == s,
            None => r is None,
        },
{
    t.rfc3339_if_valid()
}

fn opt_time_string(t: Option<crate::time::UtcTime>) -> (r: Option<String>)
    ensures
        opt_time_text_is(r, t),
{
    match t {
        Some(x) => time_string(x),
        None => None,
    }
}

pub struct MarketRefreshService;

impl MarketRefreshService {
    /// The four board indices to quote.
    pub fn index_securities() -> (r: Vec<MarketSecurity>)
        ensures
            r@.len() == 4,
            index_security_is(r@[0], -1i64, "000001"@, "上证指数"@, "SSE"@),
            index_security_is(r@[1], -2i64, "399001"@, "深证成指"@, "SZSE"@),
            index_security_is(r@[2], -3i64, "399006"@, "创业板指"@, "SZSE"@),
            index_security_is(r@[3], -4i64, "000688"@, "科创50"@, "SSE"@),
    {
        let mut v: Vec<MarketSecurity> = Vec::new();
        v.push(security(-1, "000001", "上证指数", "SSE"));
        v.push(security(-2, "399001", "深证成指", "SZSE"));
        v.push(security(-3, "399006", "创业板指", "SZSE"));
        v.push(security(-4, "000688", "科创50", "SSE"));
        v
    }

    /// The index snapshot with board codes made canonical; nothing else changes.
    pub fn canonical_index_snapshot(snapshot: MarketSnapshot) -> (r: MarketSnapshot)
        ensures
            r.quotes@.len() == snapshot.quotes@.len(),
            forall|i: int| 0 <= i < r.quotes@.len() ==> canonical_quote_of(#[trigger] r.quotes@[i], snapshot.quotes@[i]),
            r == (MarketSnapshot { quotes: r.quotes, ..snapshot }),
    {
        let mut quotes: Vec<MarketQuote> = Vec::new();
        let mut i: usize = 0;
        while i < snapshot.quotes.len()
            invariant
                0 <= i <= snapshot.quotes@.len(),
                quotes@.len() == i,
                forall|k: int| 0 <= k < i ==> canonical_quote_of(#[trigger] quotes@[k], snapshot.quotes@[k]),
            decreases snapshot.quotes@.len() - i,
        {
            let q = &snapshot.quotes[i];
            let symbol = canonical_symbol_exec(q.symbol.as_str(), q.market.as_str());
            quotes.push(
                MarketQuote {
                    security_id: q.security_id,
                    symbol,
                    name: q.name.clone(),
                    market: q.market.clone(),
                    current_price: q.current_price,
                    previous_close: q.previous_close,
                    price_change: q.price_change,
                    change_percent: q.change_percent,
                    volume: q.volume,
                    volume_unit: q.volume_unit.clone(),
                    turnover_amount: q.turnover_amount,
                    turnover_unit: q.turnover_unit.clone(),
                    market_timestamp: q.market_timestamp,
                    fetched_at: q.fetched_at,
                    source: q.source.clone(),
                    delay_status: q.delay_status,
                },
            );
            i = i + 1;
        }
        MarketSnapshot {
            source: snapshot.source,
            market_timestamp: snapshot.market_timestamp,
            fetched_at: snapshot.fetched_at,
            delay_status: snapshot.delay_status,
            quotes,
            unavailable_reason: snapshot.unavailable_reason,
        }
    }

    /// The section of a snapshot.
    pub fn section_view(snapshot: MarketSnapshot) -> (r: SnapshotSectionView)
        ensures
            section_of(r, snapshot),
    {
        let item_count = snapshot.quotes.len();
        SnapshotSectionView {
            source: snapshot.source.name,
            status: String::from_str(snapshot.delay_status.as_str()),
            item_count,
            updated_at: opt_time_string(snapshot.market_timestamp),
            message: snapshot.unavailable_reason,
        }
    }

    /// The report of a holdings refresh with its configuration status.
    pub fn to_view(snapshot: MarketSnapshot, configuration_status: &str) -> (r: MarketRefreshView)
        ensures
            refresh_view_of(r, snapshot, configuration_status@),
    {
        let message = if str_eq(configuration_status, "UNCONFIGURED") {
            Some(String::from_str("Tushare 未配置；请在设置页保存 Token 到系统钥匙串。"))
        } else {
            snapshot.unavailable_reason
        };
        let quote_count = snapshot.quotes.len();
        let fetched_at = match time_string(snapshot.fetched_at) {
            Some(t) => t,
            None => String::new(),
        };
        MarketRefreshView {
            source: snapshot.source.name,
            configuration_status: String::from_str(configuration_status),
            status: String::from_str(snapshot.delay_status.as_str()),
            quote_count,
            market_timestamp: opt_time_string(snapshot.market_timestamp),
            fetched_at,
            message,
        }
    }

    /// The configuration of a holdings snapshot: with a token Tushare leads, else public sources
    /// only.
    pub fn holdings_configuration(tushare_configured: bool) -> (r: &'static str)
        ensures
            r@ == (if tushare_configured {
                "CONFIGURED"@
            } else {
                "PUBLIC_ONLY"@
            }),
    {
        if tushare_configured {
            "CONFIGURED"
        } else {
            "PUBLIC_ONLY"
        }
    }

    /// The configuration of a Tushare refresh.
    pub fn tushare_configuration(tushare_configured: bool) -> (r: &'static str)
        ensures
            r@ == (if tushare_configured {
                "CONFIGURED"@
            } else {
                "UNCONFIGURED"@
            }),
    {
        if tushare_configured {
            "CONFIGURED"
        } else {
            "UNCONFIGURED"
        }
    }

    /// A section whose source is not configured: no data and the reason.
    pub fn unconfigured_section(message: &str) -> (r: SnapshotSectionView)
        ensures
            r.source@ == "未配置数据源"@,
            r.status@ == "NO_DATA"@,
            r.item_count == 0,
            r.updated_at is None,
            r.message is Some && r.message->Some_0@ == message@,
    {
        SnapshotSectionView {
            source: String::from_str("未配置数据源"),
            status: String::from_str("NO_DATA"),
            item_count: 0,
            updated_at: None,
            message: Some(String::from_str(message)),
        }
    }

    /// The manual snapshot report: holdings and indices as fetched; news and events have no
    /// adapter yet and say so instead of inventing items.
    pub fn manual_snapshot_view(
        holdings: MarketSnapshot,
        indices: MarketSnapshot,
        tushare_configured: bool,
    ) -> (r: ManualMarketSnapshotView)
        ensures
            refresh_view_of(
                r.holdings,
                holdings,
                if tushare_configured {
                    "CONFIGURED"@
                } else {
                    "PUBLIC_ONLY"@
                },
            ),
            section_of(r.indices, indices),
            r.news.status@ == "NO_DATA"@ && r.news.item_count == 0,
            r.news.message is Some && r.news.message->Some_0@ == "新闻数据 Adapter 尚未配置；本次未保存新闻。"@,
            r.events.status@ == "NO_DATA"@ && r.events.item_count == 0,
            r.events.message is Some && r.events.message->Some_0@ == "事件数据 Adapter 尚未配置；本次未保存事件。"@,
    {
        let configuration = Self::holdings_configuration(tushare_configured);
        proof {
            lemma_configurations_differ();
        }
        ManualMarketSnapshotView {
            holdings: Self::to_view(holdings, configuration),
            indices: Self::section_view(indices),
            news: Self::unconfigured_section("新闻数据 Adapter 尚未配置；本次未保存新闻。"),
            events: Self::unconfigured_section("事件数据 Adapter 尚未配置；本次未保存事件。"),
        }
    }
}

proof fn lemma_configurations_differ()
    ensures
        "CONFIGURED"@ != "UNCONFIGURED"@,
        "PUBLIC_ONLY"@ != "UNCONFIGURED"@,
{
    reveal_strlit("CONFIGURED");
    reveal_strlit("PUBLIC_ONLY");
    reveal_strlit("UNCONFIGURED");
    assert("CONFIGURED"@[0] != "UNCONFIGURED"@[0]);
    assert("PUBLIC_ONLY"@[0] != "UNCONFIGURED"@[0]);
}

} // verus!
