//! Market data: adapter contracts, canonical quote normalization and snapshot persistence ports.
//!
//! A quote is never manufactured: a failed, incomplete or unverified provider response becomes a
//! `NO_DATA` snapshot instead of a substitute price.
use vstd::prelude::*;

use crate::decimal::{greater, greater_or_equal, lemma_order_with_zero, Dec};
use crate::time::{now_utc, UtcTime, NANOS_PER_SECOND};
use crate::text::concat2;

verus! {

#[derive(Debug, Clone, Copy, PartialEq, Eq, Structural)]
pub enum MarketStatus {
    Realtime,
    Delayed,
    Closed,
    NoData,
}

pub open spec fn market_status_code(s: MarketStatus) -> Seq<char> {
    match s {
        MarketStatus::Realtime => "REALTIME"@,
        MarketStatus::Delayed => "DELAYED"@,
        MarketStatus::Closed => "CLOSED"@,
        MarketStatus::NoData => "NO_DATA"@,
    }
}

impl MarketStatus {
    pub fn as_str(self) -> (r: &'static str)
        ensures
            r@ == market_status_code(self),
    {
        match self {
            MarketStatus::Realtime => "REALTIME",
            MarketStatus::Delayed => "DELAYED",
            MarketStatus::Closed => "CLOSED",
            MarketStatus::NoData => "NO_DATA",
        }
    }
}

#[derive(Debug, Clone, Copy, PartialEq, Eq, Structural)]
pub enum MarketPhase {
    /// A confirmed trading session.
    Trading,
    Closed,
    Unknown,
}

#[derive(Debug, Clone, Copy, PartialEq, Eq, Structural)]
pub enum SourceClass {
    /// A provider contract explicitly licenses real-time use.
    AuthorizedRealtime,
    /// A public quote endpoint. It is always labelled delayed during a trading session.
    PublicQuote,
    /// A valid end-of-day record, not an intraday quote.
    EndOfDay,
}

#[derive(Debug, Clone, Copy, PartialEq, Eq, Structural)]
pub enum DataSourcePriority {
    PrimaryApi,
    PublicQuote,
    Backup,
}

impl DataSourcePriority {
    pub fn as_i64(self) -> (r: i64)
        ensures
            r == match self {
                DataSourcePriority::PrimaryApi => 1i64,
                DataSourcePriority::PublicQuote => 2i64,
                DataSourcePriority::Backup => 3i64,
            },
    {
        match self {
            DataSourcePriority::PrimaryApi => 1,
            DataSourcePriority::PublicQuote => 2,
            DataSourcePriority::Backup => 3,
        }
    }
}

#[derive(Debug)]
pub struct MarketDataSource {
    pub name: String,
    pub base_url: String,
    pub priority: DataSourcePriority,
    pub source_class: SourceClass,
}

impl Clone for MarketDataSource {
    fn clone(&self) -> (r: Self)
        ensures
            r == *self,
    {
        MarketDataSource {
            name: self.name.clone(),
            base_url: self.base_url.clone(),
            priority: self.priority,
            source_class: self.source_class,
        }
    }
}

#[derive(Debug)]
pub struct MarketSecurity {
    pub security_id: i64,
    pub symbol: String,
    pub name: String,
    pub market: String,
}

impl Clone for MarketSecurity {
    fn clone(&self) -> (r: Self)
        ensures
            r == *self,
    {
        MarketSecurity {
            security_id: self.security_id,
            symbol: self.symbol.clone(),
            name: self.name.clone(),
            market: self.market.clone(),
        }
    }
}

#[derive(Debug)]
pub struct MarketFetchRequest {
    pub securities: Vec<MarketSecurity>,
    pub market_phase: MarketPhase,
    /// Supplied by the caller to keep source-time and local retrieval-time independently traceable.
    pub fetched_at: UtcTime,
}

impl MarketFetchRequest {
    /// A request stamped with the current time.
    pub fn now(securities: Vec<MarketSecurity>, market_phase: MarketPhase) -> (r: Self)
        ensures
            r.securities == securities,
            r.market_phase == market_phase,
            r.fetched_at.valid(),
    {
        MarketFetchRequest { securities, market_phase, fetched_at: now_utc() }
    }
}

#[derive(Debug)]
pub struct RawMarketQuote {
    pub security: MarketSecurity,
    pub current_price: Dec,
    pub previous_close: Dec,
    pub price_change: Dec,
    pub change_percent: Dec,
    pub volume: Dec,
    pub volume_unit: String,
    pub turnover_amount: Dec,
    pub turnover_unit: String,
    pub market_timestamp: UtcTime,
}

impl Clone for RawMarketQuote {
    fn clone(&self) -> (r: Self)
        ensures
            r == *self,
    {
        RawMarketQuote {
            security: self.security.clone(),
            current_price: self.current_price,
            previous_close: self.previous_close,
            price_change: self.price_change,
            change_percent: self.change_percent,
            volume: self.volume,
            volume_unit: self.volume_unit.clone(),
            turnover_amount: self.turnover_amount,
            turnover_unit: self.turnover_unit.clone(),
            market_timestamp: self.market_timestamp,
        }
    }
}

impl RawMarketQuote {
    pub open spec fn wf(self) -> bool {
        &&& self.current_price.wf()
        &&& self.previous_close.wf()
        &&& self.price_change.wf()
        &&& self.change_percent.wf()
        &&& self.volume.wf()
        &&& self.turnover_amount.wf()
    }
}

pub open spec fn all_raw_wf(raws: Seq<RawMarketQuote>) -> bool {
    forall|i: int| 0 <= i < raws.len() ==> #[trigger] raws[i].wf()
}

#[derive(Debug)]
pub struct MarketQuote {
    pub security_id: i64,
    pub symbol: String,
    pub name: String,
    pub market: String,
    pub current_price: Dec,
    pub previous_close: Dec,
    pub price_change: Dec,
    pub change_percent: Dec,
    pub volume: Dec,
    pub volume_unit: String,
    pub turnover_amount: Dec,
    pub turnover_unit: String,
    pub market_timestamp: UtcTime,
    pub fetched_at: UtcTime,
    pub source: String,
    pub delay_status: MarketStatus,
}

#[derive(Debug)]
pub struct MarketSnapshot {
    pub source: MarketDataSource,
    pub market_timestamp: Option<UtcTime>,
    pub fetched_at: UtcTime,
    pub delay_status: MarketStatus,
    pub quotes: Vec<MarketQuote>,
    /// Safe diagnostic text. It never contains an API key or raw request authorization.
    pub unavailable_reason: Option<String>,
}

/// `snap` is the `NO_DATA` snapshot of `source` fetched at `fetched_at`, with the given reason.
pub open spec fn is_no_data(
    snap: MarketSnapshot,
    source: MarketDataSource,
    fetched_at: UtcTime,
    reason: Seq<char>,
) -> bool {
    &&& snap.source == source
    &&& snap.market_timestamp is None
    &&& snap.fetched_at == fetched_at
    &&& snap.delay_status == MarketStatus::NoData
    &&& snap.quotes@.len() == 0
    &&& snap.unavailable_reason matches Some(text) && text@ == reason
}

impl MarketSnapshot {
    fn no_data(source: MarketDataSource, fetched_at: UtcTime, reason: String) -> (r: Self)
        ensures
            is_no_data(r, source, fetched_at, reason@),
    {
        MarketSnapshot {
            source,
            market_timestamp: None,
            fetched_at,
            delay_status: MarketStatus::NoData,
            quotes: Vec::new(),
            unavailable_reason: Some(reason),
        }
    }
}

#[derive(Debug)]
pub enum MarketAdapterError {
    Configuration(&'static str),
    Unavailable(String),
    InvalidResponse(String),
    NoData,
}

impl Clone for MarketAdapterError {
    fn clone(&self) -> (r: Self)
        ensures
            r == *self,
    {
        match self {
            MarketAdapterError::Configuration(m) => MarketAdapterError::Configuration(m),
            MarketAdapterError::Unavailable(m) => MarketAdapterError::Unavailable(m.clone()),
            MarketAdapterError::InvalidResponse(m) => MarketAdapterError::InvalidResponse(m.clone()),
            MarketAdapterError::NoData => MarketAdapterError::NoData,
        }
    }
}

/// The text the error displays.
pub open spec fn adapter_error_text(e: MarketAdapterError) -> Seq<char> {
    match e {
        MarketAdapterError::Configuration(m) => "adapter configuration error: "@ + m@,
        MarketAdapterError::Unavailable(m) => "data source unavailable: "@ + m@,
        MarketAdapterError::InvalidResponse(m) => "invalid data source response: "@ + m@,
        MarketAdapterError::NoData => "data source returned no usable quote"@,
    }
}

impl MarketAdapterError {
    /// The text the error displays.
    pub fn message(&self) -> (r: String)
        ensures
            r@ == adapter_error_text(*self),
    {
        match self {
            MarketAdapterError::Configuration(m) => concat2("adapter configuration error: ", m),
            MarketAdapterError::Unavailable(m) => concat2("data source unavailable: ", m.as_str()),
            MarketAdapterError::InvalidResponse(m) => concat2(
                "invalid data source response: ",
                m.as_str(),
            ),
            MarketAdapterError::NoData => String::from_str("data source returned no usable quote"),
        }
    }

    pub open spec fn invalid_response(self, m: Seq<char>) -> bool {
        self matches MarketAdapterError::InvalidResponse(text) && text@ == m
    }
}

/// A provider-specific transport and mapping boundary. Adapters return canonical raw records but
/// do not assign a user-facing freshness status; that happens once in `MarketDataNormalizer`.
pub trait MarketDataAdapter {
    fn source(&self) -> MarketDataSource;

    fn fetch(&self, request: &MarketFetchRequest) -> Result<Vec<RawMarketQuote>, MarketAdapterError>;
}

#[derive(Debug)]
pub struct MarketStoreError {
    pub message: String,
}

/// Port implemented by the SQLite infrastructure.
pub trait MarketSnapshotStore {
    fn save_market_snapshot(&self, snapshot: &MarketSnapshot) -> Result<(), MarketStoreError>;
}

// ---------------------------------------------------------------------------------------------
// Freshness
// ---------------------------------------------------------------------------------------------
pub open spec fn minutes(n: int) -> int {
    n * 60 * NANOS_PER_SECOND as int
}

/// The freshness baseline: the age is `fetched_at - market_timestamp`. A timestamp more than two
/// minutes in the future is rejected; public data stays delayed while trading; an authorized
/// source is realtime up to one minute, delayed up to five, and unusable after that.
pub open spec fn status_spec(
    source_class: SourceClass,
    market_phase: MarketPhase,
    market_timestamp: UtcTime,
    fetched_at: UtcTime,
) -> MarketStatus {
    let age = fetched_at.instant() - market_timestamp.instant();
    if age < minutes(-2) {
        MarketStatus::NoData
    } else {
        match source_class {
            SourceClass::EndOfDay => MarketStatus::Closed,
            SourceClass::PublicQuote => match market_phase {
                MarketPhase::Closed => MarketStatus::Closed,
                _ => MarketStatus::Delayed,
            },
            SourceClass::AuthorizedRealtime => match market_phase {
                MarketPhase::Trading => if age <= minutes(1) {
                    MarketStatus::Realtime
                } else if age <= minutes(5) {
                    MarketStatus::Delayed
                } else {
                    MarketStatus::NoData
                },
                MarketPhase::Closed => MarketStatus::Closed,
                MarketPhase::Unknown => MarketStatus::Delayed,
            },
        }
    }
}

/// Freshness labels by source: a timestamp more than two minutes ahead of the fetch is never
/// shown; otherwise an end-of-day source is always closed, a closed market is always closed, a
/// public quote is delayed in every phase but the closed one, and only an authorized source
/// while trading is realtime, for an age of at most one minute, with delayed up to five minutes
/// and nothing after that.
pub proof fn law_freshness_labels(
    source_class: SourceClass,
    market_phase: MarketPhase,
    market_timestamp: UtcTime,
    fetched_at: UtcTime,
)
    ensures
        ({
            let age = fetched_at.instant() - market_timestamp.instant();
            let status = status_spec(source_class, market_phase, market_timestamp, fetched_at);
            &&& age < -120 * NANOS_PER_SECOND ==> status == MarketStatus::NoData
            &&& age >= -120 * NANOS_PER_SECOND && source_class == SourceClass::EndOfDay ==> status
                == MarketStatus::Closed
            &&& age >= -120 * NANOS_PER_SECOND && market_phase == MarketPhase::Closed ==> status
                == MarketStatus::Closed
            &&& age >= -120 * NANOS_PER_SECOND && source_class == SourceClass::PublicQuote
                && market_phase != MarketPhase::Closed ==> status == MarketStatus::Delayed
            &&& status == MarketStatus::Realtime <==> source_class == SourceClass::AuthorizedRealtime
                && market_phase == MarketPhase::Trading && -120 * NANOS_PER_SECOND <= age <= 60
                * NANOS_PER_SECOND
            &&& source_class == SourceClass::AuthorizedRealtime && market_phase == MarketPhase::Trading
                && 60 * NANOS_PER_SECOND < age <= 300 * NANOS_PER_SECOND ==> status == MarketStatus::Delayed
            &&& source_class == SourceClass::AuthorizedRealtime && market_phase == MarketPhase::Trading
                && age > 300 * NANOS_PER_SECOND ==> status == MarketStatus::NoData
            &&& source_class == SourceClass::AuthorizedRealtime && market_phase == MarketPhase::Unknown
                && age >= -120 * NANOS_PER_SECOND ==> status == MarketStatus::Delayed
        }),
{
}

/// Applies the freshness baseline. Market phase must be provided by a verified trading calendar;
/// when unavailable, public data stays delayed and an authorized source is never promoted to
/// realtime.
pub fn determine_status(
    source_class: SourceClass,
    market_phase: MarketPhase,
    market_timestamp: UtcTime,
    fetched_at: UtcTime,
) -> (r: MarketStatus)
    ensures
        r == status_spec(source_class, market_phase, market_timestamp, fetched_at),
{
    let age = fetched_at.nanos_since(&market_timestamp);
    if age < -120 * NANOS_PER_SECOND {
        return MarketStatus::NoData;
    }
    match source_class {
        SourceClass::EndOfDay => MarketStatus::Closed,
        SourceClass::PublicQuote => match market_phase {
            MarketPhase::Closed => MarketStatus::Closed,
            _ => MarketStatus::Delayed,
        },
        SourceClass::AuthorizedRealtime => match market_phase {
            MarketPhase::Trading => {
                if age <= 60 * NANOS_PER_SECOND {
                    MarketStatus::Realtime
                } else if age <= 300 * NANOS_PER_SECOND {
                    MarketStatus::Delayed
                } else {
                    MarketStatus::NoData
                }
            },
            MarketPhase::Closed => MarketStatus::Closed,
            MarketPhase::Unknown => MarketStatus::Delayed,
        },
    }
}

/// Prices must be positive; volume and turnover must not be negative.
pub open spec fn usable_values(q: RawMarketQuote) -> bool {
    &&& q.current_price.num() > 0
    &&& q.previous_close.num() > 0
    &&& q.volume.num() >= 0
    &&& q.turnover_amount.num() >= 0
}

fn has_usable_quote_values(quote: &RawMarketQuote) -> (r: bool)
    requires
        quote.wf(),
    ensures
        r == usable_values(*quote),
{
    let zero = Dec::zero();
    proof {
        lemma_order_with_zero(quote.current_price);
        lemma_order_with_zero(quote.previous_close);
        lemma_order_with_zero(quote.volume);
        lemma_order_with_zero(quote.turnover_amount);
    }
    greater(quote.current_price, zero) && greater(quote.previous_close, zero) && greater_or_equal(
        quote.volume,
        zero,
    ) && greater_or_equal(quote.turnover_amount, zero)
}

/// A raw quote survives normalization.
pub open spec fn keeps(
    raw: RawMarketQuote,
    class: SourceClass,
    phase: MarketPhase,
    fetched_at: UtcTime,
) -> bool {
    usable_values(raw) && status_spec(class, phase, raw.market_timestamp, fetched_at)
        != MarketStatus::NoData
}

/// The raw quotes that survive normalization, in their order.
pub open spec fn kept(
    raws: Seq<RawMarketQuote>,
    class: SourceClass,
    phase: MarketPhase,
    fetched_at: UtcTime,
) -> Seq<RawMarketQuote>
    decreases raws.len(),
{
    if raws.len() == 0 {
        Seq::empty()
    } else {
        let k = kept(raws.drop_last(), class, phase, fetched_at);
        if keeps(raws.last(), class, phase, fetched_at) {
            k.push(raws.last())
        } else {
            k
        }
    }
}

/// `q` is the canonical quote of `raw`, stamped by `source` at `fetched_at` with `status`.
pub open spec fn quote_of(
    q: MarketQuote,
    raw: RawMarketQuote,
    source: MarketDataSource,
    fetched_at: UtcTime,
    status: MarketStatus,
) -> bool {
    &&& q.security_id == raw.security.security_id
    &&& q.symbol == raw.security.symbol
    &&& q.name == raw.security.name
    &&& q.market == raw.security.market
    &&& q.current_price == raw.current_price
    &&& q.previous_close == raw.previous_close
    &&& q.price_change == raw.price_change
    &&& q.change_percent == raw.change_percent
    &&& q.volume == raw.volume
    &&& q.volume_unit == raw.volume_unit
    &&& q.turnover_amount == raw.turnover_amount
    &&& q.turnover_unit == raw.turnover_unit
    &&& q.market_timestamp == raw.market_timestamp
    &&& q.fetched_at == fetched_at
    &&& q.source == source.name
    &&& q.delay_status == status
}

/// `quotes` are the canonical quotes of `raws`, one for one.
pub open spec fn quotes_of(
    quotes: Seq<MarketQuote>,
    raws: Seq<RawMarketQuote>,
    source: MarketDataSource,
    phase: MarketPhase,
    fetched_at: UtcTime,
) -> bool {
    &&& quotes.len() == raws.len()
    &&& forall|i: int|
        0 <= i < quotes.len() ==> #[trigger] quote_of(
            quotes[i],
            raws[i],
            source,
            fetched_at,
            status_spec(source.source_class, phase, raws[i].market_timestamp, fetched_at),
        )
}

/// `a` is not earlier than `b`, in `DateTime`'s order.
pub open spec fn not_before(a: UtcTime, b: UtcTime) -> bool {
    a.seconds > b.seconds || (a.seconds == b.seconds && a.nanos >= b.nanos)
}

/// `Iterator::max` of the quotes' market timestamps: the latest, the last of equal ones.
pub open spec fn latest_timestamp(quotes: Seq<MarketQuote>) -> Option<UtcTime>
    decreases quotes.len(),
{
    if quotes.len() == 0 {
        None
    } else {
        match latest_timestamp(quotes.drop_last()) {
            None => Some(quotes.last().market_timestamp),
            Some(m) => if not_before(quotes.last().market_timestamp, m) {
                Some(quotes.last().market_timestamp)
            } else {
                Some(m)
            },
        }
    }
}

/// All realtime gives realtime, all closed gives closed, anything else is delayed.
pub open spec fn aggregate_spec(quotes: Seq<MarketQuote>) -> MarketStatus {
    if forall|i: int| 0 <= i < quotes.len() ==> #[trigger] quotes[i].delay_status
        == MarketStatus::Realtime {
        MarketStatus::Realtime
    } else if forall|i: int| 0 <= i < quotes.len() ==> #[trigger] quotes[i].delay_status
        == MarketStatus::Closed {
        MarketStatus::Closed
    } else {
        MarketStatus::Delayed
    }
}

/// What normalization gives: the surviving quotes, or `NO_DATA` when none survives.
pub open spec fn normalized(
    snap: MarketSnapshot,
    source: MarketDataSource,
    raws: Seq<RawMarketQuote>,
    fetched_at: UtcTime,
    phase: MarketPhase,
) -> bool {
    let k = kept(raws, source.source_class, phase, fetched_at);
    if k.len() == 0 {
        is_no_data(snap, source, fetched_at, "quote timestamp is missing, invalid or stale"@)
    } else {
        &&& snap.source == source
        &&& snap.fetched_at == fetched_at
        &&& snap.unavailable_reason is None
        &&& quotes_of(snap.quotes@, k, source, phase, fetched_at)
        &&& snap.market_timestamp == latest_timestamp(snap.quotes@)
        &&& snap.delay_status == aggregate_spec(snap.quotes@)
    }
}

/// What a fetch gives for the adapter's answer: an empty answer or an error is `NO_DATA` with a
/// safe reason, anything else is normalized.
pub open spec fn fetch_outcome(
    snap: MarketSnapshot,
    source: MarketDataSource,
    answer: Result<Vec<RawMarketQuote>, MarketAdapterError>,
    request: MarketFetchRequest,
) -> bool {
    match answer {
        Ok(raws) => if raws@.len() == 0 {
            is_no_data(snap, source, request.fetched_at, "data source returned no usable quote"@)
        } else {
            normalized(snap, source, raws@, request.fetched_at, request.market_phase)
        },
        Err(e) => is_no_data(snap, source, request.fetched_at, adapter_error_text(e)),
    }
}

/// `snap` is what some adapter's own answer gives.
pub open spec fn from_some_adapter(snap: MarketSnapshot, request: MarketFetchRequest) -> bool {
    exists|source: MarketDataSource, answer: Result<Vec<RawMarketQuote>, MarketAdapterError>|
        #[trigger] fetch_outcome(snap, source, answer, request)
}

/// The snapshot used when no adapter is configured.
pub open spec fn unconfigured(snap: MarketSnapshot, fetched_at: UtcTime) -> bool {
    &&& snap.source.name@ == "未配置数据源"@
    &&& snap.source.base_url@.len() == 0
    &&& snap.source.priority == DataSourcePriority::Backup
    &&& snap.source.source_class == SourceClass::PublicQuote
    &&& snap.market_timestamp is None
    &&& snap.fetched_at == fetched_at
    &&& snap.delay_status == MarketStatus::NoData
    &&& snap.quotes@.len() == 0
    &&& snap.unavailable_reason matches Some(text) && text@
        == "no market data adapter is configured"@
}

pub struct MarketDataNormalizer;

impl MarketDataNormalizer {
    pub fn normalize(
        source: MarketDataSource,
        raw_quotes: Vec<RawMarketQuote>,
        fetched_at: UtcTime,
        market_phase: MarketPhase,
    ) -> (r: MarketSnapshot)
        requires
            all_raw_wf(raw_quotes@),
        ensures
            normalized(r, source, raw_quotes@, fetched_at, market_phase),
    {
        let ghost raws = raw_quotes@;
        let ghost class = source.source_class;
        let mut quotes: Vec<MarketQuote> = Vec::new();
        let mut i: usize = 0;
        while i < raw_quotes.len()
            invariant
                0 <= i <= raw_quotes.len(),
                raws == raw_quotes@,
                class == source.source_class,
                all_raw_wf(raws),
                quotes_of(
                    quotes@,
                    kept(raws.take(i as int), class, market_phase, fetched_at),
                    source,
                    market_phase,
                    fetched_at,
                ),
            decreases raw_quotes.len() - i,
        {
            let raw = &raw_quotes[i];
            proof {
                assert(raws.take(i as int + 1).drop_last() =~= raws.take(i as int));
                assert(raws.take(i as int + 1).last() == raws[i as int]);
                assert(raws[i as int].wf());
            }
            if has_usable_quote_values(raw) {
                let status = determine_status(
                    source.source_class,
                    market_phase,
                    raw.market_timestamp,
                    fetched_at,
                );
                if status != MarketStatus::NoData {
                    let q = MarketQuote {
                        security_id: raw.security.security_id,
                        symbol: raw.security.symbol.clone(),
                        name: raw.security.name.clone(),
                        market: raw.security.market.clone(),
                        current_price: raw.current_price,
                        previous_close: raw.previous_close,
                        price_change: raw.price_change,
                        change_percent: raw.change_percent,
                        volume: raw.volume,
                        volume_unit: raw.volume_unit.clone(),
                        turnover_amount: raw.turnover_amount,
                        turnover_unit: raw.turnover_unit.clone(),
                        market_timestamp: raw.market_timestamp,
                        fetched_at,
                        source: source.name.clone(),
                        delay_status: status,
                    };
                    let ghost before = quotes@;
                    quotes.push(q);
                    proof {
                        let k = kept(raws.take(i as int), class, market_phase, fetched_at);
                        let k2 = kept(raws.take(i as int + 1), class, market_phase, fetched_at);
                        assert(k2 == k.push(raws[i as int]));
                        assert forall|j: int| 0 <= j < quotes@.len() implies #[trigger] quote_of(
                            quotes@[j],
                            k2[j],
                            source,
                            fetched_at,
                            status_spec(class, market_phase, k2[j].market_timestamp, fetched_at),
                        ) by {
                            if j < before.len() {
                                assert(quotes@[j] == before[j]);
                                assert(k2[j] == k[j]);
                            }
                        }
                    }
                }
            }
            i = i + 1;
        }
        proof {
            assert(raws.take(raws.len() as int) =~= raws);
        }
        if quotes.len() == 0 {
            return MarketSnapshot::no_data(
                source,
                fetched_at,
                String::from_str("quote timestamp is missing, invalid or stale"),
            );
        }
        let market_timestamp = latest_of(&quotes);
        let delay_status = aggregate_status(&quotes);
        MarketSnapshot {
            source,
            market_timestamp,
            fetched_at,
            delay_status,
            quotes,
            unavailable_reason: None,
        }
    }
}

fn latest_of(quotes: &Vec<MarketQuote>) -> (r: Option<UtcTime>)
    ensures
        r == latest_timestamp(quotes@),
{
    let mut best: Option<UtcTime> = None;
    let mut i: usize = 0;
    while i < quotes.len()
        invariant
            0 <= i <= quotes.len(),
            best == latest_timestamp(quotes@.take(i as int)),
        decreases quotes.len() - i,
    {
        proof {
            assert(quotes@.take(i as int + 1).drop_last() =~= quotes@.take(i as int));
        }
        let t = quotes[i].market_timestamp;
        best = match best {
            None => Some(t),
            Some(m) => if t.seconds > m.seconds || (t.seconds == m.seconds && t.nanos >= m.nanos) {
                Some(t)
            } else {
                Some(m)
            },
        };
        i = i + 1;
    }
    proof {
        assert(quotes@.take(quotes@.len() as int) =~= quotes@);
    }
    best
}

fn aggregate_status(quotes: &Vec<MarketQuote>) -> (r: MarketStatus)
    ensures
        r == aggregate_spec(quotes@),
{
    let mut all_realtime = true;
    let mut all_closed = true;
    let mut i: usize = 0;
    while i < quotes.len()
        invariant
            0 <= i <= quotes.len(),
            all_realtime == forall|j: int| 0 <= j < i ==> #[trigger] quotes@[j].delay_status
                == MarketStatus::Realtime,
            all_closed == forall|j: int| 0 <= j < i ==> #[trigger] quotes@[j].delay_status
                == MarketStatus::Closed,
        decreases quotes.len() - i,
    {
        if quotes[i].delay_status != MarketStatus::Realtime {
            all_realtime = false;
        }
        if quotes[i].delay_status != MarketStatus::Closed {
            all_closed = false;
        }
        i = i + 1;
    }
    if all_realtime {
        MarketStatus::Realtime
    } else if all_closed {
        MarketStatus::Closed
    } else {
        MarketStatus::Delayed
    }
}

pub struct MarketService;

/// The snapshot that fallback selects from the snapshots of the adapters it asked, in order:
/// the first one that is not `NO_DATA`, else the last one asked.
pub open spec fn fallback_choice(outs: Seq<MarketSnapshot>) -> MarketSnapshot
    recommends
        outs.len() > 0,
    decreases outs.len(),
{
    if outs.len() <= 1 || outs[0].delay_status != MarketStatus::NoData {
        outs[0]
    } else {
        fallback_choice(outs.drop_first())
    }
}

/// `r` is the snapshot of `adapter`'s own answer: its declared source and what its fetch of
/// `request` gave, unusable records dropped.
pub open spec fn asked_adapter<A: MarketDataAdapter + ?Sized>(
    adapter: &A,
    request: &MarketFetchRequest,
    r: MarketSnapshot,
) -> bool {
    exists|
        source: MarketDataSource,
        answer: Result<Vec<RawMarketQuote>, MarketAdapterError>,
        kept: Result<Vec<RawMarketQuote>, MarketAdapterError>,
    |
        #![trigger call_ensures(A::source, (adapter,), source), call_ensures(A::fetch, (adapter, request), answer), usable_answer(answer, kept)]
        call_ensures(A::source, (adapter,), source) && call_ensures(A::fetch, (adapter, request), answer)
            && usable_answer(answer, kept) && fetch_outcome(r, source, kept, *request)
}

impl MarketService {
    /// Only verified real-time or completed-market data may be used by automatic valuation.
    /// Public delayed quotes remain display-only.
    pub fn is_usable_for_valuation(status: MarketStatus) -> (r: bool)
        ensures
            r == (status == MarketStatus::Realtime || status == MarketStatus::Closed),
    {
        match status {
            MarketStatus::Realtime | MarketStatus::Closed => true,
            _ => false,
        }
    }

    /// The snapshot for an adapter's answer; the adapter's records must hold well-formed amounts.
    pub fn snapshot_from_answer(
        source: MarketDataSource,
        answer: Result<Vec<RawMarketQuote>, MarketAdapterError>,
        request: &MarketFetchRequest,
    ) -> (r: MarketSnapshot)
        requires
            answer matches Ok(raws) ==> all_raw_wf(raws@),
        ensures
            fetch_outcome(r, source, answer, *request),
    {
        match answer {
            Ok(raw_quotes) => {
                if raw_quotes.len() == 0 {
                    MarketSnapshot::no_data(
                        source,
                        request.fetched_at,
                        String::from_str("data source returned no usable quote"),
                    )
                } else {
                    MarketDataNormalizer::normalize(
                        source,
                        raw_quotes,
                        request.fetched_at,
                        request.market_phase,
                    )
                }
            },
            Err(error) => {
                let reason = error.message();
                MarketSnapshot::no_data(source, request.fetched_at, reason)
            },
        }
    }

    /// Asks one adapter. Records with amounts outside `Decimal`'s scale range count as unusable.
    pub fn fetch_snapshot<A: MarketDataAdapter + ?Sized>(adapter: &A, request: &MarketFetchRequest) -> (r:
        MarketSnapshot)
        ensures
            from_some_adapter(r, *request),
            asked_adapter(adapter, request, r),
    {
        let source = adapter.source();
        let ghost given_source = source;
        let answer = adapter.fetch(request);
        let ghost given = answer;
        let kept = match answer {
            Ok(raws) => Ok(well_formed_only(raws)),
            Err(e) => Err(e),
        };
        let ghost k = kept;
        let r = Self::snapshot_from_answer(source, kept, request);
        proof {
            assert(fetch_outcome(r, given_source, k, *request));
            assert(usable_answer(given, k));
        }
        r
    }

    /// Asks the adapter and hands the snapshot to the store: the snapshot when the store saved
    /// it, the store's error otherwise.
    pub fn fetch_and_store<A: MarketDataAdapter, S: MarketSnapshotStore>(
        adapter: &A,
        request: &MarketFetchRequest,
        store: &S,
    ) -> (r: Result<MarketSnapshot, MarketStoreError>)
        ensures
            r matches Ok(snap) ==> from_some_adapter(snap, *request),
            exists|snap: MarketSnapshot, saved: Result<(), MarketStoreError>|
                #![trigger call_ensures(S::save_market_snapshot, (store, &snap), saved)]
                from_some_adapter(snap, *request) && call_ensures(
                    S::save_market_snapshot,
                    (store, &snap),
                    saved,
                ) && match saved {
                    Ok(()) => r == Ok::<MarketSnapshot, MarketStoreError>(snap),
                    Err(e) => r == Err::<MarketSnapshot, MarketStoreError>(e),
                },
    {
        let snapshot = Self::fetch_snapshot(adapter, request);
        let saved = store.save_market_snapshot(&snapshot);
        let ghost answer = saved;
        let r = match saved {
            Ok(()) => Ok(snapshot),
            Err(e) => Err(e),
        };
        proof {
            assert(call_ensures(S::save_market_snapshot, (store, &snapshot), answer));
        }
        r
    }

    /// Uses providers in priority order. A provider is only bypassed after it returns `NO_DATA`;
    /// the selected snapshot always retains the actual provider name and its own delay status.
    pub fn fetch_with_fallback(adapters: &[&dyn MarketDataAdapter], request: &MarketFetchRequest) -> (r:
        MarketSnapshot)
        ensures
            adapters@.len() == 0 ==> unconfigured(r, request.fetched_at),
            adapters@.len() > 0 ==> exists|outs: Seq<MarketSnapshot>|
                {
                    &&& 0 < outs.len() <= adapters@.len()
                    &&& forall|i: int| 0 <= i < outs.len() ==> from_some_adapter(
                        #[trigger] outs[i],
                        *request,
                    )
                    &&& forall|i: int| 0 <= i < outs.len() ==> asked_adapter(
                        adapters@[i],
                        request,
                        #[trigger] outs[i],
                    )
                    &&& forall|i: int| 0 <= i < outs.len() - 1 ==> (#[trigger] outs[i]).delay_status
                        == MarketStatus::NoData
                    &&& (outs.len() < adapters@.len() ==> outs.last().delay_status
                        != MarketStatus::NoData)
                    &&& r == fallback_choice(outs)
                },
    {
        let ghost mut outs: Seq<MarketSnapshot> = Seq::empty();
        let mut last_snapshot: Option<MarketSnapshot> = None;
        let mut i: usize = 0;
        while i < adapters.len()
            invariant
                0 <= i <= adapters@.len(),
                outs.len() == i,
                forall|j: int| 0 <= j < outs.len() ==> from_some_adapter(#[trigger] outs[j], *request),
                forall|j: int| 0 <= j < outs.len() ==> asked_adapter(
                    adapters@[j],
                    request,
                    #[trigger] outs[j],
                ),
                forall|j: int| 0 <= j < outs.len() ==> (#[trigger] outs[j]).delay_status
                    == MarketStatus::NoData,
                i == 0 <==> last_snapshot is None,
                last_snapshot matches Some(s) ==> s == outs.last(),
            decreases adapters@.len() - i,
        {
            let adapter = adapters[i];
            let snapshot = Self::fetch_snapshot(adapter, request);
            proof {
                assert(adapter == adapters@[i as int]);
                assert(asked_adapter(adapters@[i as int], request, snapshot));
                let earlier = outs;
                outs = outs.push(snapshot);
                assert forall|j: int| 0 <= j < outs.len() implies asked_adapter(
                    adapters@[j],
                    request,
                    #[trigger] outs[j],
                ) by {
                    if j < earlier.len() {
                        assert(outs[j] == earlier[j]);
                    }
                }
            }
            if snapshot.delay_status != MarketStatus::NoData {
                proof {
                    lemma_fallback_first_usable(outs);
                }
                return snapshot;
            }
            last_snapshot = Some(snapshot);
            i = i + 1;
        }
        match last_snapshot {
            Some(s) => {
                proof {
                    lemma_fallback_all_no_data(outs);
                }
                s
            },
            None => MarketSnapshot::no_data(
                MarketDataSource {
                    name: String::from_str("未配置数据源"),
                    base_url: String::new(),
                    priority: DataSourcePriority::Backup,
                    source_class: SourceClass::PublicQuote,
                },
                request.fetched_at,
                String::from_str("no market data adapter is configured"),
            ),
        }
    }
}

proof fn lemma_fallback_first_usable(outs: Seq<MarketSnapshot>)
    requires
        outs.len() > 0,
        forall|j: int| 0 <= j < outs.len() - 1 ==> (#[trigger] outs[j]).delay_status
            == MarketStatus::NoData,
        outs.last().delay_status != MarketStatus::NoData,
    ensures
        fallback_choice(outs) == outs.last(),
    decreases outs.len(),
{
    if outs.len() > 1 {
        assert(outs[0].delay_status == MarketStatus::NoData);
        let rest = outs.drop_first();
        assert forall|j: int| 0 <= j < rest.len() - 1 implies (#[trigger] rest[j]).delay_status
            == MarketStatus::NoData by {
            assert(rest[j] == outs[j + 1]);
        }
        lemma_fallback_first_usable(rest);
    }
}

proof fn lemma_fallback_all_no_data(outs: Seq<MarketSnapshot>)
    requires
        outs.len() > 0,
        forall|j: int| 0 <= j < outs.len() ==> (#[trigger] outs[j]).delay_status
            == MarketStatus::NoData,
    ensures
        fallback_choice(outs) == outs.last(),
    decreases outs.len(),
{
    if outs.len() > 1 {
        assert(outs[0].delay_status == MarketStatus::NoData);
        let rest = outs.drop_first();
        assert forall|j: int| 0 <= j < rest.len() implies (#[trigger] rest[j]).delay_status
            == MarketStatus::NoData by {
            assert(rest[j] == outs[j + 1]);
        }
        lemma_fallback_all_no_data(rest);
    }
}

/// The adapter's records whose amounts `Decimal` can hold; any other record counts as unusable.
/// The records of an answer whose amounts `Decimal` can hold, in order.
pub open spec fn usable_raws(raws: Seq<RawMarketQuote>) -> Seq<RawMarketQuote> {
    raws.filter(|q: RawMarketQuote| q.wf())
}

/// `kept` is the adapter's `answer` with its unusable records dropped.
pub open spec fn usable_answer(
    answer: Result<Vec<RawMarketQuote>, MarketAdapterError>,
    kept: Result<Vec<RawMarketQuote>, MarketAdapterError>,
) -> bool {
    match (answer, kept) {
        (Ok(a), Ok(b)) => b@ == usable_raws(a@),
        (Err(e), Err(f)) => e == f,
        _ => false,
    }
}

fn well_formed_only(raws: Vec<RawMarketQuote>) -> (r: Vec<RawMarketQuote>)
    ensures
        all_raw_wf(r@),
        all_raw_wf(raws@) ==> r@ == raws@,
        r@ == usable_raws(raws@),
{
    let mut out: Vec<RawMarketQuote> = Vec::new();
    proof {
        reveal(Seq::filter);
        assert(raws@.take(0).len() == 0);
    }
    let mut all = true;
    let mut i: usize = 0;
    while i < raws.len()
        invariant
            0 <= i <= raws.len(),
            all_raw_wf(out@),
            all == (forall|j: int| 0 <= j < i ==> #[trigger] raws@[j].wf()),
            all ==> out@ == raws@.take(i as int),
            out@ == usable_raws(raws@.take(i as int)),
        decreases raws.len() - i,
    {
        proof {
            assert(raws@.take(i as int + 1).drop_last() =~= raws@.take(i as int));
        }
        let q = &raws[i];
        if q.current_price.scale <= 28 && q.previous_close.scale <= 28 && q.price_change.scale <= 28
            && q.change_percent.scale <= 28 && q.volume.scale <= 28 && q.turnover_amount.scale
            <= 28 {
            let ghost before = out@;
            out.push(q.clone());
            proof {
                assert(raws@[i as int].wf());
                if all {
                    assert(out@ =~= raws@.take(i as int + 1));
                }
                reveal(Seq::filter);
                let t = raws@.take(i as int + 1);
                assert(t.drop_last() =~= raws@.take(i as int));
                assert(t.last() == raws@[i as int]);
                assert(t.filter(|q: RawMarketQuote| q.wf()) == t.drop_last().filter(|q: RawMarketQuote| q.wf()).push(t.last()));
                assert(out@ =~= before.push(raws@[i as int]));
            }
        } else {
            assert(!raws@[i as int].wf());
            proof {
                reveal(Seq::filter);
                let t = raws@.take(i as int + 1);
                assert(t.drop_last() =~= raws@.take(i as int));
                assert(t.last() == raws@[i as int]);
                assert(t.filter(|q: RawMarketQuote| q.wf()) == t.drop_last().filter(|q: RawMarketQuote| q.wf()));
            }
            all = false;
        }
        i = i + 1;
    }
    proof {
        assert(raws@.take(raws@.len() as int) =~= raws@);
    }
    out
}


/// Only an authorized real-time source, while trading, is ever labelled realtime: public quotes
/// and end-of-day data never are, whatever their age.
pub proof fn law_only_authorized_trading_quotes_are_realtime(
    source_class: SourceClass,
    market_phase: MarketPhase,
    market_timestamp: UtcTime,
    fetched_at: UtcTime,
)
    ensures
        status_spec(source_class, market_phase, market_timestamp, fetched_at) == MarketStatus::Realtime
            ==> source_class == SourceClass::AuthorizedRealtime && market_phase == MarketPhase::Trading
            && fetched_at.instant() - market_timestamp.instant() <= minutes(1),
        source_class == SourceClass::PublicQuote ==> status_spec(
            source_class,
            market_phase,
            market_timestamp,
            fetched_at,
        ) != MarketStatus::Realtime,
{
}

} // verus!
