//! Quote providers: the Tushare daily endpoint and the Eastmoney public quote endpoint.
//!
//! Each provider turns its own payload into canonical raw records. Requests go out through a
//! `JsonTransport`; the library decides what to ask for and how to read the answer.
use vstd::prelude::*;

use crate::decimal::{decimal_from_str, parse_decimal, Dec};
use crate::json::JsonValue;
use crate::market::{
    adapter_error_text, all_raw_wf, DataSourcePriority, MarketAdapterError, MarketDataSource,
    MarketFetchRequest, MarketSecurity, RawMarketQuote, SourceClass,
};
use crate::text::{all_ascii_digits, all_digits, chars_of, concat2, is_blank, str_eq, trim};
use crate::time::{chrono_accepts, parse_rfc3339, rfc3339_parse, UtcTime};

verus! {

/// The HTTPS transport that provider requests go through: it sends a request and hands back the
/// JSON document of the answer, or the error that stopped it.
pub trait JsonTransport {
    fn send(&self, method: &str, url: &str, body: Option<&JsonValue>) -> Result<
        JsonValue,
        MarketAdapterError,
    >;
}

// ---------------------------------------------------------------------------------------------
// Errors as the text they display
// ---------------------------------------------------------------------------------------------
pub open spec fn invalid_text(m: Seq<char>) -> Seq<char> {
    "invalid data source response: "@ + m
}

pub open spec fn no_data_text() -> Seq<char> {
    "data source returned no usable quote"@
}

/// The error's text is `t`.
pub open spec fn error_is(r: MarketAdapterError, t: Seq<char>) -> bool {
    adapter_error_text(r) == t
}

fn invalid(m: &str) -> (r: MarketAdapterError)
    ensures
        error_is(r, invalid_text(m@)),
        r.invalid_response(m@),
{
    MarketAdapterError::InvalidResponse(String::from_str(m))
}

// ---------------------------------------------------------------------------------------------
// Reading values
// ---------------------------------------------------------------------------------------------
/// `record[name]`, a missing or `null` member being an error.
pub open spec fn field_spec(record: JsonValue, name: Seq<char>) -> Result<JsonValue, Seq<char>> {
    match record.get_spec(name) {
        Some(v) => if v is Null {
            Err(invalid_text("provider response lacks a required value"@))
        } else {
            Ok(v)
        },
        None => Err(invalid_text("provider response lacks a required value"@)),
    }
}

/// A decimal read from a JSON string or from a number's printed text.
pub open spec fn decimal_spec(v: JsonValue) -> Result<Dec, Seq<char>> {
    let parsed = match v {
        JsonValue::Str(s) => decimal_from_str(s@),
        JsonValue::Number(n) => decimal_from_str(n.text@),
        _ => None,
    };
    match parsed {
        Some(d) => Ok(d),
        None => Err(invalid_text("numeric value is invalid"@)),
    }
}

pub open spec fn string_spec(v: JsonValue) -> Result<Seq<char>, Seq<char>> {
    match v {
        JsonValue::Str(s) => Ok(s@),
        _ => Err(invalid_text("text value is invalid"@)),
    }
}

pub open spec fn field_decimal(record: JsonValue, name: Seq<char>) -> Result<Dec, Seq<char>> {
    match field_spec(record, name) {
        Err(t) => Err(t),
        Ok(v) => decimal_spec(v),
    }
}

fn field<'a>(record: &'a JsonValue, name: &str) -> (r: Result<&'a JsonValue, MarketAdapterError>)
    ensures
        match (r, field_spec(*record, name@)) {
            (Ok(v), Ok(w)) => *v == w,
            (Err(e), Err(t)) => error_is(e, t),
            _ => false,
        },
{
    match record.get(name) {
        Some(v) => if v.is_null() {
            Err(invalid("provider response lacks a required value"))
        } else {
            Ok(v)
        },
        None => Err(invalid("provider response lacks a required value")),
    }
}

fn decimal_from_value(value: &JsonValue) -> (r: Result<Dec, MarketAdapterError>)
    ensures
        match (r, decimal_spec(*value)) {
            (Ok(d), Ok(e)) => d == e && d.wf(),
            (Err(e), Err(t)) => error_is(e, t),
            _ => false,
        },
{
    let parsed = match value {
        JsonValue::Str(s) => parse_decimal(s.as_str()),
        JsonValue::Number(n) => parse_decimal(n.text.as_str()),
        _ => None,
    };
    match parsed {
        Some(d) => Ok(d),
        None => Err(invalid("numeric value is invalid")),
    }
}

fn field_decimal_of(record: &JsonValue, name: &str) -> (r: Result<Dec, MarketAdapterError>)
    ensures
        match (r, field_decimal(*record, name@)) {
            (Ok(d), Ok(e)) => d == e && d.wf(),
            (Err(e), Err(t)) => error_is(e, t),
            _ => false,
        },
{
    match field(record, name) {
        Ok(v) => decimal_from_value(v),
        Err(e) => Err(e),
    }
}

fn string_from_value(value: &JsonValue) -> (r: Result<String, MarketAdapterError>)
    ensures
        match (r, string_spec(*value)) {
            (Ok(s), Ok(t)) => s@ == t,
            (Err(e), Err(t)) => error_is(e, t),
            _ => false,
        },
{
    match value {
        JsonValue::Str(s) => Ok(s.clone()),
        _ => Err(invalid("text value is invalid")),
    }
}

// ---------------------------------------------------------------------------------------------
// Symbols and codes
// ---------------------------------------------------------------------------------------------
/// A six-digit A-share symbol.
pub open spec fn valid_symbol(symbol: Seq<char>) -> bool {
    symbol.len() == 6 && all_digits(symbol)
}

fn validate_symbol(symbol: &str) -> (r: Result<(), MarketAdapterError>)
    ensures
        r is Ok <==> valid_symbol(symbol@),
        r matches Err(e) ==> error_is(e, invalid_text("invalid A-share symbol"@)),
{
    let v = chars_of(symbol);
    if v.len() == 6 && all_ascii_digits(&v) {
        Ok(())
    } else {
        Err(invalid("invalid A-share symbol"))
    }
}

/// The exchange suffix that Tushare uses for a market, `None` for an unsupported market.
pub open spec fn tushare_exchange(market: Seq<char>) -> Option<Seq<char>> {
    if market == "SSE"@ || market == "SH"@ {
        Some("SH"@)
    } else if market == "SZSE"@ || market == "SZ"@ {
        Some("SZ"@)
    } else {
        None
    }
}

/// The market prefix that Eastmoney uses in a `secid`, `None` for an unsupported market.
pub open spec fn eastmoney_exchange(market: Seq<char>) -> Option<Seq<char>> {
    if market == "SSE"@ || market == "SH"@ {
        Some("1"@)
    } else if market == "SZSE"@ || market == "SZ"@ {
        Some("0"@)
    } else {
        None
    }
}

/// A code built from a security: an unsupported market is refused first, then a bad symbol.
pub open spec fn code_spec(
    exchange: Option<Seq<char>>,
    symbol: Seq<char>,
    build: spec_fn(Seq<char>) -> Seq<char>,
) -> Result<Seq<char>, Seq<char>> {
    match exchange {
        None => Err(invalid_text("unsupported security market"@)),
        Some(x) => if !valid_symbol(symbol) {
            Err(invalid_text("invalid A-share symbol"@))
        } else {
            Ok(build(x))
        },
    }
}

/// `600519.SH`
pub open spec fn tushare_code_spec(s: MarketSecurity) -> Result<Seq<char>, Seq<char>> {
    code_spec(tushare_exchange(s.market@), s.symbol@, |x: Seq<char>| s.symbol@ + "."@ + x)
}

/// `1.600519`
pub open spec fn eastmoney_secid_spec(s: MarketSecurity) -> Result<Seq<char>, Seq<char>> {
    code_spec(eastmoney_exchange(s.market@), s.symbol@, |x: Seq<char>| x + "."@ + s.symbol@)
}

fn tushare_exchange_of(market: &str) -> (r: Option<&'static str>)
    ensures
        match (r, tushare_exchange(market@)) {
            (Some(a), Some(b)) => a@ == b,
            (None, None) => true,
            _ => false,
        },
{
    if str_eq(market, "SSE") || str_eq(market, "SH") {
        Some("SH")
    } else if str_eq(market, "SZSE") || str_eq(market, "SZ") {
        Some("SZ")
    } else {
        None
    }
}

fn eastmoney_exchange_of(market: &str) -> (r: Option<&'static str>)
    ensures
        match (r, eastmoney_exchange(market@)) {
            (Some(a), Some(b)) => a@ == b,
            (None, None) => true,
            _ => false,
        },
{
    if str_eq(market, "SSE") || str_eq(market, "SH") {
        Some("1")
    } else if str_eq(market, "SZSE") || str_eq(market, "SZ") {
        Some("0")
    } else {
        None
    }
}

pub fn to_tushare_code(security: &MarketSecurity) -> (r: Result<String, MarketAdapterError>)
    ensures
        match (r, tushare_code_spec(*security)) {
            (Ok(c), Ok(t)) => c@ == t,
            (Err(e), Err(t)) => error_is(e, t),
            _ => false,
        },
{
    let exchange = match tushare_exchange_of(security.market.as_str()) {
        Some(x) => x,
        None => return Err(invalid("unsupported security market")),
    };
    match validate_symbol(security.symbol.as_str()) {
        Ok(()) => {},
        Err(e) => return Err(e),
    }
    let mut code = concat2(security.symbol.as_str(), ".");
    code.append(exchange);
    Ok(code)
}

pub fn to_eastmoney_secid(security: &MarketSecurity) -> (r: Result<String, MarketAdapterError>)
    ensures
        match (r, eastmoney_secid_spec(*security)) {
            (Ok(c), Ok(t)) => c@ == t,
            (Err(e), Err(t)) => error_is(e, t),
            _ => false,
        },
{
    let exchange = match eastmoney_exchange_of(security.market.as_str()) {
        Some(x) => x,
        None => return Err(invalid("unsupported security market")),
    };
    match validate_symbol(security.symbol.as_str()) {
        Ok(()) => {},
        Err(e) => return Err(e),
    }
    let mut code = concat2(exchange, ".");
    code.append(security.symbol.as_str());
    Ok(code)
}

// ---------------------------------------------------------------------------------------------
// Canonical records
// ---------------------------------------------------------------------------------------------
/// The values a provider record yields for one raw quote.
pub struct QuoteParts {
    pub security: MarketSecurity,
    pub current_price: Dec,
    pub previous_close: Dec,
    pub price_change: Dec,
    pub change_percent: Dec,
    pub volume: Dec,
    pub turnover_amount: Dec,
    pub market_timestamp: UtcTime,
}

/// `q` carries the parts, with the given unit labels.
pub open spec fn raw_from_parts(
    q: RawMarketQuote,
    p: QuoteParts,
    volume_unit: Seq<char>,
    turnover_unit: Seq<char>,
) -> bool {
    &&& q.security == p.security
    &&& q.current_price == p.current_price
    &&& q.previous_close == p.previous_close
    &&& q.price_change == p.price_change
    &&& q.change_percent == p.change_percent
    &&& q.volume == p.volume
    &&& q.volume_unit@ == volume_unit
    &&& q.turnover_amount == p.turnover_amount
    &&& q.turnover_unit@ == turnover_unit
    &&& q.market_timestamp == p.market_timestamp
}

pub open spec fn raws_from_parts(
    qs: Seq<RawMarketQuote>,
    ps: Seq<QuoteParts>,
    volume_unit: Seq<char>,
    turnover_unit: Seq<char>,
) -> bool {
    &&& qs.len() == ps.len()
    &&& forall|i: int|
        0 <= i < qs.len() ==> #[trigger] raw_from_parts(qs[i], ps[i], volume_unit, turnover_unit)
}

// ---------------------------------------------------------------------------------------------
// Eastmoney
// ---------------------------------------------------------------------------------------------
/// The last of the requested securities with this symbol (the map built from the request keeps
/// the last one).
pub open spec fn security_for_symbol(secs: Seq<MarketSecurity>, symbol: Seq<char>) -> Option<
    MarketSecurity,
>
    decreases secs.len(),
{
    if secs.len() == 0 {
        None
    } else if secs.last().symbol@ == symbol {
        Some(secs.last())
    } else {
        security_for_symbol(secs.drop_last(), symbol)
    }
}

pub open spec fn eastmoney_time_missing() -> Seq<char> {
    invalid_text("Eastmoney quote timestamp is missing"@)
}

/// The six decimals of a record, read in the order `f2, f18, f4, f3, f5, f6`.
pub open spec fn eastmoney_amounts(record: JsonValue, security: MarketSecurity, t: UtcTime) -> Result<
    QuoteParts,
    Seq<char>,
> {
    match field_decimal(record, "f2"@) {
        Err(e) => Err(e),
        Ok(f2) => match field_decimal(record, "f18"@) {
            Err(e) => Err(e),
            Ok(f18) => match field_decimal(record, "f4"@) {
                Err(e) => Err(e),
                Ok(f4) => match field_decimal(record, "f3"@) {
                    Err(e) => Err(e),
                    Ok(f3) => match field_decimal(record, "f5"@) {
                        Err(e) => Err(e),
                        Ok(f5) => match field_decimal(record, "f6"@) {
                            Err(e) => Err(e),
                            Ok(f6) => Ok(
                                QuoteParts {
                                    security,
                                    current_price: f2,
                                    previous_close: f18,
                                    price_change: f4,
                                    change_percent: f3,
                                    volume: f5,
                                    turnover_amount: f6,
                                    market_timestamp: t,
                                },
                            ),
                        },
                    },
                },
            },
        },
    }
}

/// One Eastmoney record: symbol `f12`, then timestamp `f124` in seconds, then the amounts.
pub open spec fn eastmoney_record(record: JsonValue, secs: Seq<MarketSecurity>) -> Result<
    QuoteParts,
    Seq<char>,
> {
    match field_spec(record, "f12"@) {
        Err(e) => Err(e),
        Ok(v) => match string_spec(v) {
            Err(e) => Err(e),
            Ok(symbol) => match security_for_symbol(secs, symbol) {
                None => Err(invalid_text("response has an unexpected symbol"@)),
                Some(security) => match field_spec(record, "f124"@) {
                    Err(e) => Err(e),
                    Ok(tv) => match tv.as_i64_spec() {
                        None => Err(eastmoney_time_missing()),
                        Some(seconds) => if !chrono_accepts(seconds, 0) {
                            Err(eastmoney_time_missing())
                        } else {
                            eastmoney_amounts(record, security, UtcTime { seconds, nanos: 0 })
                        },
                    },
                },
            },
        },
    }
}

/// The records read in order; the first failing record decides the error.
pub open spec fn eastmoney_records(records: Seq<JsonValue>, secs: Seq<MarketSecurity>) -> Result<
    Seq<QuoteParts>,
    Seq<char>,
>
    decreases records.len(),
{
    if records.len() == 0 {
        Ok(Seq::empty())
    } else {
        match eastmoney_records(records.drop_last(), secs) {
            Err(e) => Err(e),
            Ok(ps) => match eastmoney_record(records.last(), secs) {
                Err(e) => Err(e),
                Ok(p) => Ok(ps.push(p)),
            },
        }
    }
}

/// What an Eastmoney payload gives: the records under `data.diff`, `NO_DATA` when there are
/// none.
pub open spec fn eastmoney_quotes_spec(payload: JsonValue, secs: Seq<MarketSecurity>) -> Result<
    Seq<QuoteParts>,
    Seq<char>,
> {
    match payload.get_in_spec("data"@, "diff"@) {
        Some(JsonValue::Array(records)) => match eastmoney_records(records@, secs) {
            Err(e) => Err(e),
            Ok(ps) => if ps.len() == 0 {
                Err(no_data_text())
            } else {
                Ok(ps)
            },
        },
        _ => Err(no_data_text()),
    }
}

fn security_for<'a>(securities: &'a Vec<MarketSecurity>, symbol: &str) -> (r: Option<&'a MarketSecurity>)
    ensures
        match r {
            Some(s) => security_for_symbol(securities@, symbol@) == Some(*s),
            None => security_for_symbol(securities@, symbol@) is None,
        },
{
    let mut i: usize = securities.len();
    proof {
        assert(securities@.take(i as int) =~= securities@);
    }
    while i > 0
        invariant
            i <= securities.len(),
            security_for_symbol(securities@, symbol@) == security_for_symbol(
                securities@.take(i as int),
                symbol@,
            ),
        decreases i,
    {
        proof {
            assert(securities@.take(i as int).drop_last() =~= securities@.take(i - 1));
            assert(securities@.take(i as int).last() == securities@[i - 1]);
        }
        if str_eq(securities[i - 1].symbol.as_str(), symbol) {
            return Some(&securities[i - 1]);
        }
        i = i - 1;
    }
    None
}

fn eastmoney_quote(record: &JsonValue, securities: &Vec<MarketSecurity>) -> (r: Result<
    RawMarketQuote,
    MarketAdapterError,
>)
    ensures
        match (r, eastmoney_record(*record, securities@)) {
            (Ok(q), Ok(p)) => raw_from_parts(q, p, "SOURCE_DECLARED"@, "SOURCE_DECLARED"@)
                && q.wf(),
            (Err(e), Err(t)) => error_is(e, t),
            _ => false,
        },
{
    let symbol = match field(record, "f12") {
        Ok(v) => match string_from_value(v) {
            Ok(s) => s,
            Err(e) => return Err(e),
        },
        Err(e) => return Err(e),
    };
    let security = match security_for(securities, symbol.as_str()) {
        Some(s) => s,
        None => return Err(invalid("response has an unexpected symbol")),
    };
    let timestamp = match field(record, "f124") {
        Ok(v) => match v.as_i64() {
            Some(seconds) => match UtcTime::from_timestamp(seconds) {
                Some(t) => t,
                None => return Err(invalid("Eastmoney quote timestamp is missing")),
            },
            None => return Err(invalid("Eastmoney quote timestamp is missing")),
        },
        Err(e) => return Err(e),
    };
    let current_price = match field_decimal_of(record, "f2") {
        Ok(d) => d,
        Err(e) => return Err(e),
    };
    let previous_close = match field_decimal_of(record, "f18") {
        Ok(d) => d,
        Err(e) => return Err(e),
    };
    let price_change = match field_decimal_of(record, "f4") {
        Ok(d) => d,
        Err(e) => return Err(e),
    };
    let change_percent = match field_decimal_of(record, "f3") {
        Ok(d) => d,
        Err(e) => return Err(e),
    };
    let volume = match field_decimal_of(record, "f5") {
        Ok(d) => d,
        Err(e) => return Err(e),
    };
    let turnover_amount = match field_decimal_of(record, "f6") {
        Ok(d) => d,
        Err(e) => return Err(e),
    };
    Ok(
        RawMarketQuote {
            security: security.clone(),
            current_price,
            previous_close,
            price_change,
            change_percent,
            volume,
            volume_unit: String::from_str("SOURCE_DECLARED"),
            turnover_amount,
            turnover_unit: String::from_str("SOURCE_DECLARED"),
            market_timestamp: timestamp,
        },
    )
}

/// What the fetch gives for the transport's answer: its error, or the quotes read from the
/// payload as `parse_eastmoney_quotes` reads them.
pub open spec fn eastmoney_answer(
    r: Result<Vec<RawMarketQuote>, MarketAdapterError>,
    answer: Result<JsonValue, MarketAdapterError>,
    secs: Seq<MarketSecurity>,
) -> bool {
    match answer {
        Err(e) => r == Err::<Vec<RawMarketQuote>, MarketAdapterError>(e),
        Ok(payload) => match (r, eastmoney_quotes_spec(payload, secs)) {
            (Ok(qs), Ok(ps)) => raws_from_parts(qs@, ps, "SOURCE_DECLARED"@, "SOURCE_DECLARED"@)
                && all_raw_wf(qs@),
            (Err(e), Err(t)) => error_is(e, t),
            _ => false,
        },
    }
}

/// Reads an Eastmoney quote payload for the requested securities.
pub fn parse_eastmoney_quotes(payload: &JsonValue, securities: &Vec<MarketSecurity>) -> (r: Result<
    Vec<RawMarketQuote>,
    MarketAdapterError,
>)
    ensures
        match (r, eastmoney_quotes_spec(*payload, securities@)) {
            (Ok(qs), Ok(ps)) => raws_from_parts(qs@, ps, "SOURCE_DECLARED"@, "SOURCE_DECLARED"@)
                && all_raw_wf(qs@),
            (Err(e), Err(t)) => error_is(e, t),
            _ => false,
        },
{
    let records = match payload.get_in("data", "diff") {
        Some(v) => match v.as_array() {
            Some(items) => items,
            None => return Err(MarketAdapterError::NoData),
        },
        None => return Err(MarketAdapterError::NoData),
    };
    let mut quotes: Vec<RawMarketQuote> = Vec::new();
    let mut i: usize = 0;
    while i < records.len()
        invariant
            0 <= i <= records.len(),
            eastmoney_quotes_spec(*payload, securities@) == match eastmoney_records(
                records@,
                securities@,
            ) {
                Err(e) => Err(e),
                Ok(ps) => if ps.len() == 0 {
                    Err(no_data_text())
                } else {
                    Ok(ps)
                },
            },
            eastmoney_records(records@.take(i as int), securities@) matches Ok(ps)
                && raws_from_parts(quotes@, ps, "SOURCE_DECLARED"@, "SOURCE_DECLARED"@),
            all_raw_wf(quotes@),
        decreases records.len() - i,
    {
        proof {
            assert(records@.take(i as int + 1).drop_last() =~= records@.take(i as int));
            assert(records@.take(i as int + 1).last() == records@[i as int]);
        }
        match eastmoney_quote(&records[i], securities) {
            Ok(q) => {
                let ghost before = quotes@;
                quotes.push(q);
                proof {
                    let ps = eastmoney_records(records@.take(i as int), securities@)->Ok_0;
                    let ps2 = eastmoney_records(records@.take(i as int + 1), securities@)->Ok_0;
                    assert(ps2 == ps.push(eastmoney_record(records@[i as int], securities@)->Ok_0));
                    assert forall|j: int| 0 <= j < quotes@.len() implies #[trigger] raw_from_parts(
                        quotes@[j],
                        ps2[j],
                        "SOURCE_DECLARED"@,
                        "SOURCE_DECLARED"@,
                    ) by {
                        if j < before.len() {
                            assert(quotes@[j] == before[j]);
                        }
                    }
                    assert forall|j: int| 0 <= j < quotes@.len() implies #[trigger] quotes@[j].wf() by {
                        if j < before.len() {
                            assert(quotes@[j] == before[j]);
                        }
                    }
                }
            },
            Err(e) => {
                proof {
                    let t = eastmoney_record(records@[i as int], securities@)->Err_0;
                    assert(eastmoney_records(records@.take(i as int + 1), securities@) == Err::<
                        Seq<QuoteParts>,
                        Seq<char>,
                    >(t));
                    lemma_eastmoney_error_sticks(records@, securities@, i as int + 1);
                    assert(records@.take(records@.len() as int) =~= records@);
                }
                return Err(e);
            },
        }
        i = i + 1;
    }
    proof {
        assert(records@.take(records@.len() as int) =~= records@);
    }
    if quotes.len() == 0 {
        Err(MarketAdapterError::NoData)
    } else {
        Ok(quotes)
    }
}

proof fn lemma_eastmoney_error_sticks(records: Seq<JsonValue>, secs: Seq<MarketSecurity>, i: int)
    requires
        0 < i <= records.len(),
        eastmoney_records(records.take(i), secs) is Err,
    ensures
        eastmoney_records(records, secs) == eastmoney_records(records.take(i), secs),
    decreases records.len() - i,
{
    if i < records.len() {
        assert(records.take(i + 1).drop_last() =~= records.take(i));
        lemma_eastmoney_error_sticks(records, secs, i + 1);
    } else {
        assert(records.take(i) =~= records);
    }
}

/// The Eastmoney request URL for the securities: each one's `secid`, comma separated.
pub open spec fn secids_spec(secs: Seq<MarketSecurity>) -> Result<Seq<char>, Seq<char>>
    decreases secs.len(),
{
    if secs.len() == 0 {
        Ok(Seq::empty())
    } else {
        match secids_spec(secs.drop_last()) {
            Err(e) => Err(e),
            Ok(joined) => match eastmoney_secid_spec(secs.last()) {
                Err(e) => Err(e),
                Ok(id) => if secs.len() == 1 {
                    Ok(id)
                } else {
                    Ok(joined + ","@ + id)
                },
            },
        }
    }
}

pub open spec fn eastmoney_url_spec(secs: Seq<MarketSecurity>) -> Result<Seq<char>, Seq<char>> {
    match secids_spec(secs) {
        Err(e) => Err(e),
        Ok(ids) => Ok(
            "https://push2.eastmoney.com/api/qt/ulist.np/get?fltt=2&invt=2&secids="@ + ids
                + "&fields=f2,f3,f4,f5,f6,f12,f14,f18,f124"@,
        ),
    }
}

proof fn lemma_secids_error_sticks(secs: Seq<MarketSecurity>, i: int)
    requires
        0 < i <= secs.len(),
        secids_spec(secs.take(i)) is Err,
    ensures
        secids_spec(secs) == secids_spec(secs.take(i)),
    decreases secs.len() - i,
{
    if i < secs.len() {
        assert(secs.take(i + 1).drop_last() =~= secs.take(i));
        lemma_secids_error_sticks(secs, i + 1);
    } else {
        assert(secs.take(i) =~= secs);
    }
}

pub fn eastmoney_quote_url(securities: &Vec<MarketSecurity>) -> (r: Result<String, MarketAdapterError>)
    ensures
        match (r, eastmoney_url_spec(securities@)) {
            (Ok(u), Ok(t)) => u@ == t,
            (Err(e), Err(t)) => error_is(e, t),
            _ => false,
        },
{
    let mut joined = String::new();
    let mut i: usize = 0;
    while i < securities.len()
        invariant
            0 <= i <= securities.len(),
            secids_spec(securities@.take(i as int)) == Ok::<Seq<char>, Seq<char>>(joined@),
        decreases securities.len() - i,
    {
        proof {
            assert(securities@.take(i as int + 1).drop_last() =~= securities@.take(i as int));
            assert(securities@.take(i as int + 1).last() == securities@[i as int]);
        }
        match to_eastmoney_secid(&securities[i]) {
            Ok(id) => {
                if i > 0 {
                    joined.append(",");
                }
                joined.append(id.as_str());
            },
            Err(e) => {
                proof {
                    lemma_secids_error_sticks(securities@, i as int + 1);
                }
                return Err(e);
            },
        }
        i = i + 1;
    }
    proof {
        assert(securities@.take(securities@.len() as int) =~= securities@);
    }
    let mut url = String::from_str(
        "https://push2.eastmoney.com/api/qt/ulist.np/get?fltt=2&invt=2&secids=",
    );
    url.append(joined.as_str());
    url.append("&fields=f2,f3,f4,f5,f6,f12,f14,f18,f124");
    Ok(url)
}

/// Eastmoney's public quote adapter. It uses `PublicQuote`, so a quote is never advertised as
/// real-time without a separate real-time license.
pub struct EastmoneyAdapter {}

impl EastmoneyAdapter {
    pub fn new() -> (r: Result<Self, MarketAdapterError>)
        ensures
            r is Ok,
    {
        Ok(EastmoneyAdapter {  })
    }

    pub fn source(&self) -> (r: MarketDataSource)
        ensures
            r.name@ == "东方财富公开行情"@,
            r.base_url@ == "https://push2.eastmoney.com/api/qt/ulist.np/get"@,
            r.priority == DataSourcePriority::PublicQuote,
            r.source_class == SourceClass::PublicQuote,
    {
        MarketDataSource {
            name: String::from_str("东方财富公开行情"),
            base_url: String::from_str("https://push2.eastmoney.com/api/qt/ulist.np/get"),
            priority: DataSourcePriority::PublicQuote,
            source_class: SourceClass::PublicQuote,
        }
    }

    /// Fetches the request's quotes with one GET through the transport. No security gives
    /// `NO_DATA` without a request; a security that cannot be addressed stops before sending.
    pub fn fetch_with<T: JsonTransport>(&self, request: &MarketFetchRequest, transport: &T) -> (r:
        Result<Vec<RawMarketQuote>, MarketAdapterError>)
        ensures
            request.securities@.len() == 0 ==> (r matches Err(e) && e is NoData),
            request.securities@.len() > 0 && eastmoney_url_spec(request.securities@) is Err
                ==> (r matches Err(e) && error_is(e, eastmoney_url_spec(request.securities@)->Err_0)),
            r matches Ok(qs) ==> all_raw_wf(qs@) && exists|payload: JsonValue|
                #[trigger] eastmoney_quotes_spec(payload, request.securities@) matches Ok(ps)
                && raws_from_parts(qs@, ps, "SOURCE_DECLARED"@, "SOURCE_DECLARED"@),
            request.securities@.len() > 0 && eastmoney_url_spec(request.securities@) is Ok ==> exists|
                method: &str,
                url: &str,
                answer: Result<JsonValue, MarketAdapterError>,
            |
                #![trigger call_ensures(T::send, (transport, method, url, None::<&JsonValue>), answer)]
                method@ == "GET"@ && url@ == eastmoney_url_spec(request.securities@)->Ok_0
                    && call_ensures(T::send, (transport, method, url, None::<&JsonValue>), answer)
                    && eastmoney_answer(r, answer, request.securities@),
    {
        if request.securities.len() == 0 {
            return Err(MarketAdapterError::NoData);
        }
        let url = match eastmoney_quote_url(&request.securities) {
            Ok(u) => u,
            Err(e) => return Err(e),
        };
        let method = "GET";
        let address = url.as_str();
        let answer = transport.send(method, address, None);
        proof {
            reveal_strlit("GET");
            assert(call_ensures(T::send, (transport, method, address, None::<&JsonValue>), answer));
        }
        let payload = match answer {
            Ok(p) => p,
            Err(e) => return Err(e),
        };
        let r = parse_eastmoney_quotes(&payload, &request.securities);
        proof {
            if r is Ok {
                assert(eastmoney_quotes_spec(payload, request.securities@) is Ok);
            }
        }
        r
    }
}

// ---------------------------------------------------------------------------------------------
// Tushare
// ---------------------------------------------------------------------------------------------
/// Column positions of the required daily fields.
pub struct TushareColumns {
    pub trade_date: usize,
    pub close: usize,
    pub pre_close: usize,
    pub change: usize,
    pub pct_chg: usize,
    pub vol: usize,
    pub amount: usize,
}

/// The position of the last field with this name (a later name replaces an earlier one).
pub open spec fn last_field_index(fields: Seq<JsonValue>, name: Seq<char>) -> Option<int>
    decreases fields.len(),
{
    if fields.len() == 0 {
        None
    } else if fields.last().as_str_spec() == Some(name) {
        Some(fields.len() - 1)
    } else {
        last_field_index(fields.drop_last(), name)
    }
}

pub open spec fn all_text(fields: Seq<JsonValue>) -> bool {
    forall|i: int| 0 <= i < fields.len() ==> #[trigger] fields[i] is Str
}

pub open spec fn has_field(fields: Seq<JsonValue>, name: Seq<char>) -> bool {
    last_field_index(fields, name) is Some
}

/// Every field must be text, then every required field must be present.
pub open spec fn columns_spec(fields: Seq<JsonValue>) -> Result<TushareColumns, Seq<char>> {
    if !all_text(fields) {
        Err(invalid_text("Tushare field is invalid"@))
    } else if !(has_field(fields, "trade_date"@) && has_field(fields, "close"@) && has_field(
        fields,
        "pre_close"@,
    ) && has_field(fields, "change"@) && has_field(fields, "pct_chg"@) && has_field(
        fields,
        "vol"@,
    ) && has_field(fields, "amount"@)) {
        Err(invalid_text("Tushare response lacks a required field"@))
    } else {
        Ok(
            TushareColumns {
                trade_date: last_field_index(fields, "trade_date"@)->Some_0 as usize,
                close: last_field_index(fields, "close"@)->Some_0 as usize,
                pre_close: last_field_index(fields, "pre_close"@)->Some_0 as usize,
                change: last_field_index(fields, "change"@)->Some_0 as usize,
                pct_chg: last_field_index(fields, "pct_chg"@)->Some_0 as usize,
                vol: last_field_index(fields, "vol"@)->Some_0 as usize,
                amount: last_field_index(fields, "amount"@)->Some_0 as usize,
            },
        )
    }
}

proof fn lemma_last_index_bound(fields: Seq<JsonValue>, name: Seq<char>)
    ensures
        last_field_index(fields, name) matches Some(i) ==> 0 <= i < fields.len(),
    decreases fields.len(),
{
    if fields.len() > 0 {
        lemma_last_index_bound(fields.drop_last(), name);
    }
}

fn update_index(current: Option<usize>, field: &str, name: &str, i: usize) -> (r: Option<usize>)
    ensures
        r == (if field@ == name@ {
            Some(i)
        } else {
            current
        }),
{
    if str_eq(field, name) {
        Some(i)
    } else {
        current
    }
}

fn field_indexes(fields: &Vec<JsonValue>) -> (r: Result<TushareColumns, MarketAdapterError>)
    ensures
        match (r, columns_spec(fields@)) {
            (Ok(c), Ok(d)) => c == d,
            (Err(e), Err(t)) => error_is(e, t),
            _ => false,
        },
{
    let mut trade_date: Option<usize> = None;
    let mut close: Option<usize> = None;
    let mut pre_close: Option<usize> = None;
    let mut change: Option<usize> = None;
    let mut pct_chg: Option<usize> = None;
    let mut vol: Option<usize> = None;
    let mut amount: Option<usize> = None;
    let mut i: usize = 0;
    while i < fields.len()
        invariant
            0 <= i <= fields.len(),
            all_text(fields@.take(i as int)),
            trade_date == option_index(last_field_index(fields@.take(i as int), "trade_date"@)),
            close == option_index(last_field_index(fields@.take(i as int), "close"@)),
            pre_close == option_index(last_field_index(fields@.take(i as int), "pre_close"@)),
            change == option_index(last_field_index(fields@.take(i as int), "change"@)),
            pct_chg == option_index(last_field_index(fields@.take(i as int), "pct_chg"@)),
            vol == option_index(last_field_index(fields@.take(i as int), "vol"@)),
            amount == option_index(last_field_index(fields@.take(i as int), "amount"@)),
        decreases fields.len() - i,
    {
        let ghost t = fields@.take(i as int + 1);
        proof {
            assert(t.drop_last() =~= fields@.take(i as int));
            assert(t.last() == fields@[i as int]);
        }
        let name = match fields[i].as_str() {
            Some(s) => s,
            None => {
                proof {
                    assert(!all_text(fields@)) by {
                        assert(!(fields@[i as int] is Str));
                    }
                }
                return Err(invalid("Tushare field is invalid"));
            },
        };
        trade_date = update_index(trade_date, name, "trade_date", i);
        close = update_index(close, name, "close", i);
        pre_close = update_index(pre_close, name, "pre_close", i);
        change = update_index(change, name, "change", i);
        pct_chg = update_index(pct_chg, name, "pct_chg", i);
        vol = update_index(vol, name, "vol", i);
        amount = update_index(amount, name, "amount", i);
        proof {
            assert forall|k: int| 0 <= k < t.len() implies #[trigger] t[k] is Str by {
                if k < i {
                    assert(t[k] == fields@.take(i as int)[k]);
                }
            }
        }
        i = i + 1;
    }
    proof {
        assert(fields@.take(fields@.len() as int) =~= fields@);
        lemma_last_index_bound(fields@, "trade_date"@);
        lemma_last_index_bound(fields@, "close"@);
        lemma_last_index_bound(fields@, "pre_close"@);
        lemma_last_index_bound(fields@, "change"@);
        lemma_last_index_bound(fields@, "pct_chg"@);
        lemma_last_index_bound(fields@, "vol"@);
        lemma_last_index_bound(fields@, "amount"@);
    }
    match (trade_date, close, pre_close, change, pct_chg, vol, amount) {
        (Some(a), Some(b), Some(c), Some(d), Some(e), Some(f), Some(g)) => Ok(
            TushareColumns {
                trade_date: a,
                close: b,
                pre_close: c,
                change: d,
                pct_chg: e,
                vol: f,
                amount: g,
            },
        ),
        _ => Err(invalid("Tushare response lacks a required field")),
    }
}

pub open spec fn option_index(i: Option<int>) -> Option<usize> {
    match i {
        Some(k) => Some(k as usize),
        None => None,
    }
}

/// `cells[index]`, a missing cell being an error.
pub open spec fn cell_spec(cells: Seq<JsonValue>, index: usize) -> Result<JsonValue, Seq<char>> {
    if index < cells.len() {
        Ok(cells[index as int])
    } else {
        Err(invalid_text("Tushare row lacks a required value"@))
    }
}

pub open spec fn cell_decimal(cells: Seq<JsonValue>, index: usize) -> Result<Dec, Seq<char>> {
    match cell_spec(cells, index) {
        Err(e) => Err(e),
        Ok(v) => decimal_spec(v),
    }
}

pub open spec fn trade_date_invalid() -> Seq<char> {
    invalid_text("Tushare trade date is invalid"@)
}

/// `YYYYMMDD` read as the exchange close, 07:00 UTC of that day.
pub open spec fn close_timestamp_spec(trade_date: Seq<char>) -> Result<UtcTime, Seq<char>> {
    if !(trade_date.len() == 8 && all_digits(trade_date)) {
        Err(trade_date_invalid())
    } else {
        let iso = trade_date.subrange(0, 4) + "-"@ + trade_date.subrange(4, 6) + "-"@
            + trade_date.subrange(6, 8) + "T07:00:00Z"@;
        match rfc3339_parse(iso) {
            Some(t) => Ok(t),
            None => Err(trade_date_invalid()),
        }
    }
}

/// One daily row: `trade_date`, then the amounts in the order `close, pre_close, change,
/// pct_chg, vol, amount`, then the date's timestamp.
pub open spec fn tushare_row_spec(row: JsonValue, cols: TushareColumns, security: MarketSecurity) -> Result<
    QuoteParts,
    Seq<char>,
> {
    match row {
        JsonValue::Array(cells) => {
            let c = cells@;
            match cell_spec(c, cols.trade_date) {
                Err(e) => Err(e),
                Ok(tv) => match string_spec(tv) {
                    Err(e) => Err(e),
                    Ok(date) => match cell_decimal(c, cols.close) {
                        Err(e) => Err(e),
                        Ok(close) => match cell_decimal(c, cols.pre_close) {
                            Err(e) => Err(e),
                            Ok(pre) => match cell_decimal(c, cols.change) {
                                Err(e) => Err(e),
                                Ok(change) => match cell_decimal(c, cols.pct_chg) {
                                    Err(e) => Err(e),
                                    Ok(pct) => match cell_decimal(c, cols.vol) {
                                        Err(e) => Err(e),
                                        Ok(vol) => match cell_decimal(c, cols.amount) {
                                            Err(e) => Err(e),
                                            Ok(amount) => match close_timestamp_spec(date) {
                                                Err(e) => Err(e),
                                                Ok(t) => Ok(
                                                    QuoteParts {
                                                        security,
                                                        current_price: close,
                                                        previous_close: pre,
                                                        price_change: change,
                                                        change_percent: pct,
                                                        volume: vol,
                                                        turnover_amount: amount,
                                                        market_timestamp: t,
                                                    },
                                                ),
                                            },
                                        },
                                    },
                                },
                            },
                        },
                    },
                },
            }
        },
        _ => Err(invalid_text("Tushare row is invalid"@)),
    }
}

/// The `code` member as an integer, 0 when it is missing or not an integer.
pub open spec fn tushare_code_value(payload: JsonValue) -> i64 {
    match payload.get_spec("code"@) {
        Some(v) => match v.as_i64_spec() {
            Some(c) => c,
            None => 0,
        },
        None => 0,
    }
}

/// What a Tushare daily payload gives: a rejection for a nonzero `code`, then the columns, then
/// the first row of `data.items` (none when the list is empty).
pub open spec fn tushare_daily_spec(payload: JsonValue, security: MarketSecurity) -> Result<
    Seq<QuoteParts>,
    Seq<char>,
> {
    if tushare_code_value(payload) != 0 {
        Err("data source unavailable: "@ + "Tushare rejected the request"@)
    } else {
        match payload.get_in_spec("data"@, "fields"@) {
            Some(JsonValue::Array(fields)) => match columns_spec(fields@) {
                Err(e) => Err(e),
                Ok(cols) => match payload.get_in_spec("data"@, "items"@) {
                    Some(JsonValue::Array(items)) => if items@.len() == 0 {
                        Ok(Seq::empty())
                    } else {
                        match tushare_row_spec(items@[0], cols, security) {
                            Err(e) => Err(e),
                            Ok(p) => Ok(seq![p]),
                        }
                    },
                    _ => Err(no_data_text()),
                },
            },
            _ => Err(invalid_text("Tushare fields are missing"@)),
        }
    }
}

fn cell<'a>(cells: &'a Vec<JsonValue>, index: usize) -> (r: Result<&'a JsonValue, MarketAdapterError>)
    ensures
        match (r, cell_spec(cells@, index)) {
            (Ok(v), Ok(w)) => *v == w,
            (Err(e), Err(t)) => error_is(e, t),
            _ => false,
        },
{
    if index < cells.len() {
        Ok(&cells[index])
    } else {
        Err(invalid("Tushare row lacks a required value"))
    }
}

fn cell_decimal_of(cells: &Vec<JsonValue>, index: usize) -> (r: Result<Dec, MarketAdapterError>)
    ensures
        match (r, cell_decimal(cells@, index)) {
            (Ok(d), Ok(e)) => d == e && d.wf(),
            (Err(e), Err(t)) => error_is(e, t),
            _ => false,
        },
{
    match cell(cells, index) {
        Ok(v) => decimal_from_value(v),
        Err(e) => Err(e),
    }
}

pub fn close_timestamp_from_trade_date(trade_date: &str) -> (r: Result<UtcTime, MarketAdapterError>)
    ensures
        match (r, close_timestamp_spec(trade_date@)) {
            (Ok(t), Ok(u)) => t == u && t.valid(),
            (Err(e), Err(t)) => error_is(e, t),
            _ => false,
        },
{
    let v = chars_of(trade_date);
    if !(v.len() == 8 && all_ascii_digits(&v)) {
        return Err(invalid("Tushare trade date is invalid"));
    }
    let mut iso = String::from_str(trade_date.substring_char(0, 4));
    iso.append("-");
    iso.append(trade_date.substring_char(4, 6));
    iso.append("-");
    iso.append(trade_date.substring_char(6, 8));
    iso.append("T07:00:00Z");
    match parse_rfc3339(iso.as_str()) {
        Some(t) => Ok(t),
        None => Err(invalid("Tushare trade date is invalid")),
    }
}

fn parse_tushare_row(row: &JsonValue, cols: &TushareColumns, security: &MarketSecurity) -> (r: Result<
    RawMarketQuote,
    MarketAdapterError,
>)
    ensures
        match (r, tushare_row_spec(*row, *cols, *security)) {
            (Ok(q), Ok(p)) => raw_from_parts(q, p, "LOTS"@, "THOUSAND_CNY"@) && q.wf(),
            (Err(e), Err(t)) => error_is(e, t),
            _ => false,
        },
{
    let cells = match row.as_array() {
        Some(c) => c,
        None => return Err(invalid("Tushare row is invalid")),
    };
    let trade_date = match cell(cells, cols.trade_date) {
        Ok(v) => match string_from_value(v) {
            Ok(s) => s,
            Err(e) => return Err(e),
        },
        Err(e) => return Err(e),
    };
    let current_price = match cell_decimal_of(cells, cols.close) {
        Ok(d) => d,
        Err(e) => return Err(e),
    };
    let previous_close = match cell_decimal_of(cells, cols.pre_close) {
        Ok(d) => d,
        Err(e) => return Err(e),
    };
    let price_change = match cell_decimal_of(cells, cols.change) {
        Ok(d) => d,
        Err(e) => return Err(e),
    };
    let change_percent = match cell_decimal_of(cells, cols.pct_chg) {
        Ok(d) => d,
        Err(e) => return Err(e),
    };
    let volume = match cell_decimal_of(cells, cols.vol) {
        Ok(d) => d,
        Err(e) => return Err(e),
    };
    let turnover_amount = match cell_decimal_of(cells, cols.amount) {
        Ok(d) => d,
        Err(e) => return Err(e),
    };
    let market_timestamp = match close_timestamp_from_trade_date(trade_date.as_str()) {
        Ok(t) => t,
        Err(e) => return Err(e),
    };
    Ok(
        RawMarketQuote {
            security: security.clone(),
            current_price,
            previous_close,
            price_change,
            change_percent,
            volume,
            volume_unit: String::from_str("LOTS"),
            turnover_amount,
            turnover_unit: String::from_str("THOUSAND_CNY"),
            market_timestamp,
        },
    )
}

/// Reads a Tushare daily payload for one security.
pub fn parse_tushare_daily(payload: &JsonValue, security: &MarketSecurity) -> (r: Result<
    Vec<RawMarketQuote>,
    MarketAdapterError,
>)
    ensures
        match (r, tushare_daily_spec(*payload, *security)) {
            (Ok(qs), Ok(ps)) => raws_from_parts(qs@, ps, "LOTS"@, "THOUSAND_CNY"@) && all_raw_wf(
                qs@,
            ),
            (Err(e), Err(t)) => error_is(e, t),
            _ => false,
        },
{
    let code = match payload.get("code") {
        Some(v) => match v.as_i64() {
            Some(c) => c,
            None => 0,
        },
        None => 0,
    };
    if code != 0 {
        return Err(MarketAdapterError::Unavailable(String::from_str("Tushare rejected the request")));
    }
    let fields = match payload.get_in("data", "fields") {
        Some(v) => match v.as_array() {
            Some(f) => f,
            None => return Err(invalid("Tushare fields are missing")),
        },
        None => return Err(invalid("Tushare fields are missing")),
    };
    let cols = match field_indexes(fields) {
        Ok(c) => c,
        Err(e) => return Err(e),
    };
    let items = match payload.get_in("data", "items") {
        Some(v) => match v.as_array() {
            Some(i) => i,
            None => return Err(MarketAdapterError::NoData),
        },
        None => return Err(MarketAdapterError::NoData),
    };
    let mut quotes: Vec<RawMarketQuote> = Vec::new();
    if items.len() > 0 {
        match parse_tushare_row(&items[0], &cols, security) {
            Ok(q) => quotes.push(q),
            Err(e) => return Err(e),
        }
    }
    Ok(quotes)
}

/// The request body of the `daily` call for one code.
pub open spec fn tushare_body_spec(body: JsonValue, token: Seq<char>, ts_code: Seq<char>) -> bool {
    &&& body matches JsonValue::Object(members)
    &&& members@.len() == 4
    &&& members@[0].0@ == "api_name"@
    &&& members@[0].1 matches JsonValue::Str(a)
    &&& a@ == "daily"@
    &&& members@[1].0@ == "token"@
    &&& members@[1].1 matches JsonValue::Str(t)
    &&& t@ == token
    &&& members@[2].0@ == "params"@
    &&& members@[2].1 matches JsonValue::Object(params)
    &&& params@.len() == 1
    &&& params@[0].0@ == "ts_code"@
    &&& params@[0].1 matches JsonValue::Str(c)
    &&& c@ == ts_code
    &&& members@[3].0@ == "fields"@
    &&& members@[3].1 matches JsonValue::Str(f)
    &&& f@ == "ts_code,trade_date,close,pre_close,change,pct_chg,vol,amount"@
}

pub fn tushare_daily_body(token: &str, ts_code: &str) -> (r: JsonValue)
    ensures
        tushare_body_spec(r, token@, ts_code@),
{
    let mut params: Vec<(String, JsonValue)> = Vec::new();
    params.push((String::from_str("ts_code"), JsonValue::Str(String::from_str(ts_code))));
    let mut members: Vec<(String, JsonValue)> = Vec::new();
    members.push((String::from_str("api_name"), JsonValue::Str(String::from_str("daily"))));
    members.push((String::from_str("token"), JsonValue::Str(String::from_str(token))));
    members.push((String::from_str("params"), JsonValue::Object(params)));
    members.push(
        (
            String::from_str("fields"),
            JsonValue::Str(
                String::from_str("ts_code,trade_date,close,pre_close,change,pct_chg,vol,amount"),
            ),
        ),
    );
    JsonValue::Object(members)
}

/// Tushare Pro adapter. It uses the daily endpoint, so all usable records are labelled
/// `CLOSED`, never real-time.
pub struct TushareAdapter {}

impl TushareAdapter {
    pub fn new() -> (r: Result<Self, MarketAdapterError>)
        ensures
            r is Ok,
    {
        Ok(TushareAdapter {  })
    }

    pub fn source(&self) -> (r: MarketDataSource)
        ensures
            r.name@ == "Tushare"@,
            r.base_url@ == "https://api.tushare.pro"@,
            r.priority == DataSourcePriority::PrimaryApi,
            r.source_class == SourceClass::EndOfDay,
    {
        MarketDataSource {
            name: String::from_str("Tushare"),
            base_url: String::from_str("https://api.tushare.pro"),
            priority: DataSourcePriority::PrimaryApi,
            source_class: SourceClass::EndOfDay,
        }
    }

    /// The configured token: a missing or blank one is a configuration error.
    pub fn token_from(value: Option<String>) -> (r: Result<String, MarketAdapterError>)
        ensures
            match value {
                Some(v) if trim(v@).len() > 0 => r == Ok::<String, MarketAdapterError>(v),
                _ => r matches Err(e) && e == MarketAdapterError::Configuration(
                    "TUSHARE_TOKEN is not configured",
                ),
            },
    {
        match value {
            Some(v) => if is_blank(v.as_str()) {
                Err(MarketAdapterError::Configuration("TUSHARE_TOKEN is not configured"))
            } else {
                Ok(v)
            },
            None => Err(MarketAdapterError::Configuration("TUSHARE_TOKEN is not configured")),
        }
    }

    /// Fetches the daily record of each requested security, one POST each through the
    /// transport. The token travels only in the request body. The first failure stops the fetch;
    /// no record at all is `NO_DATA`.
    pub fn fetch_with<T: JsonTransport>(
        &self,
        request: &MarketFetchRequest,
        token: Option<String>,
        transport: &T,
    ) -> (r: Result<Vec<RawMarketQuote>, MarketAdapterError>)
        ensures
            (match token {
                Some(v) => trim(v@).len() == 0,
                None => true,
            }) ==> (r matches Err(e) && e == MarketAdapterError::Configuration(
                "TUSHARE_TOKEN is not configured",
            )),
            r matches Ok(qs) ==> all_raw_wf(qs@),
            r matches Ok(qs) ==> forall|k: int|
                0 <= k < qs@.len() ==> #[trigger] tushare_record_of(qs@[k], request.securities@),
            token matches Some(v) && trim(v@).len() > 0 ==> exists|answers: Seq<Result<JsonValue, MarketAdapterError>>|
                tushare_result(r, #[trigger] tushare_run(transport, token->Some_0@, request.securities@, answers)),
    {
        let ghost blank = match &token {
            Some(v) => trim(v@).len() == 0,
            None => true,
        };
        let key = match Self::token_from(token) {
            Ok(t) => t,
            Err(e) => return Err(e),
        };
        let ghost secs = request.securities@;
        let ghost mut answers: Seq<Result<JsonValue, MarketAdapterError>> = Seq::empty();
        let ghost mut parts: Seq<QuoteParts> = Seq::empty();
        let mut quotes: Vec<RawMarketQuote> = Vec::new();
        let mut i: usize = 0;
        proof {
            assert(secs.take(0) =~= Seq::<MarketSecurity>::empty());
        }
        while i < request.securities.len()
            invariant
                !blank,
                blank == match token {
                    Some(v) => trim(v@).len() == 0,
                    None => true,
                },
                token == Some(key),
                secs == request.securities@,
                0 <= i <= request.securities@.len(),
                all_raw_wf(quotes@),
                forall|k: int| 0 <= k < quotes@.len() ==> #[trigger] tushare_record_of(quotes@[k], request.securities@),
                tushare_run(transport, key@, secs.take(i as int), answers) == Some(
                    Ok::<Seq<QuoteParts>, TushareStop>(parts),
                ),
                raws_from_parts(quotes@, parts, "LOTS"@, "THOUSAND_CNY"@),
            decreases request.securities@.len() - i,
        {
            let security = &request.securities[i];
            let ghost t = secs.take(i + 1);
            proof {
                assert(t.drop_last() =~= secs.take(i as int));
                assert(t.last() == *security);
            }
            let ts_code = match to_tushare_code(security) {
                Ok(c) => c,
                Err(e) => {
                    proof {
                        lemma_tushare_run_stops(transport, key@, secs, i + 1, answers);
                    }
                    return Err(e);
                },
            };
            let body = tushare_daily_body(key.as_str(), ts_code.as_str());
            let method = "POST";
            let address = "https://api.tushare.pro";
            let answer = transport.send(method, address, Some(&body));
            proof {
                reveal_strlit("POST");
                reveal_strlit("https://api.tushare.pro");
                assert(call_ensures(T::send, (transport, method, address, Some(&body)), answer));
                assert(tushare_asked(transport, key@, *security, answer));
                let previous = answers;
                lemma_tushare_run_extra(transport, key@, secs.take(i as int), previous, seq![answer]);
                answers = answers.push(answer);
                assert(previous + seq![answer] =~= answers);
                assert(answers.drop_last() =~= previous);
            }
            let payload = match answer {
                Ok(p) => p,
                Err(e) => {
                    proof {
                        lemma_tushare_run_stops(transport, key@, secs, i + 1, answers);
                    }
                    return Err(e);
                },
            };
            let parsed = match parse_tushare_daily(&payload, security) {
                Ok(qs) => qs,
                Err(e) => {
                    proof {
                        lemma_tushare_run_stops(transport, key@, secs, i + 1, answers);
                    }
                    return Err(e);
                },
            };
            let ghost before = quotes@;
            let mut j: usize = 0;
            while j < parsed.len()
                invariant
                    !blank,
                    blank == match token {
                        Some(v) => trim(v@).len() == 0,
                        None => true,
                    },
                    0 <= i < request.securities@.len(),
                    *security == request.securities@[i as int],
                    all_raw_wf(parsed@),
                    tushare_daily_spec(payload, *security) matches Ok(ps) && raws_from_parts(
                        parsed@,
                        ps,
                        "LOTS"@,
                        "THOUSAND_CNY"@,
                    ),
                    0 <= j <= parsed@.len(),
                    quotes@ == before + parsed@.take(j as int),
                    all_raw_wf(quotes@),
                    forall|k: int| 0 <= k < quotes@.len() ==> #[trigger] tushare_record_of(quotes@[k], request.securities@),
                decreases parsed@.len() - j,
            {
                let q = parsed[j].clone();
                proof {
                    let ps = tushare_daily_spec(payload, *security)->Ok_0;
                    assert(raw_from_parts(parsed@[j as int], ps[j as int], "LOTS"@, "THOUSAND_CNY"@));
                    lemma_tushare_parts_security(payload, *security, j as int);
                    assert(parsed@[j as int].wf());
                }
                let ghost prior = quotes@;
                quotes.push(q);
                proof {
                    assert(quotes@ =~= before + parsed@.take(j + 1));
                    assert forall|k: int| 0 <= k < quotes@.len() implies #[trigger] tushare_record_of(quotes@[k], request.securities@) by {
                        if k < prior.len() {
                            assert(quotes@[k] == prior[k]);
                        } else {
                            assert(request.securities@[i as int] == *security);
                        }
                    }
                    assert forall|k: int| 0 <= k < quotes@.len() implies #[trigger] quotes@[k].wf() by {
                        if k < prior.len() {
                            assert(quotes@[k] == prior[k]);
                        }
                    }
                }
                j = j + 1;
            }
            proof {
                let ps = tushare_daily_spec(payload, *security)->Ok_0;
                assert(parsed@.take(j as int) =~= parsed@);
                lemma_parts_concat(before, parts, parsed@, ps);
                parts = parts + ps;
            }
            i = i + 1;
        }
        proof {
            assert(secs.take(i as int) =~= secs);
        }
        if quotes.len() == 0 {
            Err(MarketAdapterError::NoData)
        } else {
            assert forall|k: int| 0 <= k < quotes@.len() implies #[trigger] tushare_record_of(quotes@[k], request.securities@) by {}
            Ok(quotes)
        }
    }
}

/// A daily record of one of the requested securities.
/// The transport was asked for the daily record of `security`: a POST to the Tushare endpoint
/// whose body carries the token and the security's Tushare code, answered with `answer`.
pub open spec fn tushare_asked<T: JsonTransport>(
    transport: &T,
    token: Seq<char>,
    security: MarketSecurity,
    answer: Result<JsonValue, MarketAdapterError>,
) -> bool {
    exists|method: &str, url: &str, body: JsonValue|
        #![trigger call_ensures(T::send, (transport, method, url, Some(&body)), answer)]
        method@ == "POST"@ && url@ == "https://api.tushare.pro"@ && tushare_body_spec(
            body,
            token,
            tushare_code_spec(security)->Ok_0,
        ) && call_ensures(T::send, (transport, method, url, Some(&body)), answer)
}

/// Why a fetch stopped: the transport's own error, or the text of the error for a security
/// without a Tushare code or an answer that could not be read.
pub type TushareStop = Result<MarketAdapterError, Seq<char>>;

/// The fetch over `secs` in order, given the transport's `answers` in order: the parts of every
/// record gathered, or why it stopped at the first failure, after which nothing more is asked.
/// `None` when the answers do not fit the securities.
pub open spec fn tushare_run<T: JsonTransport>(
    transport: &T,
    token: Seq<char>,
    secs: Seq<MarketSecurity>,
    answers: Seq<Result<JsonValue, MarketAdapterError>>,
) -> Option<Result<Seq<QuoteParts>, TushareStop>>
    decreases secs.len(),
{
    if secs.len() == 0 {
        if answers.len() == 0 {
            Some(Ok(Seq::empty()))
        } else {
            None
        }
    } else {
        let s = secs.last();
        let before = tushare_run(transport, token, secs.drop_last(), answers);
        if before matches Some(Err(_)) {
            before
        } else if tushare_code_spec(s) is Err {
            match before {
                Some(Ok(_)) => Some(Err(Err(tushare_code_spec(s)->Err_0))),
                _ => None,
            }
        } else if answers.len() == 0 {
            None
        } else {
            match tushare_run(transport, token, secs.drop_last(), answers.drop_last()) {
                Some(Ok(parts)) => if tushare_asked(transport, token, s, answers.last()) {
                    match answers.last() {
                        Err(e) => Some(Err(Ok(e))),
                        Ok(payload) => match tushare_daily_spec(payload, s) {
                            Err(t) => Some(Err(Err(t))),
                            Ok(ps) => Some(Ok(parts + ps)),
                        },
                    }
                } else {
                    None
                },
                _ => None,
            }
        }
    }
}

/// What the fetch returns for the outcome of its run.
pub open spec fn tushare_result(
    r: Result<Vec<RawMarketQuote>, MarketAdapterError>,
    run: Option<Result<Seq<QuoteParts>, TushareStop>>,
) -> bool {
    match run {
        Some(Ok(parts)) => if parts.len() == 0 {
            r matches Err(e) && e is NoData
        } else {
            r matches Ok(v) && raws_from_parts(v@, parts, "LOTS"@, "THOUSAND_CNY"@)
        },
        Some(Err(Ok(e))) => r == Err::<Vec<RawMarketQuote>, MarketAdapterError>(e),
        Some(Err(Err(t))) => r matches Err(e) && error_is(e, t),
        None => false,
    }
}

proof fn lemma_tushare_run_extra<T: JsonTransport>(
    transport: &T,
    token: Seq<char>,
    secs: Seq<MarketSecurity>,
    answers: Seq<Result<JsonValue, MarketAdapterError>>,
    extra: Seq<Result<JsonValue, MarketAdapterError>>,
)
    requires
        tushare_run(transport, token, secs, answers) matches Some(Ok(_)),
        extra.len() > 0,
    ensures
        tushare_run(transport, token, secs, answers + extra) is None,
    decreases secs.len(),
{
    if secs.len() > 0 {
        let s = secs.last();
        let dl = secs.drop_last();
        if tushare_code_spec(s) is Err {
            lemma_tushare_run_extra(transport, token, dl, answers, extra);
        } else {
            let a = answers;
            assert(a.len() > 0);
            let rest = seq![a.last()] + extra;
            assert(a + extra =~= a.drop_last() + rest);
            lemma_tushare_run_extra(transport, token, dl, a.drop_last(), rest);
            let rest2 = seq![a.last()] + extra.drop_last();
            assert((a + extra).drop_last() =~= a.drop_last() + rest2);
            lemma_tushare_run_extra(transport, token, dl, a.drop_last(), rest2);
        }
    }
}

proof fn lemma_tushare_run_stops<T: JsonTransport>(
    transport: &T,
    token: Seq<char>,
    secs: Seq<MarketSecurity>,
    k: int,
    answers: Seq<Result<JsonValue, MarketAdapterError>>,
)
    requires
        0 <= k <= secs.len(),
        tushare_run(transport, token, secs.take(k), answers) matches Some(Err(_)),
    ensures
        tushare_run(transport, token, secs, answers) == tushare_run(transport, token, secs.take(k), answers),
    decreases secs.len() - k,
{
    if k < secs.len() {
        let t = secs.take(k + 1);
        assert(t.drop_last() =~= secs.take(k));
        lemma_tushare_run_stops(transport, token, secs, k + 1, answers);
    } else {
        assert(secs.take(k) =~= secs);
    }
}

proof fn lemma_parts_concat(a: Seq<RawMarketQuote>, pa: Seq<QuoteParts>, b: Seq<RawMarketQuote>, pb: Seq<QuoteParts>)
    requires
        raws_from_parts(a, pa, "LOTS"@, "THOUSAND_CNY"@),
        raws_from_parts(b, pb, "LOTS"@, "THOUSAND_CNY"@),
    ensures
        raws_from_parts(a + b, pa + pb, "LOTS"@, "THOUSAND_CNY"@),
{
    assert forall|i: int| 0 <= i < (a + b).len() implies #[trigger] raw_from_parts(
        (a + b)[i],
        (pa + pb)[i],
        "LOTS"@,
        "THOUSAND_CNY"@,
    ) by {
        if i < a.len() {
            assert((a + b)[i] == a[i] && (pa + pb)[i] == pa[i]);
        } else {
            assert((a + b)[i] == b[i - a.len()] && (pa + pb)[i] == pb[i - a.len()]);
        }
    }
}

pub open spec fn tushare_record_of(q: RawMarketQuote, secs: Seq<MarketSecurity>) -> bool {
    &&& secs.contains(q.security)
    &&& q.volume_unit@ == "LOTS"@
    &&& q.turnover_unit@ == "THOUSAND_CNY"@
}

proof fn lemma_tushare_parts_security(payload: JsonValue, security: MarketSecurity, j: int)
    requires
        tushare_daily_spec(payload, security) matches Ok(ps) && 0 <= j < ps.len(),
    ensures
        tushare_daily_spec(payload, security)->Ok_0[j].security == security,
{
}

} // verus!
