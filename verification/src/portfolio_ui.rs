//! The local holdings screen.
//!
//! The screen only sends user input and renders these views. Cost, market value and daily P&L
//! come from the portfolio calculations and source-backed quotes; a value that cannot be derived
//! from them stays absent instead of being invented.
use vstd::prelude::*;

use crate::decimal::{
    checked_mul, decimal_checked_mul, decimal_from_str, decimal_string, decimal_to_string,
    greater, parse_decimal, value_order, Dec,
};
use crate::market::{MarketService, MarketStatus};
use crate::portfolio::{
    daily_pnl_outcome, opening_balance_outcome, valuation_outcome, PortfolioService, Position,
    SecurityType, TradeRule,
};
use crate::records::{PortfolioHoldingData, WatchlistItemData};
use crate::text::{
    all_ascii_digits, all_digits, chars_of, concat2, int_text, i64_text, is_digit, str_eq, trim,
    trim_str, trim_vec,
};

verus! {

#[derive(Debug, Clone)]
pub struct CreateHoldingInput {
    pub symbol: String,
    pub name: String,
    pub market: String,
    pub security_type: String,
    pub quantity: String,
    pub average_cost: String,
}

/// A research follow carries no quantity, cost or transaction data.
#[derive(Debug, Clone)]
pub struct CreateWatchlistInput {
    pub symbol: String,
    pub name: String,
}

/// The exact identity of a follow: the watchlist row and its security, so that an unrelated
/// historical position is never taken for the follow.
#[derive(Debug, Clone)]
pub struct DeleteWatchlistInput {
    pub watchlist_item_id: i64,
    pub security_id: i64,
}

/// A persisted security offered as a candidate; the screen never invents a code and name pair.
#[derive(Debug, Clone, PartialEq, Eq)]
pub struct SecurityLookupView {
    pub security_id: i64,
    pub symbol: String,
    pub name: String,
    pub exchange: String,
}

#[derive(Debug, Clone)]
pub struct UpdateHoldingInput {
    pub holding_id: i64,
    pub name: String,
    pub quantity: String,
    pub average_cost: String,
}

#[derive(Debug, Clone, PartialEq, Eq)]
pub struct PortfolioHoldingView {
    pub holding_id: i64,
    pub security_id: i64,
    pub name: String,
    pub symbol: String,
    pub market: String,
    pub security_type: String,
    pub quantity: String,
    pub available_quantity: Option<String>,
    pub average_cost: String,
    pub current_price: Option<String>,
    pub market_value: Option<String>,
    pub daily_pnl: Option<String>,
    pub total_pnl: Option<String>,
    pub change_percent: Option<String>,
    pub transaction_status: String,
    pub is_watchlist: bool,
    pub profile_status: Option<String>,
}

#[derive(Debug, PartialEq, Eq)]
pub enum PortfolioUiError {
    Database(String),
    Validation(&'static str),
    ExistingHolding,
    MissingHolding,
}

/// The text a holdings-screen error displays.
pub open spec fn portfolio_ui_error_text(e: PortfolioUiError) -> Seq<char> {
    match e {
        PortfolioUiError::Database(m) => "database error: "@ + m@,
        PortfolioUiError::Validation(m) => m@,
        PortfolioUiError::ExistingHolding => "该证券已在我的关注中"@,
        PortfolioUiError::MissingHolding => "未找到该持仓"@,
    }
}

impl PortfolioUiError {
    /// The text the error displays.
    pub fn message(&self) -> (r: String)
        ensures
            r@ == portfolio_ui_error_text(*self),
    {
        match self {
            PortfolioUiError::Database(m) => concat2("database error: ", m.as_str()),
            PortfolioUiError::Validation(m) => String::from_str(m),
            PortfolioUiError::ExistingHolding => String::from_str("该证券已在我的关注中"),
            PortfolioUiError::MissingHolding => String::from_str("未找到该持仓"),
        }
    }
}

pub open spec fn validation(m: &'static str) -> PortfolioUiError {
    PortfolioUiError::Validation(m)
}

/// A trimmed name, refused when blank.
pub fn normalized_name(value: &str) -> (r: Result<String, PortfolioUiError>)
    ensures
        trim(value@).len() == 0 ==> r == Err::<String, PortfolioUiError>(validation("证券名称不能为空")),
        trim(value@).len() > 0 ==> (r matches Ok(s) && s@ == trim(value@)),
{
    let t = trim_vec(&chars_of(value));
    if t.len() == 0 {
        Err(PortfolioUiError::Validation("证券名称不能为空"))
    } else {
        Ok(crate::text::string_of(&t))
    }
}

/// A six-digit A-share code.
pub open spec fn is_six_digit_code(s: Seq<char>) -> bool {
    s.len() == 6 && all_digits(s)
}

/// A trimmed six-digit code, refused otherwise.
pub fn normalized_symbol(value: &str) -> (r: Result<String, PortfolioUiError>)
    ensures
        !is_six_digit_code(trim(value@)) ==> r == Err::<String, PortfolioUiError>(
            validation("证券代码必须是 6 位数字"),
        ),
        is_six_digit_code(trim(value@)) ==> (r matches Ok(s) && s@ == trim(value@)),
{
    let t = trim_vec(&chars_of(value));
    if t.len() == 6 && all_ascii_digits(&t) {
        Ok(crate::text::string_of(&t))
    } else {
        Err(PortfolioUiError::Validation("证券代码必须是 6 位数字"))
    }
}

/// The value of a string of ASCII digits.
pub open spec fn digits_value(s: Seq<char>) -> nat
    decreases s.len(),
{
    if s.len() == 0 {
        0
    } else {
        digits_value(s.drop_last()) * 10 + (s.last() as nat - '0' as nat) as nat
    }
}

/// What `str::parse::<i64>` gives: an optional `+` or `-` followed by at least one ASCII digit,
/// within the range of `i64`.
pub open spec fn i64_parse(s: Seq<char>) -> Option<i64> {
    let signed = s.len() > 0 && (s[0] == '+' || s[0] == '-');
    let negative = s.len() > 0 && s[0] == '-';
    let digits = if signed {
        s.skip(1)
    } else {
        s
    };
    let v: int = if negative {
        -(digits_value(digits) as int)
    } else {
        digits_value(digits) as int
    };
    if digits.len() == 0 || !all_digits(digits) || v < i64::MIN || v > i64::MAX {
        None
    } else {
        Some(v as i64)
    }
}

proof fn lemma_magnitude_grows(d: Seq<char>, i: int)
    requires
        0 <= i <= d.len(),
    ensures
        digits_value(d.take(i)) <= digits_value(d),
    decreases d.len() - i,
{
    if i < d.len() {
        lemma_magnitude_grows(d, i + 1);
        assert(d.take(i + 1).drop_last() =~= d.take(i));
    } else {
        assert(d.take(i) =~= d);
    }
}

/// `str::parse::<i64>`: the sign, then the digits' magnitude, refused once it passes 2^63.
fn parse_i64(text: &str) -> (r: Option<i64>)
    ensures
        r == i64_parse(text@),
{
    let s = chars_of(text);
    let signed = s.len() > 0 && (s[0] == '+' || s[0] == '-');
    let negative = s.len() > 0 && s[0] == '-';
    let start: usize = if signed {
        1
    } else {
        0
    };
    let ghost d = if signed {
        s@.skip(1)
    } else {
        s@
    };
    assert(d =~= s@.subrange(start as int, s@.len() as int));
    if start >= s.len() {
        return None;
    }
    let limit: u128 = 9223372036854775808;
    let mut value: u128 = 0;
    let mut i: usize = start;
    while i < s.len()
        invariant
            start <= i <= s@.len(),
            start < s@.len(),
            s@ == text@,
            d =~= s@.subrange(start as int, s@.len() as int),
            d == (if s@.len() > 0 && (s@[0] == '+' || s@[0] == '-') {
                s@.skip(1)
            } else {
                s@
            }),
            all_digits(d.take(i - start)),
            value as int == digits_value(d.take(i - start)),
            value <= limit,
            limit == 9223372036854775808,
        decreases s.len() - i,
    {
        let c = s[i];
        if !('0' <= c && c <= '9') {
            proof {
                assert(d[i - start] == c);
                assert(!is_digit(d[i - start]));
                assert(!all_digits(d));
            }
            return None;
        }
        proof {
            assert(d.take(i - start + 1).drop_last() =~= d.take(i - start));
            assert(d.take(i - start + 1).last() == c);
            assert forall|k: int| 0 <= k < d.take(i - start + 1).len() implies #[trigger] is_digit(
                d.take(i - start + 1)[k],
            ) by {
                if k < i - start {
                    assert(d.take(i - start + 1)[k] == d.take(i - start)[k]);
                }
            }
        }
        let next: u128 = value * 10 + (c as u128 - '0' as u128);
        proof {
            assert(digits_value(d.take(i - start + 1)) == next);
        }
        if next > limit {
            proof {
                lemma_magnitude_grows(d, i - start + 1);
            }
            return None;
        }
        value = next;
        i = i + 1;
    }
    proof {
        assert(d.take(i - start) =~= d);
    }
    if negative {
        if value == limit {
            Some(i64::MIN)
        } else {
            let m: i64 = value as i64;
            Some(-m)
        }
    } else if value < limit {
        Some(value as i64)
    } else {
        None
    }
}

/// A positive whole quantity.
pub open spec fn positive_quantity(s: Seq<char>) -> Option<i64> {
    match i64_parse(trim(s)) {
        Some(q) => if q > 0 {
            Some(q)
        } else {
            None
        },
        None => None,
    }
}

pub fn parse_positive_quantity(value: &str) -> (r: Result<i64, PortfolioUiError>)
    ensures
        match positive_quantity(value@) {
            Some(q) => r == Ok::<i64, PortfolioUiError>(q),
            None => r == Err::<i64, PortfolioUiError>(validation("持仓数量必须是正整数")),
        },
{
    let t = trim_str(value);
    match parse_i64(t.as_str()) {
        Some(q) => if q > 0 {
            Ok(q)
        } else {
            Err(PortfolioUiError::Validation("持仓数量必须是正整数"))
        },
        None => Err(PortfolioUiError::Validation("持仓数量必须是正整数")),
    }
}

/// A decimal above zero.
pub open spec fn positive_decimal(s: Seq<char>) -> Option<Dec> {
    match decimal_from_str(trim(s)) {
        Some(d) => if value_order(d, Dec::zero_spec()) == 1 {
            Some(d)
        } else {
            None
        },
        None => None,
    }
}

pub fn parse_positive_decimal(value: &str, message: &'static str) -> (r: Result<Dec, PortfolioUiError>)
    ensures
        match positive_decimal(value@) {
            Some(d) => r == Ok::<Dec, PortfolioUiError>(d) && d.wf(),
            None => r == Err::<Dec, PortfolioUiError>(validation(message)),
        },
{
    let t = trim_str(value);
    match parse_decimal(t.as_str()) {
        Some(d) => if greater(d, Dec::zero()) {
            Ok(d)
        } else {
            Err(PortfolioUiError::Validation(message))
        },
        None => Err(PortfolioUiError::Validation(message)),
    }
}

pub open spec fn security_type_of(s: Seq<char>) -> Option<SecurityType> {
    if s == "STOCK"@ {
        Some(SecurityType::Stock)
    } else if s == "ETF"@ {
        Some(SecurityType::Etf)
    } else {
        None
    }
}

pub fn parse_security_type(value: &str) -> (r: Result<SecurityType, PortfolioUiError>)
    ensures
        match security_type_of(value@) {
            Some(t) => r == Ok::<SecurityType, PortfolioUiError>(t),
            None => r == Err::<SecurityType, PortfolioUiError>(validation("证券类型未确认")),
        },
{
    if str_eq(value, "STOCK") {
        Ok(SecurityType::Stock)
    } else if str_eq(value, "ETF") {
        Ok(SecurityType::Etf)
    } else {
        Err(PortfolioUiError::Validation("证券类型未确认"))
    }
}

pub open spec fn trade_rule_of(s: Seq<char>) -> Option<TradeRule> {
    if s == "T_PLUS_1"@ {
        Some(TradeRule::TPlus1)
    } else if s == "T_PLUS_0"@ {
        Some(TradeRule::TPlus0)
    } else if s == "UNKNOWN"@ {
        Some(TradeRule::Unknown)
    } else {
        None
    }
}

pub fn parse_trade_rule(value: &str) -> (r: Result<TradeRule, PortfolioUiError>)
    ensures
        match trade_rule_of(value@) {
            Some(t) => r == Ok::<TradeRule, PortfolioUiError>(t),
            None => r == Err::<TradeRule, PortfolioUiError>(validation("交易规则未确认")),
        },
{
    if str_eq(value, "T_PLUS_1") {
        Ok(TradeRule::TPlus1)
    } else if str_eq(value, "T_PLUS_0") {
        Ok(TradeRule::TPlus0)
    } else if str_eq(value, "UNKNOWN") {
        Ok(TradeRule::Unknown)
    } else {
        Err(PortfolioUiError::Validation("交易规则未确认"))
    }
}

pub open spec fn market_status_of(s: Seq<char>) -> Option<MarketStatus> {
    if s == "REALTIME"@ {
        Some(MarketStatus::Realtime)
    } else if s == "DELAYED"@ {
        Some(MarketStatus::Delayed)
    } else if s == "CLOSED"@ {
        Some(MarketStatus::Closed)
    } else if s == "NO_DATA"@ {
        Some(MarketStatus::NoData)
    } else {
        None
    }
}

pub fn parse_market_status(value: &str) -> (r: Option<MarketStatus>)
    ensures
        r == market_status_of(value@),
{
    if str_eq(value, "REALTIME") {
        Some(MarketStatus::Realtime)
    } else if str_eq(value, "DELAYED") {
        Some(MarketStatus::Delayed)
    } else if str_eq(value, "CLOSED") {
        Some(MarketStatus::Closed)
    } else if str_eq(value, "NO_DATA") {
        Some(MarketStatus::NoData)
    } else {
        None
    }
}

/// A validated holding input.
#[derive(Debug)]
pub struct ParsedCreateInput {
    pub symbol: String,
    pub name: String,
    pub market: String,
    pub security_type: String,
    pub trade_rule: String,
    pub portfolio_security_type: SecurityType,
    pub trade_rule_value: TradeRule,
    pub quantity: i64,
    pub average_cost: Dec,
}

/// Why a holding input is refused, checked in this order: code, market, security type, name,
/// quantity, cost.
pub open spec fn create_problem(input: CreateHoldingInput) -> Option<PortfolioUiError> {
    if !is_six_digit_code(trim(input.symbol@)) {
        Some(validation("证券代码必须是 6 位数字"))
    } else if !(input.market@ == "SSE"@ || input.market@ == "SZSE"@) {
        Some(validation("市场必须是 SSE 或 SZSE"))
    } else if !(input.security_type@ == "STOCK"@ || input.security_type@ == "ETF"@) {
        Some(validation("证券类型必须是 STOCK 或 ETF"))
    } else if trim(input.name@).len() == 0 {
        Some(validation("证券名称不能为空"))
    } else if positive_quantity(input.quantity@) is None {
        Some(validation("持仓数量必须是正整数"))
    } else if positive_decimal(input.average_cost@) is None {
        Some(validation("成本价必须大于 0"))
    } else {
        None
    }
}

/// The trade rule a new holding gets: stocks settle T+1; an ETF's rule is not known.
pub open spec fn rule_for(t: SecurityType) -> TradeRule {
    match t {
        SecurityType::Stock => TradeRule::TPlus1,
        SecurityType::Etf => TradeRule::Unknown,
    }
}

pub open spec fn trade_rule_code(r: TradeRule) -> Seq<char> {
    match r {
        TradeRule::TPlus1 => "T_PLUS_1"@,
        TradeRule::TPlus0 => "T_PLUS_0"@,
        TradeRule::Unknown => "UNKNOWN"@,
    }
}

/// `p` is the validated form of `input`.
pub open spec fn parsed_of(p: ParsedCreateInput, input: CreateHoldingInput) -> bool {
    &&& p.symbol@ == trim(input.symbol@)
    &&& p.name@ == trim(input.name@)
    &&& p.market == input.market
    &&& p.security_type == input.security_type
    &&& security_type_of(input.security_type@) == Some(p.portfolio_security_type)
    &&& p.trade_rule_value == rule_for(p.portfolio_security_type)
    &&& p.trade_rule@ == trade_rule_code(p.trade_rule_value)
    &&& Some(p.quantity) == positive_quantity(input.quantity@)
    &&& Some(p.average_cost) == positive_decimal(input.average_cost@)
    &&& p.average_cost.wf()
}

impl ParsedCreateInput {
    pub fn parse(input: CreateHoldingInput) -> (r: Result<Self, PortfolioUiError>)
        ensures
            match create_problem(input) {
                Some(e) => r == Err::<ParsedCreateInput, PortfolioUiError>(e),
                None => r matches Ok(p) && parsed_of(p, input),
            },
    {
        let symbol = match normalized_symbol(input.symbol.as_str()) {
            Ok(s) => s,
            Err(e) => return Err(e),
        };
        if !(str_eq(input.market.as_str(), "SSE") || str_eq(input.market.as_str(), "SZSE")) {
            return Err(PortfolioUiError::Validation("市场必须是 SSE 或 SZSE"));
        }
        let portfolio_security_type = if str_eq(input.security_type.as_str(), "STOCK") {
            SecurityType::Stock
        } else if str_eq(input.security_type.as_str(), "ETF") {
            SecurityType::Etf
        } else {
            return Err(PortfolioUiError::Validation("证券类型必须是 STOCK 或 ETF"));
        };
        let trade_rule_value = match portfolio_security_type {
            SecurityType::Stock => TradeRule::TPlus1,
            SecurityType::Etf => TradeRule::Unknown,
        };
        let trade_rule = match trade_rule_value {
            TradeRule::TPlus1 => String::from_str("T_PLUS_1"),
            TradeRule::TPlus0 => String::from_str("T_PLUS_0"),
            TradeRule::Unknown => String::from_str("UNKNOWN"),
        };
        let name = match normalized_name(input.name.as_str()) {
            Ok(n) => n,
            Err(e) => return Err(e),
        };
        let quantity = match parse_positive_quantity(input.quantity.as_str()) {
            Ok(q) => q,
            Err(e) => return Err(e),
        };
        let average_cost = match parse_positive_decimal(input.average_cost.as_str(), "成本价必须大于 0") {
            Ok(d) => d,
            Err(e) => return Err(e),
        };
        Ok(
            ParsedCreateInput {
                symbol,
                name,
                market: input.market,
                security_type: input.security_type,
                trade_rule,
                portfolio_security_type,
                trade_rule_value,
                quantity,
                average_cost,
            },
        )
    }
}

/// The amounts a holding row stores.
#[derive(Debug)]
pub struct OpeningHolding {
    pub quantity: i64,
    pub available_quantity: i64,
    pub average_cost: String,
    pub cost_amount: String,
}

/// What can be sold of a new or edited holding: all of it, unless the trade rule is unknown.
pub open spec fn available_for(rule: TradeRule, quantity: i64) -> i64 {
    if rule == TradeRule::Unknown {
        0
    } else {
        quantity
    }
}

pub struct PortfolioUiService;

pub open spec fn parsed_dec(o: Option<String>) -> Option<Dec> {
    match o {
        Some(s) => decimal_from_str(s@),
        None => None,
    }
}

/// The quote status of the row allows valuation: real-time or a completed market.
pub open spec fn usable_quote(data: PortfolioHoldingData) -> bool {
    match data.quote_status {
        Some(s) => match market_status_of(s@) {
            Some(st) => st == MarketStatus::Realtime || st == MarketStatus::Closed,
            None => false,
        },
        None => false,
    }
}

/// Why a stored holding with shares cannot be shown.
pub open spec fn view_problem(data: PortfolioHoldingData) -> Option<PortfolioUiError> {
    if security_type_of(data.security_type@) is None {
        Some(validation("证券类型未确认"))
    } else if trade_rule_of(data.trade_rule@) is None {
        Some(validation("交易规则未确认"))
    } else if decimal_from_str(data.average_cost@) is None {
        Some(validation("持仓成本数据未确认"))
    } else {
        match opening_balance_outcome(
            trade_rule_of(data.trade_rule@)->Some_0,
            data.quantity,
            data.available_quantity,
            decimal_from_str(data.average_cost@)->Some_0,
        ) {
            Some(Err(_)) => Some(validation("持仓数量数据未确认")),
            _ => None,
        }
    }
}

/// The position of a stored holding that can be shown.
pub open spec fn stored_position(data: PortfolioHoldingData) -> Option<Position> {
    match opening_balance_outcome(
        trade_rule_of(data.trade_rule@)->Some_0,
        data.quantity,
        data.available_quantity,
        decimal_from_str(data.average_cost@)->Some_0,
    ) {
        Some(Ok(p)) => Some(p),
        _ => None,
    }
}

/// The figures of a showable holding cannot be computed: an amount overflows.
pub open spec fn view_overflows(data: PortfolioHoldingData) -> bool {
    let p = stored_position(data)->Some_0;
    let usable = usable_quote(data);
    let cur = parsed_dec(data.current_price);
    let prev = parsed_dec(data.previous_close);
    &&& data.quantity != 0
    &&& view_problem(data) is None
    &&& (stored_position(data) is None || (usable && cur is Some && valuation_outcome(p, cur->Some_0)
        is None) || (usable && cur is Some && prev is Some && daily_pnl_outcome(
        p,
        cur->Some_0,
        prev->Some_0,
    ) is None))
}

pub open spec fn opt_dec_text(v: Option<String>, d: Option<Dec>) -> bool {
    match d {
        Some(x) => v is Some && v->Some_0@ == decimal_to_string(x),
        None => v is None,
    }
}

/// The view of a row without shares: a follow, with no amount.
pub open spec fn zero_view_of(v: PortfolioHoldingView, data: PortfolioHoldingData) -> bool {
    &&& v.holding_id == data.holding_id
    &&& v.security_id == data.security_id
    &&& v.name == data.name
    &&& v.symbol == data.symbol
    &&& v.market == data.market
    &&& v.security_type == data.security_type
    &&& v.quantity@ == "0"@
    &&& v.available_quantity is Some && v.available_quantity->Some_0@ == "0"@
    &&& v.average_cost@ == "0"@
    &&& v.current_price == data.current_price
    &&& v.market_value is None
    &&& v.daily_pnl is None
    &&& v.total_pnl is None
    &&& v.change_percent == data.change_percent
    &&& v.transaction_status@ == "关注标的"@
    &&& v.is_watchlist
    &&& v.profile_status is None
}

/// The view of a held position: its figures from the position, the quote formatted again, and
/// market value and daily P&L only from a usable quote; total P&L needs the full ledger and is
/// never shown here.
pub open spec fn holding_view_of(v: PortfolioHoldingView, data: PortfolioHoldingData) -> bool {
    let p = stored_position(data)->Some_0;
    let usable = usable_quote(data);
    let cur = parsed_dec(data.current_price);
    let prev = parsed_dec(data.previous_close);
    &&& v.holding_id == data.holding_id
    &&& v.security_id == data.security_id
    &&& v.name == data.name
    &&& v.symbol == data.symbol
    &&& v.market == data.market
    &&& v.security_type == data.security_type
    &&& v.quantity@ == int_text(data.quantity as int)
    &&& (match p.available_quantity {
        Some(a) => v.available_quantity is Some && v.available_quantity->Some_0@ == int_text(a as int),
        None => v.available_quantity is None,
    })
    &&& v.average_cost@ == decimal_to_string(p.average_cost)
    &&& opt_dec_text(v.current_price, cur)
    &&& opt_dec_text(
        v.market_value,
        if usable && cur is Some {
            Some(valuation_outcome(p, cur->Some_0)->Some_0.market_value)
        } else {
            None
        },
    )
    &&& opt_dec_text(
        v.daily_pnl,
        if usable && cur is Some && prev is Some {
            Some(daily_pnl_outcome(p, cur->Some_0, prev->Some_0)->Some_0)
        } else {
            None
        },
    )
    &&& v.total_pnl is None
    &&& v.change_percent == data.change_percent
    &&& (match data.transaction_status {
        Some(t) => v.transaction_status == t,
        None => v.transaction_status@ == "暂无交易记录"@,
    })
    &&& !v.is_watchlist
    &&& v.profile_status is None
}

/// `v` shows a follow.
pub open spec fn watchlist_view_of(v: PortfolioHoldingView, data: WatchlistItemData) -> bool {
    &&& v.holding_id == data.watchlist_item_id
    &&& v.security_id == data.security_id
    &&& v.name == data.name
    &&& v.symbol == data.symbol
    &&& v.market == data.market
    &&& v.security_type == data.security_type
    &&& v.quantity@ == "0"@
    &&& v.available_quantity is None
    &&& v.average_cost@ == "0"@
    &&& v.current_price == data.current_price
    &&& v.market_value is None
    &&& v.daily_pnl is None
    &&& v.total_pnl is None
    &&& v.change_percent == data.change_percent
    &&& v.transaction_status@ == "关注标的"@
    &&& v.is_watchlist
    &&& v.profile_status == data.profile_status
}

fn opt_decimal(o: &Option<String>) -> (r: Option<Dec>)
    ensures
        r == parsed_dec(*o),
        r matches Some(d) ==> d.wf(),
{
    match o {
        Some(s) => parse_decimal(s.as_str()),
        None => None,
    }
}

fn opt_dec_string(d: Option<Dec>) -> (r: Option<String>)
    requires
        d matches Some(x) ==> x.wf(),
    ensures
        opt_dec_text(r, d),
{
    match d {
        Some(x) => Some(decimal_string(x)),
        None => None,
    }
}

impl PortfolioUiService {
    /// The amounts stored for an opening balance of `quantity` at `average_cost`: everything is
    /// sellable unless the trade rule is unknown. `None` exactly when the cost amount overflows.
    pub fn opening_holding(
        security_type: SecurityType,
        trade_rule: TradeRule,
        quantity: i64,
        average_cost: Dec,
        message: &'static str,
    ) -> (r: Option<Result<OpeningHolding, PortfolioUiError>>)
        requires
            average_cost.wf(),
        ensures
            match opening_balance_outcome(
                trade_rule,
                quantity,
                available_for(trade_rule, quantity),
                average_cost,
            ) {
                None => r is None,
                Some(Err(_)) => r == Some(Err::<OpeningHolding, PortfolioUiError>(validation(message))),
                Some(Ok(p)) => r matches Some(Ok(h)) && h.quantity == p.quantity && h.available_quantity
                    == available_for(trade_rule, quantity) && h.average_cost@ == decimal_to_string(
                    p.average_cost,
                ) && h.cost_amount@ == decimal_to_string(p.cost_amount),
            },
    {
        let service = PortfolioService::new(security_type, trade_rule);
        let available = match trade_rule {
            TradeRule::Unknown => 0,
            _ => quantity,
        };
        match service.try_position_from_opening_balance(quantity, available, average_cost) {
            None => None,
            Some(Err(_)) => Some(Err(PortfolioUiError::Validation(message))),
            Some(Ok(p)) => Some(
                Ok(
                    OpeningHolding {
                        quantity: p.quantity,
                        available_quantity: available,
                        average_cost: decimal_string(p.average_cost),
                        cost_amount: decimal_string(p.cost_amount),
                    },
                ),
            ),
        }
    }

    /// The view of a follow.
    pub fn watchlist_view(data: WatchlistItemData) -> (r: PortfolioHoldingView)
        ensures
            watchlist_view_of(r, data),
    {
        PortfolioHoldingView {
            holding_id: data.watchlist_item_id,
            security_id: data.security_id,
            name: data.name,
            symbol: data.symbol,
            market: data.market,
            security_type: data.security_type,
            quantity: String::from_str("0"),
            available_quantity: None,
            average_cost: String::from_str("0"),
            current_price: data.current_price,
            market_value: None,
            daily_pnl: None,
            total_pnl: None,
            change_percent: data.change_percent,
            transaction_status: String::from_str("关注标的"),
            is_watchlist: true,
            profile_status: data.profile_status,
        }
    }

    /// The view of a stored holding. `None` exactly where an amount overflows.
    pub fn to_view(data: PortfolioHoldingData) -> (r: Option<Result<PortfolioHoldingView, PortfolioUiError>>)
        ensures
            r is None <==> view_overflows(data),
            data.quantity == 0 ==> (r matches Some(Ok(v)) && zero_view_of(v, data)),
            data.quantity != 0 && view_problem(data) is Some ==> r == Some(
                Err::<PortfolioHoldingView, PortfolioUiError>(view_problem(data)->Some_0),
            ),
            data.quantity != 0 && view_problem(data) is None && !view_overflows(data) ==> (r matches Some(
                Ok(v),
            ) && holding_view_of(v, data)),
    {
        if data.quantity == 0 {
            return Some(
                Ok(
                    PortfolioHoldingView {
                        holding_id: data.holding_id,
                        security_id: data.security_id,
                        name: data.name,
                        symbol: data.symbol,
                        market: data.market,
                        security_type: data.security_type,
                        quantity: String::from_str("0"),
                        available_quantity: Some(String::from_str("0")),
                        average_cost: String::from_str("0"),
                        current_price: data.current_price,
                        market_value: None,
                        daily_pnl: None,
                        total_pnl: None,
                        change_percent: data.change_percent,
                        transaction_status: String::from_str("关注标的"),
                        is_watchlist: true,
                        profile_status: None,
                    },
                ),
            );
        }
        let security_type = match parse_security_type(data.security_type.as_str()) {
            Ok(t) => t,
            Err(e) => return Some(Err(e)),
        };
        let trade_rule = match parse_trade_rule(data.trade_rule.as_str()) {
            Ok(t) => t,
            Err(e) => return Some(Err(e)),
        };
        let service = PortfolioService::new(security_type, trade_rule);
        let average_cost = match parse_decimal(data.average_cost.as_str()) {
            Some(d) => d,
            None => return Some(Err(PortfolioUiError::Validation("持仓成本数据未确认"))),
        };
        let position = match service.try_position_from_opening_balance(
            data.quantity,
            data.available_quantity,
            average_cost,
        ) {
            None => return None,
            Some(Err(_)) => return Some(Err(PortfolioUiError::Validation("持仓数量数据未确认"))),
            Some(Ok(p)) => p,
        };
        let quote_status = match &data.quote_status {
            Some(s) => parse_market_status(s.as_str()),
            None => None,
        };
        let current_price = opt_decimal(&data.current_price);
        let previous_close = opt_decimal(&data.previous_close);
        let usable = match quote_status {
            Some(st) => MarketService::is_usable_for_valuation(st),
            None => false,
        };
        let market_value = match current_price {
            Some(price) => if usable {
                match service.try_value_position(&position, price) {
                    Some(v) => Some(v.market_value),
                    None => return None,
                }
            } else {
                None
            },
            None => None,
        };
        let daily_pnl = match (current_price, previous_close) {
            (Some(price), Some(close)) => if usable {
                match service.try_daily_pnl(&position, price, close) {
                    Some(d) => Some(d),
                    None => return None,
                }
            } else {
                None
            },
            _ => None,
        };
        let available_quantity = match position.available_quantity {
            Some(q) => Some(i64_text(q)),
            None => None,
        };
        let transaction_status = match data.transaction_status {
            Some(t) => t,
            None => String::from_str("暂无交易记录"),
        };
        Some(
            Ok(
                PortfolioHoldingView {
                    holding_id: data.holding_id,
                    security_id: data.security_id,
                    name: data.name,
                    symbol: data.symbol,
                    market: data.market,
                    security_type: data.security_type,
                    quantity: i64_text(data.quantity),
                    available_quantity,
                    average_cost: decimal_string(position.average_cost),
                    current_price: opt_dec_string(current_price),
                    market_value: opt_dec_string(market_value),
                    daily_pnl: opt_dec_string(daily_pnl),
                    total_pnl: None,
                    change_percent: data.change_percent,
                    transaction_status,
                    is_watchlist: false,
                    profile_status: None,
                },
            ),
        )
    }
}

} // verus!
