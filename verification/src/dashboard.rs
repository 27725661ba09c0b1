//! The dashboard: asset totals and the index board.
//!
//! Totals are computed only from local cash accounts, holding views and source-backed quotes.
//! Where an input is incomplete the field is absent, so the screen shows that there is no data
//! instead of a substituted value.
use vstd::prelude::*;

use crate::decimal::{
    checked_add, checked_div, checked_mul, checked_sub, decimal_checked_add, decimal_checked_div,
    decimal_checked_mul, decimal_checked_sub, decimal_from_str, decimal_to_string, normalize_spec,
    normalized_string, parse_decimal, Dec,
};
use crate::portfolio_ui::{portfolio_ui_error_text, PortfolioHoldingView, PortfolioUiError};
use crate::records::MarketIndexQuoteRecord;
use crate::text::{concat2, str_eq};

verus! {

#[derive(Debug, Clone, PartialEq, Eq)]
pub struct AssetSummaryView {
    pub total_assets: Option<String>,
    pub stock_market_value: Option<String>,
    pub cash: Option<String>,
    pub daily_pnl: Option<String>,
    pub total_pnl: Option<String>,
    pub return_rate: Option<String>,
    pub valuation_source: Option<String>,
    pub valuation_timestamp: Option<String>,
}

#[derive(Debug, Clone, PartialEq, Eq)]
pub struct MarketIndexQuoteView {
    pub name: String,
    pub symbol: String,
    pub current_price: Option<String>,
    pub change_percent: Option<String>,
    pub source: Option<String>,
    pub status: String,
    pub updated_at: Option<String>,
}

#[derive(Debug)]
pub enum DashboardError {
    Database(String),
    Portfolio(PortfolioUiError),
}

impl DashboardError {
    /// The text the error displays.
    pub fn message(&self) -> (r: String)
        ensures
            match *self {
                DashboardError::Database(m) => r@ == "database error: "@ + m@,
                DashboardError::Portfolio(e) => r@ == "portfolio error: "@ + portfolio_ui_error_text(e),
            },
    {
        match self {
            DashboardError::Database(m) => concat2("database error: ", m.as_str()),
            DashboardError::Portfolio(e) => {
                let t = e.message();
                concat2("portfolio error: ", t.as_str())
            },
        }
    }
}

/// The source and time of the quote snapshot behind the valuation.
#[derive(Debug, Clone)]
pub struct ValuationSnapshot {
    pub source: String,
    pub market_timestamp: String,
}

/// `Decimal`'s `Sum`: additions from zero, in order; `None` when one overflows.
pub open spec fn dec_sum(xs: Seq<Dec>) -> Option<Dec>
    decreases xs.len(),
{
    if xs.len() == 0 {
        Some(Dec::zero_spec())
    } else {
        match dec_sum(xs.drop_last()) {
            Some(a) => decimal_checked_add(a, xs.last()),
            None => None,
        }
    }
}

/// Every text read as a decimal, or `None` when one cannot be.
pub open spec fn parse_all(xs: Seq<Seq<char>>) -> Option<Seq<Dec>>
    decreases xs.len(),
{
    if xs.len() == 0 {
        Some(Seq::empty())
    } else {
        match (parse_all(xs.drop_last()), decimal_from_str(xs.last())) {
            (Some(ds), Some(d)) => Some(ds.push(d)),
            _ => None,
        }
    }
}

/// The total of some decimal texts. Outer `None`: the addition overflows; inner `None`: a text
/// is not a decimal, so there is no total.
pub open spec fn text_total(xs: Seq<Seq<char>>) -> Option<Option<Dec>> {
    match parse_all(xs) {
        None => Some(None),
        Some(ds) => match dec_sum(ds) {
            None => None,
            Some(s) => Some(Some(s)),
        },
    }
}

pub open spec fn opt_text(o: Option<String>) -> Seq<char> {
    match o {
        Some(s) => s@,
        None => Seq::empty(),
    }
}

pub open spec fn market_values(hs: Seq<PortfolioHoldingView>) -> Seq<Seq<char>> {
    hs.map_values(|h: PortfolioHoldingView| opt_text(h.market_value))
}

pub open spec fn daily_values(hs: Seq<PortfolioHoldingView>) -> Seq<Seq<char>> {
    hs.map_values(|h: PortfolioHoldingView| opt_text(h.daily_pnl))
}

/// Every holding has a market value and a daily P&L: a partly refreshed portfolio is never shown
/// as a complete total.
pub open spec fn complete(hs: Seq<PortfolioHoldingView>) -> bool {
    hs.len() > 0 && forall|i: int|
        0 <= i < hs.len() ==> (#[trigger] hs[i]).market_value is Some && hs[i].daily_pnl is Some
}

/// The cost of a holding (quantity × average cost). Outer `None`: overflow; inner `None`: a
/// figure cannot be read.
pub open spec fn cost_term(h: PortfolioHoldingView) -> Option<Option<Dec>> {
    match (decimal_from_str(h.quantity@), decimal_from_str(h.average_cost@)) {
        (Some(q), Some(a)) => match decimal_checked_mul(q, a) {
            None => None,
            Some(c) => Some(Some(c)),
        },
        _ => Some(None),
    }
}

/// The open P&L of a holding (market value − quantity × average cost).
pub open spec fn pnl_term(h: PortfolioHoldingView) -> Option<Option<Dec>> {
    match (parsed_market_value(h), decimal_from_str(h.quantity@), decimal_from_str(h.average_cost@)) {
        (Some(m), Some(q), Some(a)) => match decimal_checked_mul(q, a) {
            None => None,
            Some(c) => match decimal_checked_sub(m, c) {
                None => None,
                Some(t) => Some(Some(t)),
            },
        },
        _ => Some(None),
    }
}

pub open spec fn parsed_market_value(h: PortfolioHoldingView) -> Option<Dec> {
    match h.market_value {
        Some(m) => decimal_from_str(m@),
        None => None,
    }
}

/// Terms computed in order, stopping at the first that cannot be read (later ones are not
/// computed). Outer `None`: a computed term overflows.
pub open spec fn terms(hs: Seq<PortfolioHoldingView>, pnl: bool) -> Option<Option<Seq<Dec>>>
    decreases hs.len(),
{
    if hs.len() == 0 {
        Some(Some(Seq::empty()))
    } else {
        match terms(hs.drop_last(), pnl) {
            None => None,
            Some(None) => Some(None),
            Some(Some(ts)) => match (if pnl {
                pnl_term(hs.last())
            } else {
                cost_term(hs.last())
            }) {
                None => None,
                Some(None) => Some(None),
                Some(Some(t)) => Some(Some(ts.push(t))),
            },
        }
    }
}

/// The total of the terms; outer `None` on overflow.
pub open spec fn terms_total(hs: Seq<PortfolioHoldingView>, pnl: bool) -> Option<Option<Dec>> {
    match terms(hs, pnl) {
        None => None,
        Some(None) => Some(None),
        Some(Some(ts)) => match dec_sum(ts) {
            None => None,
            Some(s) => Some(Some(s)),
        },
    }
}

/// The figures of the summary: total assets, stock market value, cash, daily P&L, total P&L and
/// return rate. `None` when an amount overflows.
pub struct SummaryFigures {
    pub total_assets: Option<Dec>,
    pub stock_market_value: Option<Dec>,
    pub cash: Option<Dec>,
    pub daily_pnl: Option<Dec>,
    pub total_pnl: Option<Dec>,
    pub return_rate: Option<Dec>,
}

pub open spec fn summary_figures(
    cash_texts: Seq<Seq<char>>,
    hs: Seq<PortfolioHoldingView>,
    has_confirmed_transactions: bool,
) -> Option<SummaryFigures> {
    let done = complete(hs);
    let cash = if cash_texts.len() == 0 {
        Some(None)
    } else {
        text_total(cash_texts)
    };
    let stock = if done {
        text_total(market_values(hs))
    } else {
        Some(None)
    };
    let daily = if done {
        text_total(daily_values(hs))
    } else {
        Some(None)
    };
    let total_pnl = if done && !has_confirmed_transactions {
        terms_total(hs, true)
    } else {
        Some(None)
    };
    let cost = terms_total(hs, false);
    if cash is None || stock is None || daily is None || total_pnl is None || cost is None {
        None
    } else {
        let c = cash->Some_0;
        let s = stock->Some_0;
        let p = total_pnl->Some_0;
        let k = cost->Some_0;
        let total = match (c, s) {
            (Some(x), Some(y)) => match decimal_checked_add(x, y) {
                None => None,
                Some(t) => Some(Some(t)),
            },
            _ => Some(None),
        };
        let rate = match (p, k) {
            (Some(x), Some(y)) => if !y.is_zero_spec() {
                match decimal_checked_mul(x, Dec::from_i64_spec(100)) {
                    None => None,
                    Some(h) => match decimal_checked_div(h, y) {
                        None => None,
                        Some(q) => Some(Some(q)),
                    },
                }
            } else {
                Some(None)
            },
            _ => Some(None),
        };
        if total is None || rate is None {
            None
        } else {
            Some(
                SummaryFigures {
                    total_assets: total->Some_0,
                    stock_market_value: s,
                    cash: c,
                    daily_pnl: daily->Some_0,
                    total_pnl: p,
                    return_rate: rate->Some_0,
                },
            )
        }
    }
}

/// The text shows the normalized decimal.
pub open spec fn shows(v: Option<String>, d: Option<Dec>) -> bool {
    match d {
        Some(x) => v is Some && v->Some_0@ == decimal_to_string(normalize_spec(x)),
        None => v is None,
    }
}

/// `v` shows the figures, with the valuation source and time only for a complete valuation.
pub open spec fn summary_view_of(
    v: AssetSummaryView,
    f: SummaryFigures,
    hs: Seq<PortfolioHoldingView>,
    snapshot: Option<ValuationSnapshot>,
) -> bool {
    &&& shows(v.total_assets, f.total_assets)
    &&& shows(v.stock_market_value, f.stock_market_value)
    &&& shows(v.cash, f.cash)
    &&& shows(v.daily_pnl, f.daily_pnl)
    &&& shows(v.total_pnl, f.total_pnl)
    &&& shows(v.return_rate, f.return_rate)
    &&& (if snapshot is Some && complete(hs) {
        v.valuation_source == Some(snapshot->Some_0.source) && v.valuation_timestamp == Some(
            snapshot->Some_0.market_timestamp,
        )
    } else {
        v.valuation_source is None && v.valuation_timestamp is None
    })
}

fn sum_decs(xs: &Vec<Dec>) -> (r: Option<Dec>)
    requires
        forall|i: int| 0 <= i < xs@.len() ==> (#[trigger] xs@[i]).wf(),
    ensures
        r == dec_sum(xs@),
        r matches Some(d) ==> d.wf(),
{
    let mut acc = Dec::zero();
    let mut i: usize = 0;
    while i < xs.len()
        invariant
            0 <= i <= xs@.len(),
            forall|k: int| 0 <= k < xs@.len() ==> (#[trigger] xs@[k]).wf(),
            dec_sum(xs@.take(i as int)) == Some(acc),
            acc.wf(),
        decreases xs@.len() - i,
    {
        proof {
            assert(xs@.take(i as int + 1).drop_last() =~= xs@.take(i as int));
            assert(xs@.take(i as int + 1).last() == xs@[i as int]);
        }
        match checked_add(acc, xs[i]) {
            Some(s) => acc = s,
            None => {
                proof {
                    lemma_sum_stays_none(xs@, i as int + 1);
                    assert(xs@.take(xs@.len() as int) =~= xs@);
                }
                return None;
            },
        }
        i = i + 1;
    }
    proof {
        assert(xs@.take(xs@.len() as int) =~= xs@);
    }
    Some(acc)
}

proof fn lemma_sum_stays_none(xs: Seq<Dec>, n: int)
    requires
        0 <= n <= xs.len(),
        dec_sum(xs.take(n)) is None,
    ensures
        dec_sum(xs) is None,
    decreases xs.len() - n,
{
    if n < xs.len() {
        assert(xs.take(n + 1).drop_last() =~= xs.take(n));
        lemma_sum_stays_none(xs, n + 1);
    } else {
        assert(xs.take(n) =~= xs);
    }
}

/// Reads every text; `None` when one is not a decimal.
fn parse_texts(xs: &Vec<String>) -> (r: Option<Vec<Dec>>)
    ensures
        match parse_all(xs@.map_values(|s: String| s@)) {
            Some(ds) => r matches Some(v) && v@ == ds,
            None => r is None,
        },
        r matches Some(v) ==> forall|i: int| 0 <= i < v@.len() ==> (#[trigger] v@[i]).wf(),
{
    let ghost ts = xs@.map_values(|s: String| s@);
    let mut out: Vec<Dec> = Vec::new();
    let mut i: usize = 0;
    while i < xs.len()
        invariant
            0 <= i <= xs@.len(),
            ts == xs@.map_values(|s: String| s@),
            parse_all(ts.take(i as int)) == Some(out@),
            forall|k: int| 0 <= k < out@.len() ==> (#[trigger] out@[k]).wf(),
        decreases xs@.len() - i,
    {
        proof {
            assert(ts.take(i as int + 1).drop_last() =~= ts.take(i as int));
            assert(ts.take(i as int + 1).last() == xs@[i as int]@);
        }
        match parse_decimal(xs[i].as_str()) {
            Some(d) => out.push(d),
            None => {
                proof {
                    lemma_parse_stays_none(ts, i as int + 1);
                }
                return None;
            },
        }
        i = i + 1;
    }
    proof {
        assert(ts.take(ts.len() as int) =~= ts);
    }
    Some(out)
}

proof fn lemma_parse_stays_none(xs: Seq<Seq<char>>, n: int)
    requires
        0 <= n <= xs.len(),
        parse_all(xs.take(n)) is None,
    ensures
        parse_all(xs) is None,
    decreases xs.len() - n,
{
    if n < xs.len() {
        assert(xs.take(n + 1).drop_last() =~= xs.take(n));
        lemma_parse_stays_none(xs, n + 1);
    } else {
        assert(xs.take(n) =~= xs);
    }
}

fn total_of_texts(xs: &Vec<String>) -> (r: Option<Option<Dec>>)
    ensures
        r == text_total(xs@.map_values(|s: String| s@)),
        r matches Some(Some(d)) ==> d.wf(),
{
    match parse_texts(xs) {
        None => Some(None),
        Some(ds) => match sum_decs(&ds) {
            None => None,
            Some(s) => Some(Some(s)),
        },
    }
}

fn cost_term_exec(h: &PortfolioHoldingView) -> (r: Option<Option<Dec>>)
    ensures
        r == cost_term(*h),
        r matches Some(Some(d)) ==> d.wf(),
{
    match (parse_decimal(h.quantity.as_str()), parse_decimal(h.average_cost.as_str())) {
        (Some(q), Some(a)) => match checked_mul(q, a) {
            None => None,
            Some(c) => Some(Some(c)),
        },
        _ => Some(None),
    }
}

fn pnl_term_exec(h: &PortfolioHoldingView) -> (r: Option<Option<Dec>>)
    ensures
        r == pnl_term(*h),
        r matches Some(Some(d)) ==> d.wf(),
{
    let m = match &h.market_value {
        Some(s) => parse_decimal(s.as_str()),
        None => None,
    };
    match (m, parse_decimal(h.quantity.as_str()), parse_decimal(h.average_cost.as_str())) {
        (Some(m), Some(q), Some(a)) => match checked_mul(q, a) {
            None => None,
            Some(c) => match checked_sub(m, c) {
                None => None,
                Some(t) => Some(Some(t)),
            },
        },
        _ => Some(None),
    }
}

proof fn lemma_terms_stop(hs: Seq<PortfolioHoldingView>, pnl: bool, n: int)
    requires
        0 <= n <= hs.len(),
        terms(hs.take(n), pnl) is None || terms(hs.take(n), pnl) == Some(None::<Seq<Dec>>),
    ensures
        terms(hs, pnl) == terms(hs.take(n), pnl),
    decreases hs.len() - n,
{
    if n < hs.len() {
        assert(hs.take(n + 1).drop_last() =~= hs.take(n));
        lemma_terms_stop(hs, pnl, n + 1);
    } else {
        assert(hs.take(n) =~= hs);
    }
}

fn terms_exec(hs: &Vec<PortfolioHoldingView>, pnl: bool) -> (r: Option<Option<Vec<Dec>>>)
    ensures
        match terms(hs@, pnl) {
            None => r is None,
            Some(None) => r == Some(None::<Vec<Dec>>),
            Some(Some(ts)) => r matches Some(Some(v)) && v@ == ts,
        },
        r matches Some(Some(v)) ==> forall|i: int| 0 <= i < v@.len() ==> (#[trigger] v@[i]).wf(),
{
    let mut out: Vec<Dec> = Vec::new();
    let mut i: usize = 0;
    while i < hs.len()
        invariant
            0 <= i <= hs@.len(),
            terms(hs@.take(i as int), pnl) == Some(Some(out@)),
            forall|k: int| 0 <= k < out@.len() ==> (#[trigger] out@[k]).wf(),
        decreases hs@.len() - i,
    {
        proof {
            assert(hs@.take(i as int + 1).drop_last() =~= hs@.take(i as int));
            assert(hs@.take(i as int + 1).last() == hs@[i as int]);
        }
        let t = if pnl {
            pnl_term_exec(&hs[i])
        } else {
            cost_term_exec(&hs[i])
        };
        match t {
            None => {
                proof {
                    lemma_terms_stop(hs@, pnl, i as int + 1);
                }
                return None;
            },
            Some(None) => {
                proof {
                    lemma_terms_stop(hs@, pnl, i as int + 1);
                }
                return Some(None);
            },
            Some(Some(x)) => out.push(x),
        }
        i = i + 1;
    }
    proof {
        assert(hs@.take(hs@.len() as int) =~= hs@);
    }
    Some(Some(out))
}

fn terms_total_exec(hs: &Vec<PortfolioHoldingView>, pnl: bool) -> (r: Option<Option<Dec>>)
    ensures
        r == terms_total(hs@, pnl),
        r matches Some(Some(d)) ==> d.wf(),
{
    match terms_exec(hs, pnl) {
        None => None,
        Some(None) => Some(None),
        Some(Some(ts)) => match sum_decs(&ts) {
            None => None,
            Some(s) => Some(Some(s)),
        },
    }
}

fn show(d: Option<Dec>) -> (r: Option<String>)
    requires
        d matches Some(x) ==> x.wf(),
    ensures
        shows(r, d),
{
    match d {
        Some(x) => Some(normalized_string(x)),
        None => None,
    }
}

fn field_texts(hs: &Vec<PortfolioHoldingView>, market: bool) -> (r: Vec<String>)
    ensures
        r@.map_values(|s: String| s@) == (if market {
            market_values(hs@)
        } else {
            daily_values(hs@)
        }),
{
    let mut out: Vec<String> = Vec::new();
    let mut i: usize = 0;
    while i < hs.len()
        invariant
            0 <= i <= hs@.len(),
            out@.len() == i,
            forall|k: int|
                0 <= k < i ==> (#[trigger] out@[k])@ == (if market {
                    opt_text(hs@[k].market_value)
                } else {
                    opt_text(hs@[k].daily_pnl)
                }),
        decreases hs@.len() - i,
    {
        let field = if market {
            &hs[i].market_value
        } else {
            &hs[i].daily_pnl
        };
        let t = match field {
            Some(s) => s.clone(),
            None => String::new(),
        };
        out.push(t);
        i = i + 1;
    }
    proof {
        let target = if market {
            market_values(hs@)
        } else {
            daily_values(hs@)
        };
        assert(out@.map_values(|s: String| s@) =~= target);
    }
    out
}

pub struct DashboardService;

/// The index board: each index by name and code, in this order.
pub open spec fn board() -> Seq<(Seq<char>, Seq<char>)> {
    seq![
        ("上证指数"@, "000001.SH"@),
        ("深证成指"@, "399001.SZ"@),
        ("创业板指"@, "399006.SZ"@),
        ("科创50"@, "000688.SH"@),
    ]
}

/// The last persisted record of this code, if any.
pub open spec fn last_record(records: Seq<MarketIndexQuoteRecord>, symbol: Seq<char>) -> Option<int> {
    if exists|i: int| 0 <= i < records.len() && (#[trigger] records[i]).symbol@ == symbol {
        Some(
            choose|i: int|
                0 <= i < records.len() && (#[trigger] records[i]).symbol@ == symbol && forall|j: int|
                    i < j < records.len() ==> records[j].symbol@ != symbol,
        )
    } else {
        None
    }
}

/// `v` shows index `name`/`symbol` from its last record, or as `NO_DATA` without one.
pub open spec fn index_view_of(
    v: MarketIndexQuoteView,
    name: Seq<char>,
    symbol: Seq<char>,
    records: Seq<MarketIndexQuoteRecord>,
) -> bool {
    match last_record(records, symbol) {
        Some(i) => {
            let r = records[i];
            &&& v.name == r.name
            &&& v.symbol == r.symbol
            &&& v.current_price == Some(r.current_price)
            &&& v.change_percent == r.change_percent
            &&& v.source == Some(r.source)
            &&& v.status == r.status
            &&& v.updated_at == Some(r.updated_at)
        },
        None => {
            &&& v.name@ == name
            &&& v.symbol@ == symbol
            &&& v.current_price is None
            &&& v.change_percent is None
            &&& v.source is None
            &&& v.status@ == "NO_DATA"@
            &&& v.updated_at is None
        },
    }
}

impl DashboardService {
    /// Whether the valuation is complete.
    pub fn valuations_complete(holdings: &Vec<PortfolioHoldingView>) -> (r: bool)
        ensures
            r == complete(holdings@),
    {
        if holdings.len() == 0 {
            return false;
        }
        let mut i: usize = 0;
        while i < holdings.len()
            invariant
                0 <= i <= holdings@.len(),
                forall|k: int|
                    0 <= k < i ==> (#[trigger] holdings@[k]).market_value is Some && holdings@[k].daily_pnl
                        is Some,
            decreases holdings@.len() - i,
        {
            if holdings[i].market_value.is_none() || holdings[i].daily_pnl.is_none() {
                return false;
            }
            i = i + 1;
        }
        true
    }

    /// The asset summary from the cash accounts' available amounts, the holding views, whether
    /// confirmed ledger transactions exist (they carry realized P&L a holding view lacks, so the
    /// total P&L is then absent), and the quote snapshot behind the valuation. `None` exactly
    /// when an amount overflows.
    pub fn asset_summary(
        cash_texts: &Vec<String>,
        holdings: &Vec<PortfolioHoldingView>,
        has_confirmed_transactions: bool,
        snapshot: Option<ValuationSnapshot>,
    ) -> (r: Option<AssetSummaryView>)
        ensures
            match summary_figures(
                cash_texts@.map_values(|s: String| s@),
                holdings@,
                has_confirmed_transactions,
            ) {
                None => r is None,
                Some(f) => r matches Some(v) && summary_view_of(v, f, holdings@, snapshot),
            },
    {
        let done = Self::valuations_complete(holdings);
        let cash = if cash_texts.len() == 0 {
            Some(None)
        } else {
            total_of_texts(cash_texts)
        };
        let stock = if done {
            total_of_texts(&field_texts(holdings, true))
        } else {
            Some(None)
        };
        let daily = if done {
            total_of_texts(&field_texts(holdings, false))
        } else {
            Some(None)
        };
        let total_pnl = if done && !has_confirmed_transactions {
            terms_total_exec(holdings, true)
        } else {
            Some(None)
        };
        let cost = terms_total_exec(holdings, false);
        let (c, s, d, p, k) = match (cash, stock, daily, total_pnl, cost) {
            (Some(c), Some(s), Some(d), Some(p), Some(k)) => (c, s, d, p, k),
            _ => return None,
        };
        let total = match (c, s) {
            (Some(x), Some(y)) => match checked_add(x, y) {
                None => return None,
                Some(t) => Some(t),
            },
            _ => None,
        };
        let rate = match (p, k) {
            (Some(x), Some(y)) => if !y.is_zero() {
                match checked_mul(x, Dec::from_i64(100)) {
                    None => return None,
                    Some(h) => match checked_div(h, y) {
                        None => return None,
                        Some(q) => Some(q),
                    },
                }
            } else {
                None
            },
            _ => None,
        };
        let (source, timestamp) = match snapshot {
            Some(v) => if done {
                (Some(v.source), Some(v.market_timestamp))
            } else {
                (None, None)
            },
            None => (None, None),
        };
        Some(
            AssetSummaryView {
                total_assets: show(total),
                stock_market_value: show(s),
                cash: show(c),
                daily_pnl: show(d),
                total_pnl: show(p),
                return_rate: show(rate),
                valuation_source: source,
                valuation_timestamp: timestamp,
            },
        )
    }

    /// The index board from the persisted index records: each index from its last record, or
    /// `NO_DATA`; labels are presentation only, never values.
    pub fn index_board(records: &Vec<MarketIndexQuoteRecord>) -> (r: Vec<MarketIndexQuoteView>)
        ensures
            r@.len() == 4,
            forall|k: int| 0 <= k < 4 ==> index_view_of(#[trigger] r@[k], board()[k].0, board()[k].1, records@),
    {
        let mut out: Vec<MarketIndexQuoteView> = Vec::new();
        out.push(index_view(records, "上证指数", "000001.SH"));
        out.push(index_view(records, "深证成指", "399001.SZ"));
        out.push(index_view(records, "创业板指", "399006.SZ"));
        out.push(index_view(records, "科创50", "000688.SH"));
        out
    }
}

fn index_view(records: &Vec<MarketIndexQuoteRecord>, name: &str, symbol: &str) -> (r: MarketIndexQuoteView)
    ensures
        index_view_of(r, name@, symbol@, records@),
{
    let mut found: Option<usize> = None;
    let mut i: usize = 0;
    while i < records.len()
        invariant
            0 <= i <= records@.len(),
            match found {
                Some(j) => j < i && records@[j as int].symbol@ == symbol@ && forall|m: int|
                    j < m < i ==> records@[m].symbol@ != symbol@,
                None => forall|m: int| 0 <= m < i ==> records@[m].symbol@ != symbol@,
            },
        decreases records@.len() - i,
    {
        if str_eq(records[i].symbol.as_str(), symbol) {
            found = Some(i);
        }
        i = i + 1;
    }
    match found {
        Some(j) => {
            proof {
                let c = choose|c: int|
                    0 <= c < records@.len() && (#[trigger] records@[c]).symbol@ == symbol@ && forall|m: int|
                        c < m < records@.len() ==> records@[m].symbol@ != symbol@;
                assert(records@[j as int].symbol@ == symbol@);
                if c < j {
                    assert(records@[j as int].symbol@ != symbol@);
                } else if c > j {
                    assert(records@[c].symbol@ != symbol@);
                }
                assert(last_record(records@, symbol@) == Some(j as int));
            }
            let r = &records[j];
            MarketIndexQuoteView {
                name: r.name.clone(),
                symbol: r.symbol.clone(),
                current_price: Some(r.current_price.clone()),
                change_percent: r.change_percent.clone(),
                source: Some(r.source.clone()),
                status: r.status.clone(),
                updated_at: Some(r.updated_at.clone()),
            }
        },
        None => MarketIndexQuoteView {
            name: String::from_str(name),
            symbol: String::from_str(symbol),
            current_price: None,
            change_percent: None,
            source: None,
            status: String::from_str("NO_DATA"),
            updated_at: None,
        },
    }
}


/// An incomplete valuation is never shown as a figure: when any holding lacks a market value or
/// a daily P&L, or there is no holding, the stock market value, daily P&L, total P&L, total
/// assets and return rate are all absent, never zero.
pub proof fn law_incomplete_valuation_shows_no_figures(
    cash_texts: Seq<Seq<char>>,
    hs: Seq<PortfolioHoldingView>,
    has_confirmed_transactions: bool,
)
    requires
        !complete(hs),
    ensures
        summary_figures(cash_texts, hs, has_confirmed_transactions) matches Some(f) ==> {
            &&& f.stock_market_value is None
            &&& f.daily_pnl is None
            &&& f.total_pnl is None
            &&& f.total_assets is None
            &&& f.return_rate is None
        },
{
}

} // verus!
