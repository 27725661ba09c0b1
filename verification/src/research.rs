//! Research preparation: daily price history and the technical facts derived from it.
//!
//! Technical facts are calculated only from source-backed bars, oldest first. When the required
//! history is missing nothing is synthesized: the snapshot says `INSUFFICIENT_HISTORY`.
use vstd::prelude::*;

use crate::decimal::{
    checked_add, checked_div, checked_mul, checked_sub, compare, decimal_checked_add,
    decimal_checked_div, decimal_checked_mul, decimal_checked_sub, decimal_from_str,
    decimal_round_dp, decimal_to_string, normalize_spec, normalized_string, parse_decimal, round_dp,
    pow10, value_order, Dec,
};
use crate::json::JsonValue;
use crate::text::{chars_of, str_eq, string_of};

verus! {

#[derive(Debug)]
pub struct PriceHistoryError(pub String);

/// A source for daily bars, oldest first.
pub trait PriceHistoryAdapter {
    fn source(&self) -> &'static str;

    fn fetch(&self, symbol: &str, market: &str, trading_days: usize) -> Result<
        Vec<PriceHistoryBar>,
        PriceHistoryError,
    >;
}

#[derive(Debug)]
pub struct PriceHistoryBar {
    pub trade_date: String,
    pub open: String,
    pub high: String,
    pub low: String,
    pub close: String,
    pub volume: String,
    pub amount: String,
    pub change_percent: Option<String>,
}

#[derive(Debug)]
pub struct TechnicalSnapshot {
    pub status: String,
    pub ma5: Option<String>,
    pub ma10: Option<String>,
    pub ma20: Option<String>,
    pub change_5d: Option<String>,
    pub change_10d: Option<String>,
    pub change_20d: Option<String>,
    pub high_20d: Option<String>,
    pub low_20d: Option<String>,
    pub average_volume_5d: Option<String>,
    pub current_volume_vs_average_5d: Option<String>,
    pub current_price_vs_ma5: Option<String>,
    pub current_price_vs_ma10: Option<String>,
    pub current_price_vs_ma20: Option<String>,
}

// ---------------------------------------------------------------------------------------------
// Decimal arithmetic with `Decimal`'s operators
// ---------------------------------------------------------------------------------------------
/// `Iterator::sum` of decimals: `+=` from zero, left to right; `None` where an addition
/// overflows (the operator would panic).
pub open spec fn sum_spec(ds: Seq<Dec>) -> Option<Dec>
    decreases ds.len(),
{
    if ds.len() == 0 {
        Some(Dec::zero_spec())
    } else {
        match sum_spec(ds.drop_last()) {
            Some(a) => decimal_checked_add(a, ds.last()),
            None => None,
        }
    }
}

/// The sum divided by the count.
pub open spec fn average_spec(ds: Seq<Dec>) -> Option<Dec> {
    match sum_spec(ds) {
        Some(s) => decimal_checked_div(s, Dec::from_i64_spec(ds.len() as i64)),
        None => None,
    }
}

/// `(current - base) * 100 / base`, and zero for a zero base.
pub open spec fn percent_spec(current: Dec, base: Dec) -> Option<Dec> {
    if base.is_zero_spec() {
        Some(Dec::zero_spec())
    } else {
        match decimal_checked_sub(current, base) {
            Some(d) => match decimal_checked_mul(d, Dec::from_i64_spec(100)) {
                Some(m) => decimal_checked_div(m, base),
                None => None,
            },
            None => None,
        }
    }
}

/// `Iterator::max`: the greatest value, the last of equal ones.
pub open spec fn max_spec(ds: Seq<Dec>) -> Dec
    recommends
        ds.len() > 0,
    decreases ds.len(),
{
    if ds.len() <= 1 {
        ds[0]
    } else {
        let m = max_spec(ds.drop_last());
        if value_order(m, ds.last()) <= 0 {
            ds.last()
        } else {
            m
        }
    }
}

/// `Iterator::min`: the least value, the first of equal ones.
pub open spec fn min_spec(ds: Seq<Dec>) -> Dec
    recommends
        ds.len() > 0,
    decreases ds.len(),
{
    if ds.len() <= 1 {
        ds[0]
    } else {
        let m = min_spec(ds.drop_last());
        if value_order(m, ds.last()) <= 0 {
            m
        } else {
            ds.last()
        }
    }
}

/// The last `n` values.
pub open spec fn last_n(ds: Seq<Dec>, n: int) -> Seq<Dec> {
    ds.subrange(ds.len() - n, ds.len() as int)
}

/// `round_dp(4)`, `normalize`, `to_string`.
pub open spec fn format_spec(d: Dec) -> Seq<char> {
    decimal_to_string(normalize_spec(decimal_round_dp(d, 4)))
}

fn format_decimal(d: Dec) -> (r: String)
    requires
        d.wf(),
    ensures
        r@ == format_spec(d),
{
    normalized_string(round_dp(d, 4))
}

fn sum_of(ds: &Vec<Dec>, lo: usize) -> (r: Option<Dec>)
    requires
        lo <= ds.len(),
        forall|i: int| 0 <= i < ds.len() ==> (#[trigger] ds@[i]).wf(),
    ensures
        r == sum_spec(ds@.subrange(lo as int, ds.len() as int)),
        r matches Some(d) ==> d.wf(),
{
    let mut acc: Option<Dec> = Some(Dec::zero());
    let mut i: usize = lo;
    while i < ds.len()
        invariant
            lo <= i <= ds.len(),
            forall|k: int| 0 <= k < ds.len() ==> (#[trigger] ds@[k]).wf(),
            acc == sum_spec(ds@.subrange(lo as int, i as int)),
            acc matches Some(d) ==> d.wf(),
        decreases ds.len() - i,
    {
        proof {
            let s = ds@.subrange(lo as int, i + 1);
            assert(s.drop_last() =~= ds@.subrange(lo as int, i as int));
            assert(s.last() == ds@[i as int]);
        }
        acc = match acc {
            Some(a) => checked_add(a, ds[i]),
            None => None,
        };
        i = i + 1;
    }
    acc
}

fn average_of(ds: &Vec<Dec>, n: usize) -> (r: Option<Dec>)
    requires
        1 <= n <= ds.len(),
        n <= 20,
        forall|i: int| 0 <= i < ds.len() ==> (#[trigger] ds@[i]).wf(),
    ensures
        r == average_spec(last_n(ds@, n as int)),
        r matches Some(d) ==> d.wf(),
{
    let lo = ds.len() - n;
    match sum_of(ds, lo) {
        Some(s) => checked_div(s, Dec::from_i64(n as i64)),
        None => None,
    }
}

fn percent(current: Dec, base: Dec) -> (r: Option<Dec>)
    requires
        current.wf(),
        base.wf(),
    ensures
        r == percent_spec(current, base),
        r matches Some(d) ==> d.wf(),
{
    if base.is_zero() {
        Some(Dec::zero())
    } else {
        match checked_sub(current, base) {
            Some(d) => match checked_mul(d, Dec::from_i64(100)) {
                Some(m) => checked_div(m, base),
                None => None,
            },
            None => None,
        }
    }
}

fn max_of_last(ds: &Vec<Dec>, n: usize) -> (r: Dec)
    requires
        1 <= n <= ds.len(),
        forall|i: int| 0 <= i < ds.len() ==> (#[trigger] ds@[i]).wf(),
    ensures
        r == max_spec(last_n(ds@, n as int)),
        r.wf(),
{
    let lo = ds.len() - n;
    let mut best = ds[lo];
    let mut i: usize = lo + 1;
    proof {
        assert(ds@.subrange(lo as int, lo + 1).len() == 1);
    }
    while i < ds.len()
        invariant
            lo < i <= ds.len(),
            forall|k: int| 0 <= k < ds.len() ==> (#[trigger] ds@[k]).wf(),
            best == max_spec(ds@.subrange(lo as int, i as int)),
            best.wf(),
        decreases ds.len() - i,
    {
        proof {
            let s = ds@.subrange(lo as int, i + 1);
            assert(s.drop_last() =~= ds@.subrange(lo as int, i as int));
            assert(s.last() == ds@[i as int]);
        }
        if compare(best, ds[i]) <= 0 {
            best = ds[i];
        }
        i = i + 1;
    }
    best
}

fn min_of_last(ds: &Vec<Dec>, n: usize) -> (r: Dec)
    requires
        1 <= n <= ds.len(),
        forall|i: int| 0 <= i < ds.len() ==> (#[trigger] ds@[i]).wf(),
    ensures
        r == min_spec(last_n(ds@, n as int)),
        r.wf(),
{
    let lo = ds.len() - n;
    let mut best = ds[lo];
    let mut i: usize = lo + 1;
    proof {
        assert(ds@.subrange(lo as int, lo + 1).len() == 1);
    }
    while i < ds.len()
        invariant
            lo < i <= ds.len(),
            forall|k: int| 0 <= k < ds.len() ==> (#[trigger] ds@[k]).wf(),
            best == min_spec(ds@.subrange(lo as int, i as int)),
            best.wf(),
        decreases ds.len() - i,
    {
        proof {
            let s = ds@.subrange(lo as int, i + 1);
            assert(s.drop_last() =~= ds@.subrange(lo as int, i as int));
            assert(s.last() == ds@[i as int]);
        }
        if compare(best, ds[i]) > 0 {
            best = ds[i];
        }
        i = i + 1;
    }
    best
}

// ---------------------------------------------------------------------------------------------
// The technical snapshot
// ---------------------------------------------------------------------------------------------
/// The values read from one bar: close, high, low and volume.
pub struct BarValues {
    pub close: Dec,
    pub high: Dec,
    pub low: Dec,
    pub volume: Dec,
}

pub open spec fn bar_values_spec(bar: PriceHistoryBar) -> Option<BarValues> {
    match (
        decimal_from_str(bar.close@),
        decimal_from_str(bar.high@),
        decimal_from_str(bar.low@),
        decimal_from_str(bar.volume@),
    ) {
        (Some(c), Some(h), Some(l), Some(v)) => Some(BarValues { close: c, high: h, low: l, volume: v }),
        _ => None,
    }
}

/// The values of every bar, `None` when any bar has an unreadable number.
pub open spec fn bars_values(bars: Seq<PriceHistoryBar>) -> Option<Seq<BarValues>>
    decreases bars.len(),
{
    if bars.len() == 0 {
        Some(Seq::empty())
    } else {
        match (bars_values(bars.drop_last()), bar_values_spec(bars.last())) {
            (Some(vs), Some(v)) => Some(vs.push(v)),
            _ => None,
        }
    }
}

/// The calculated facts, each before formatting.
pub struct TechnicalValues {
    pub ma5: Dec,
    pub ma10: Dec,
    pub ma20: Dec,
    pub change_5d: Dec,
    pub change_10d: Dec,
    pub change_20d: Dec,
    pub high_20d: Dec,
    pub low_20d: Dec,
    pub average_volume_5d: Dec,
    pub current_volume_vs_average_5d: Dec,
    pub current_price_vs_ma5: Dec,
    pub current_price_vs_ma10: Dec,
    pub current_price_vs_ma20: Dec,
}

pub open spec fn closes(vs: Seq<BarValues>) -> Seq<Dec> {
    vs.map_values(|v: BarValues| v.close)
}

pub open spec fn highs(vs: Seq<BarValues>) -> Seq<Dec> {
    vs.map_values(|v: BarValues| v.high)
}

pub open spec fn lows(vs: Seq<BarValues>) -> Seq<Dec> {
    vs.map_values(|v: BarValues| v.low)
}

pub open spec fn volumes(vs: Seq<BarValues>) -> Seq<Dec> {
    vs.map_values(|v: BarValues| v.volume)
}

/// The facts of at least twenty bars; `None` where `Decimal` arithmetic overflows.
pub open spec fn technical_values_spec(vs: Seq<BarValues>) -> Option<TechnicalValues> {
    let c = closes(vs);
    let current = c.last();
    let ma5 = average_spec(last_n(c, 5));
    let ma10 = average_spec(last_n(c, 10));
    let ma20 = average_spec(last_n(c, 20));
    let avg_volume = average_spec(last_n(volumes(vs), 5));
    match (ma5, ma10, ma20, avg_volume) {
        (Some(m5), Some(m10), Some(m20), Some(av)) => match (
            percent_spec(current, c[c.len() - 5]),
            percent_spec(current, c[c.len() - 10]),
            percent_spec(current, c[c.len() - 20]),
            percent_spec(volumes(vs).last(), av),
            percent_spec(current, m5),
            percent_spec(current, m10),
            percent_spec(current, m20),
        ) {
            (Some(ch5), Some(ch10), Some(ch20), Some(vv), Some(p5), Some(p10), Some(p20)) => Some(
                TechnicalValues {
                    ma5: m5,
                    ma10: m10,
                    ma20: m20,
                    change_5d: ch5,
                    change_10d: ch10,
                    change_20d: ch20,
                    high_20d: max_spec(last_n(highs(vs), 20)),
                    low_20d: min_spec(last_n(lows(vs), 20)),
                    average_volume_5d: av,
                    current_volume_vs_average_5d: vv,
                    current_price_vs_ma5: p5,
                    current_price_vs_ma10: p10,
                    current_price_vs_ma20: p20,
                },
            ),
            _ => None,
        },
        _ => None,
    }
}

/// What the bars give: `None` when enough readable bars are there but the arithmetic overflows.
pub open spec fn technical_outcome(bars: Seq<PriceHistoryBar>) -> Option<Option<TechnicalValues>> {
    match bars_values(bars) {
        Some(vs) => if vs.len() < 20 {
            Some(None)
        } else {
            match technical_values_spec(vs) {
                Some(t) => Some(Some(t)),
                None => None,
            }
        },
        None => Some(None),
    }
}

pub open spec fn opt_is(s: Option<String>, text: Seq<char>) -> bool {
    s matches Some(x) && x@ == text
}

/// The snapshot that says the history is insufficient, with no value at all.
pub open spec fn is_unavailable(s: TechnicalSnapshot) -> bool {
    &&& s.status@ == "INSUFFICIENT_HISTORY"@
    &&& s.ma5 is None
    &&& s.ma10 is None
    &&& s.ma20 is None
    &&& s.change_5d is None
    &&& s.change_10d is None
    &&& s.change_20d is None
    &&& s.high_20d is None
    &&& s.low_20d is None
    &&& s.average_volume_5d is None
    &&& s.current_volume_vs_average_5d is None
    &&& s.current_price_vs_ma5 is None
    &&& s.current_price_vs_ma10 is None
    &&& s.current_price_vs_ma20 is None
}

/// The snapshot of the calculated facts, each formatted.
pub open spec fn is_available(s: TechnicalSnapshot, t: TechnicalValues) -> bool {
    &&& s.status@ == "AVAILABLE"@
    &&& opt_is(s.ma5, format_spec(t.ma5))
    &&& opt_is(s.ma10, format_spec(t.ma10))
    &&& opt_is(s.ma20, format_spec(t.ma20))
    &&& opt_is(s.change_5d, format_spec(t.change_5d))
    &&& opt_is(s.change_10d, format_spec(t.change_10d))
    &&& opt_is(s.change_20d, format_spec(t.change_20d))
    &&& opt_is(s.high_20d, format_spec(t.high_20d))
    &&& opt_is(s.low_20d, format_spec(t.low_20d))
    &&& opt_is(s.average_volume_5d, format_spec(t.average_volume_5d))
    &&& opt_is(s.current_volume_vs_average_5d, format_spec(t.current_volume_vs_average_5d))
    &&& opt_is(s.current_price_vs_ma5, format_spec(t.current_price_vs_ma5))
    &&& opt_is(s.current_price_vs_ma10, format_spec(t.current_price_vs_ma10))
    &&& opt_is(s.current_price_vs_ma20, format_spec(t.current_price_vs_ma20))
}

fn unavailable() -> (r: TechnicalSnapshot)
    ensures
        is_unavailable(r),
{
    TechnicalSnapshot {
        status: String::from_str("INSUFFICIENT_HISTORY"),
        ma5: None,
        ma10: None,
        ma20: None,
        change_5d: None,
        change_10d: None,
        change_20d: None,
        high_20d: None,
        low_20d: None,
        average_volume_5d: None,
        current_volume_vs_average_5d: None,
        current_price_vs_ma5: None,
        current_price_vs_ma10: None,
        current_price_vs_ma20: None,
    }
}

/// The close read from bar `i`.
pub open spec fn close_of(bars: Seq<PriceHistoryBar>, i: int) -> Dec {
    decimal_from_str(bars[i].close@)->Some_0
}

/// The volumes read from the last `n` bars, oldest first.
pub open spec fn window_volumes(bars: Seq<PriceHistoryBar>, n: int) -> Seq<Dec> {
    Seq::new(n as nat, |i: int| decimal_from_str(bars[bars.len() - n + i].volume@)->Some_0)
}

/// The closes read from the last `n` bars, oldest first.
pub open spec fn window_closes(bars: Seq<PriceHistoryBar>, n: int) -> Seq<Dec> {
    Seq::new(n as nat, |i: int| close_of(bars, bars.len() - n + i))
}

/// The greatest value: no value is above it, and it is one of them.
proof fn lemma_max_is_greatest(ds: Seq<Dec>)
    requires
        ds.len() > 0,
    ensures
        ds.contains(max_spec(ds)),
        forall|i: int| 0 <= i < ds.len() ==> value_order(#[trigger] ds[i], max_spec(ds)) <= 0,
    decreases ds.len(),
{
    if ds.len() > 1 {
        let d = ds.drop_last();
        lemma_max_is_greatest(d);
        let m = max_spec(d);
        assert forall|i: int| 0 <= i < d.len() implies #[trigger] d[i] == ds[i] by {}
        let k = choose|k: int| 0 <= k < d.len() && d[k] == m;
        assert(ds[k] == m);
        assert forall|i: int| 0 <= i < ds.len() implies value_order(#[trigger] ds[i], max_spec(ds)) <= 0 by {
            if i < ds.len() - 1 {
                assert(d[i] == ds[i]);
                if value_order(m, ds.last()) <= 0 {
                    lemma_order_le_transitive(ds[i], m, ds.last());
                }
            } else if value_order(m, ds.last()) > 0 {
                lemma_order_flip(m, ds.last());
            } else {
                lemma_order_reflexive(ds.last());
            }
        }
    } else {
        assert(ds[0] == max_spec(ds));
        lemma_order_reflexive(ds[0]);
    }
}

/// The least value: no value is below it, and it is one of them.
proof fn lemma_min_is_least(ds: Seq<Dec>)
    requires
        ds.len() > 0,
    ensures
        ds.contains(min_spec(ds)),
        forall|i: int| 0 <= i < ds.len() ==> value_order(min_spec(ds), #[trigger] ds[i]) <= 0,
    decreases ds.len(),
{
    if ds.len() > 1 {
        let d = ds.drop_last();
        lemma_min_is_least(d);
        let m = min_spec(d);
        assert forall|i: int| 0 <= i < d.len() implies #[trigger] d[i] == ds[i] by {}
        let k = choose|k: int| 0 <= k < d.len() && d[k] == m;
        assert(ds[k] == m);
        assert forall|i: int| 0 <= i < ds.len() implies value_order(min_spec(ds), #[trigger] ds[i]) <= 0 by {
            if i < ds.len() - 1 {
                assert(d[i] == ds[i]);
                if value_order(m, ds.last()) > 0 {
                    lemma_order_flip(m, ds.last());
                    lemma_order_le_transitive(ds.last(), m, ds[i]);
                }
            } else if value_order(m, ds.last()) > 0 {
                lemma_order_reflexive(ds.last());
            }
        }
    } else {
        assert(ds[0] == min_spec(ds));
        lemma_order_reflexive(ds[0]);
    }
}

proof fn lemma_order_reflexive(a: Dec)
    ensures
        value_order(a, a) == 0,
{
}

proof fn lemma_order_flip(a: Dec, b: Dec)
    requires
        value_order(a, b) > 0,
    ensures
        value_order(b, a) < 0,
{
}

proof fn lemma_pow10_pos(n: nat)
    ensures
        pow10(n) > 0,
    decreases n,
{
    if n > 0 {
        lemma_pow10_pos((n - 1) as nat);
    }
}

proof fn lemma_scaled_le(a: int, b: int, c: int, da: int, db: int, dc: int)
    by (nonlinear_arith)
    requires
        da > 0,
        db > 0,
        dc > 0,
        a * db <= b * da,
        b * dc <= c * db,
    ensures
        a * dc <= c * da,
{
    assert(a * db * dc <= b * da * dc);
    assert(b * dc * da <= c * db * da);
}

proof fn lemma_order_le_transitive(a: Dec, b: Dec, c: Dec)
    requires
        value_order(a, b) <= 0,
        value_order(b, c) <= 0,
    ensures
        value_order(a, c) <= 0,
{
    lemma_pow10_pos(a.scale as nat);
    lemma_pow10_pos(b.scale as nat);
    lemma_pow10_pos(c.scale as nat);
    lemma_scaled_le(
        a.num(),
        b.num(),
        c.num(),
        pow10(a.scale as nat),
        pow10(b.scale as nat),
        pow10(c.scale as nat),
    );
}

proof fn lemma_bars_values_each(bars: Seq<PriceHistoryBar>)
    ensures
        bars_values(bars) matches Some(vs) ==> vs.len() == bars.len() && forall|i: int|
            0 <= i < bars.len() ==> bar_values_spec(#[trigger] bars[i]) == Some(vs[i]),
    decreases bars.len(),
{
    if bars.len() > 0 {
        lemma_bars_values_each(bars.drop_last());
        if let Some(vs) = bars_values(bars) {
            let p = bars_values(bars.drop_last())->Some_0;
            assert forall|i: int| 0 <= i < bars.len() implies bar_values_spec(#[trigger] bars[i]) == Some(vs[i]) by {
                if i < bars.len() - 1 {
                    assert(bars.drop_last()[i] == bars[i]);
                    assert(vs[i] == p[i]);
                }
            }
        }
    }
}

/// The facts of an available snapshot each use their own window of the newest bars: the 5-, 10-
/// and 20-day moving averages are the sums of the last 5, 10 and 20 closes divided by 5, 10 and
/// 20; the 5-, 10- and 20-day changes compare the newest close with the close 5, 10 and 20 bars
/// back; and the price against each average compares the newest close with that average.
pub proof fn law_technical_facts_use_their_own_windows(bars: Seq<PriceHistoryBar>, t: TechnicalValues)
    requires
        technical_outcome(bars) == Some(Some(t)),
    ensures
        bars.len() >= 20,
        sum_spec(window_closes(bars, 5)) matches Some(s5) && decimal_checked_div(s5, Dec::from_i64_spec(5))
            == Some(t.ma5),
        sum_spec(window_closes(bars, 10)) matches Some(s10) && decimal_checked_div(s10, Dec::from_i64_spec(10))
            == Some(t.ma10),
        sum_spec(window_closes(bars, 20)) matches Some(s20) && decimal_checked_div(s20, Dec::from_i64_spec(20))
            == Some(t.ma20),
        percent_spec(close_of(bars, bars.len() - 1), close_of(bars, bars.len() - 5)) == Some(t.change_5d),
        percent_spec(close_of(bars, bars.len() - 1), close_of(bars, bars.len() - 10)) == Some(t.change_10d),
        percent_spec(close_of(bars, bars.len() - 1), close_of(bars, bars.len() - 20)) == Some(t.change_20d),
        percent_spec(close_of(bars, bars.len() - 1), t.ma5) == Some(t.current_price_vs_ma5),
        percent_spec(close_of(bars, bars.len() - 1), t.ma10) == Some(t.current_price_vs_ma10),
        percent_spec(close_of(bars, bars.len() - 1), t.ma20) == Some(t.current_price_vs_ma20),
        sum_spec(window_volumes(bars, 5)) matches Some(v5) && decimal_checked_div(v5, Dec::from_i64_spec(5))
            == Some(t.average_volume_5d),
        percent_spec(decimal_from_str(bars[bars.len() - 1].volume@)->Some_0, t.average_volume_5d) == Some(
            t.current_volume_vs_average_5d,
        ),
        exists|k: int|
            bars.len() - 20 <= k < bars.len() && decimal_from_str(#[trigger] bars[k].high@) == Some(t.high_20d),
        forall|k: int|
            bars.len() - 20 <= k < bars.len() ==> value_order(
                decimal_from_str(#[trigger] bars[k].high@)->Some_0,
                t.high_20d,
            ) <= 0,
        exists|k: int|
            bars.len() - 20 <= k < bars.len() && decimal_from_str(#[trigger] bars[k].low@) == Some(t.low_20d),
        forall|k: int|
            bars.len() - 20 <= k < bars.len() ==> value_order(
                t.low_20d,
                decimal_from_str(#[trigger] bars[k].low@)->Some_0,
            ) <= 0,
{
    lemma_bars_values_each(bars);
    let vs = bars_values(bars)->Some_0;
    let c = closes(vs);
    assert forall|i: int| 0 <= i < bars.len() implies #[trigger] c[i] == close_of(bars, i) by {
        assert(bar_values_spec(bars[i]) == Some(vs[i]));
    }
    assert(last_n(c, 5) =~= window_closes(bars, 5));
    assert(last_n(c, 10) =~= window_closes(bars, 10));
    assert(last_n(c, 20) =~= window_closes(bars, 20));
    assert(c.last() == c[c.len() - 1]);
    let n = bars.len() as int;
    let vol = volumes(vs);
    assert forall|i: int| 0 <= i < n implies #[trigger] vol[i] == decimal_from_str(bars[i].volume@)->Some_0 by {
        assert(bar_values_spec(bars[i]) == Some(vs[i]));
    }
    assert(last_n(vol, 5) =~= window_volumes(bars, 5));
    assert(vol.last() == vol[n - 1]);
    let hs = last_n(highs(vs), 20);
    let ls = last_n(lows(vs), 20);
    lemma_max_is_greatest(hs);
    lemma_min_is_least(ls);
    assert forall|k: int| n - 20 <= k < n implies decimal_from_str(#[trigger] bars[k].high@) == Some(
        hs[k - (n - 20)],
    ) && decimal_from_str(bars[k].low@) == Some(ls[k - (n - 20)]) by {
        assert(bar_values_spec(bars[k]) == Some(vs[k]));
    }
    let kh = choose|j: int| 0 <= j < hs.len() && hs[j] == t.high_20d;
    assert(decimal_from_str(bars[kh + n - 20].high@) == Some(t.high_20d));
    let kl = choose|j: int| 0 <= j < ls.len() && ls[j] == t.low_20d;
    assert(decimal_from_str(bars[kl + n - 20].low@) == Some(t.low_20d));
    assert forall|k: int| n - 20 <= k < n implies value_order(
        decimal_from_str(#[trigger] bars[k].high@)->Some_0,
        t.high_20d,
    ) <= 0 by {
        assert(value_order(hs[k - (n - 20)], max_spec(hs)) <= 0);
    }
    assert forall|k: int| n - 20 <= k < n implies value_order(
        t.low_20d,
        decimal_from_str(#[trigger] bars[k].low@)->Some_0,
    ) <= 0 by {
        assert(value_order(min_spec(ls), ls[k - (n - 20)]) <= 0);
    }
}

/// The snapshot for the bars, `None` exactly when the arithmetic would overflow.
pub fn try_technical_snapshot(bars: &[PriceHistoryBar]) -> (r: Option<TechnicalSnapshot>)
    ensures
        match technical_outcome(bars@) {
            None => r is None,
            Some(None) => r matches Some(s) && is_unavailable(s),
            Some(Some(t)) => r matches Some(s) && is_available(s, t),
        },
{
    let mut close_values: Vec<Dec> = Vec::new();
    let mut high_values: Vec<Dec> = Vec::new();
    let mut low_values: Vec<Dec> = Vec::new();
    let mut volume_values: Vec<Dec> = Vec::new();
    let ghost mut vs: Seq<BarValues> = Seq::empty();
    let mut i: usize = 0;
    while i < bars.len()
        invariant
            0 <= i <= bars@.len(),
            bars_values(bars@.take(i as int)) == Some(vs),
            vs.len() == i,
            close_values@ == closes(vs),
            high_values@ == highs(vs),
            low_values@ == lows(vs),
            volume_values@ == volumes(vs),
            forall|k: int| 0 <= k < i ==> (#[trigger] close_values@[k]).wf(),
            forall|k: int| 0 <= k < i ==> (#[trigger] high_values@[k]).wf(),
            forall|k: int| 0 <= k < i ==> (#[trigger] low_values@[k]).wf(),
            forall|k: int| 0 <= k < i ==> (#[trigger] volume_values@[k]).wf(),
        decreases bars@.len() - i,
    {
        let bar = &bars[i];
        proof {
            assert(bars@.take(i as int + 1).drop_last() =~= bars@.take(i as int));
            assert(bars@.take(i as int + 1).last() == bars@[i as int]);
        }
        let parsed = (
            parse_decimal(bar.close.as_str()),
            parse_decimal(bar.high.as_str()),
            parse_decimal(bar.low.as_str()),
            parse_decimal(bar.volume.as_str()),
        );
        match parsed {
            (Some(c), Some(h), Some(l), Some(v)) => {
                close_values.push(c);
                high_values.push(h);
                low_values.push(l);
                volume_values.push(v);
                proof {
                    let b = BarValues { close: c, high: h, low: l, volume: v };
                    vs = vs.push(b);
                    assert(close_values@ =~= closes(vs));
                    assert(high_values@ =~= highs(vs));
                    assert(low_values@ =~= lows(vs));
                    assert(volume_values@ =~= volumes(vs));
                }
            },
            _ => {
                proof {
                    lemma_values_none_sticks(bars@, i as int + 1);
                }
                return Some(unavailable());
            },
        }
        i = i + 1;
    }
    proof {
        assert(bars@.take(bars@.len() as int) =~= bars@);
    }
    if close_values.len() < 20 {
        return Some(unavailable());
    }
    let n = close_values.len();
    let current = close_values[n - 1];
    let ma5 = match average_of(&close_values, 5) {
        Some(d) => d,
        None => return None,
    };
    let ma10 = match average_of(&close_values, 10) {
        Some(d) => d,
        None => return None,
    };
    let ma20 = match average_of(&close_values, 20) {
        Some(d) => d,
        None => return None,
    };
    let avg_volume = match average_of(&volume_values, 5) {
        Some(d) => d,
        None => return None,
    };
    let change_5d = match percent(current, close_values[n - 5]) {
        Some(d) => d,
        None => return None,
    };
    let change_10d = match percent(current, close_values[n - 10]) {
        Some(d) => d,
        None => return None,
    };
    let change_20d = match percent(current, close_values[n - 20]) {
        Some(d) => d,
        None => return None,
    };
    let volume_vs_average = match percent(volume_values[n - 1], avg_volume) {
        Some(d) => d,
        None => return None,
    };
    let price_vs_ma5 = match percent(current, ma5) {
        Some(d) => d,
        None => return None,
    };
    let price_vs_ma10 = match percent(current, ma10) {
        Some(d) => d,
        None => return None,
    };
    let price_vs_ma20 = match percent(current, ma20) {
        Some(d) => d,
        None => return None,
    };
    let high_20 = max_of_last(&high_values, 20);
    let low_20 = min_of_last(&low_values, 20);
    proof {
        assert(close_values@.last() == closes(vs).last());
        assert(volume_values@.last() == volumes(vs).last());
    }
    Some(
        TechnicalSnapshot {
            status: String::from_str("AVAILABLE"),
            ma5: Some(format_decimal(ma5)),
            ma10: Some(format_decimal(ma10)),
            ma20: Some(format_decimal(ma20)),
            change_5d: Some(format_decimal(change_5d)),
            change_10d: Some(format_decimal(change_10d)),
            change_20d: Some(format_decimal(change_20d)),
            high_20d: Some(format_decimal(high_20)),
            low_20d: Some(format_decimal(low_20)),
            average_volume_5d: Some(format_decimal(avg_volume)),
            current_volume_vs_average_5d: Some(format_decimal(volume_vs_average)),
            current_price_vs_ma5: Some(format_decimal(price_vs_ma5)),
            current_price_vs_ma10: Some(format_decimal(price_vs_ma10)),
            current_price_vs_ma20: Some(format_decimal(price_vs_ma20)),
        },
    )
}

proof fn lemma_values_none_sticks(bars: Seq<PriceHistoryBar>, i: int)
    requires
        0 < i <= bars.len(),
        bars_values(bars.take(i)) is None,
    ensures
        bars_values(bars) is None,
    decreases bars.len() - i,
{
    if i < bars.len() {
        assert(bars.take(i + 1).drop_last() =~= bars.take(i));
        lemma_values_none_sticks(bars, i + 1);
    } else {
        assert(bars.take(i) =~= bars);
    }
}

/// Calculates technical facts from ascending (oldest-to-newest) source-backed daily bars only.
/// Fewer than twenty bars, or a bar with an unreadable close, high, low or volume, gives the
/// `INSUFFICIENT_HISTORY` snapshot with no value.
pub fn calculate_technical_snapshot(bars: &[PriceHistoryBar]) -> (r: TechnicalSnapshot)
    requires
        technical_outcome(bars@) is Some,
    ensures
        match technical_outcome(bars@) {
            Some(Some(t)) => is_available(r, t),
            _ => is_unavailable(r),
        },
{
    match try_technical_snapshot(bars) {
        Some(s) => s,
        None => unavailable(),
    }
}

// ---------------------------------------------------------------------------------------------
// Eastmoney daily history
// ---------------------------------------------------------------------------------------------
/// `str::split(',')`: the pieces between commas, empty pieces included.
pub open spec fn split_commas(s: Seq<char>) -> Seq<Seq<char>>
    decreases s.len(),
{
    if s.len() == 0 {
        seq![Seq::empty()]
    } else {
        let p = split_commas(s.drop_last());
        if s.last() == ',' {
            p.push(Seq::empty())
        } else {
            p.update(p.len() - 1, p.last().push(s.last()))
        }
    }
}

proof fn lemma_split_nonempty(s: Seq<char>)
    ensures
        split_commas(s).len() > 0,
    decreases s.len(),
{
    if s.len() > 0 {
        lemma_split_nonempty(s.drop_last());
    }
}

fn split_commas_of(s: &str) -> (r: Vec<String>)
    ensures
        r@.len() == split_commas(s@).len(),
        forall|i: int| 0 <= i < r@.len() ==> (#[trigger] r@[i])@ == split_commas(s@)[i],
{
    let chars = chars_of(s);
    let mut pieces: Vec<String> = Vec::new();
    let mut current: Vec<char> = Vec::new();
    let mut i: usize = 0;
    while i < chars.len()
        invariant
            0 <= i <= chars.len(),
            chars@ == s@,
            pieces@.len() + 1 == split_commas(chars@.take(i as int)).len(),
            forall|k: int| 0 <= k < pieces@.len() ==> (#[trigger] pieces@[k])@ == split_commas(
                chars@.take(i as int),
            )[k],
            current@ == split_commas(chars@.take(i as int)).last(),
        decreases chars.len() - i,
    {
        let ghost t = chars@.take(i as int + 1);
        proof {
            assert(t.drop_last() =~= chars@.take(i as int));
            assert(t.last() == chars@[i as int]);
            lemma_split_nonempty(chars@.take(i as int));
        }
        if chars[i] == ',' {
            let piece = string_of(&current);
            pieces.push(piece);
            current = Vec::new();
        } else {
            current.push(chars[i]);
        }
        i = i + 1;
    }
    proof {
        assert(chars@.take(chars@.len() as int) =~= chars@);
    }
    let last = string_of(&current);
    pieces.push(last);
    pieces
}

/// One kline row `date,open,close,high,low,volume,amount,_,change%`: fewer than nine pieces is
/// an error; an empty change is no change.
pub open spec fn bar_from_pieces(b: PriceHistoryBar, p: Seq<Seq<char>>) -> bool {
    &&& b.trade_date@ == p[0]
    &&& b.open@ == p[1]
    &&& b.close@ == p[2]
    &&& b.high@ == p[3]
    &&& b.low@ == p[4]
    &&& b.volume@ == p[5]
    &&& b.amount@ == p[6]
    &&& if p[8].len() == 0 {
        b.change_percent is None
    } else {
        b.change_percent matches Some(c) && c@ == p[8]
    }
}

/// The text of a kline row: a string, or empty for anything else.
pub open spec fn row_text(row: JsonValue) -> Seq<char> {
    match row {
        JsonValue::Str(s) => s@,
        _ => Seq::empty(),
    }
}

pub open spec fn rows_complete(rows: Seq<JsonValue>) -> bool {
    forall|i: int| 0 <= i < rows.len() ==> split_commas(#[trigger] row_text(rows[i])).len() >= 9
}

/// What an Eastmoney history body gives: every row of `data.klines`, or the first failure.
pub open spec fn history_spec(body: Seq<char>) -> Result<Seq<JsonValue>, Seq<char>> {
    match crate::json::json_parse(body) {
        None => Err("历史行情返回格式错误"@),
        Some(v) => match v.get_in_spec("data"@, "klines"@) {
            Some(JsonValue::Array(rows)) => if rows_complete(rows@) {
                Ok(rows@)
            } else {
                Err("历史行情字段不完整"@)
            },
            _ => Err("历史行情无可用数据"@),
        },
    }
}

fn row_string(row: &JsonValue) -> (r: String)
    ensures
        r@ == row_text(*row),
{
    match row {
        JsonValue::Str(s) => s.clone(),
        _ => String::new(),
    }
}

/// Reads the bars of an Eastmoney kline body, keeping every field as the source wrote it.
pub fn parse_eastmoney_history(body: &str) -> (r: Result<Vec<PriceHistoryBar>, PriceHistoryError>)
    ensures
        match (r, history_spec(body@)) {
            (Ok(bars), Ok(rows)) => bars@.len() == rows.len() && forall|i: int|
                0 <= i < rows.len() ==> bar_from_pieces(
                    #[trigger] bars@[i],
                    split_commas(row_text(rows[i])),
                ),
            (Err(e), Err(t)) => e.0@ == t,
            _ => false,
        },
{
    let value = match JsonValue::parse(body) {
        Some(v) => v,
        None => return Err(PriceHistoryError(String::from_str("历史行情返回格式错误"))),
    };
    let rows = match value.get_in("data", "klines") {
        Some(v) => match v.as_array() {
            Some(rows) => rows,
            None => return Err(PriceHistoryError(String::from_str("历史行情无可用数据"))),
        },
        None => return Err(PriceHistoryError(String::from_str("历史行情无可用数据"))),
    };
    let mut bars: Vec<PriceHistoryBar> = Vec::new();
    let mut i: usize = 0;
    while i < rows.len()
        invariant
            0 <= i <= rows.len(),
            history_spec(body@) == if rows_complete(rows@) {
                Ok::<Seq<JsonValue>, Seq<char>>(rows@)
            } else {
                Err("历史行情字段不完整"@)
            },
            bars@.len() == i,
            forall|k: int| 0 <= k < i ==> split_commas(#[trigger] row_text(rows@[k])).len() >= 9,
            forall|k: int| 0 <= k < i ==> bar_from_pieces(
                #[trigger] bars@[k],
                split_commas(row_text(rows@[k])),
            ),
        decreases rows.len() - i,
    {
        let text = row_string(&rows[i]);
        let pieces = split_commas_of(text.as_str());
        if pieces.len() < 9 {
            proof {
                assert(!rows_complete(rows@)) by {
                    assert(split_commas(row_text(rows@[i as int])).len() < 9);
                }
            }
            return Err(PriceHistoryError(String::from_str("历史行情字段不完整")));
        }
        let change = if pieces[8].as_str().unicode_len() == 0 {
            None
        } else {
            Some(pieces[8].clone())
        };
        let bar = PriceHistoryBar {
            trade_date: pieces[0].clone(),
            open: pieces[1].clone(),
            close: pieces[2].clone(),
            high: pieces[3].clone(),
            low: pieces[4].clone(),
            volume: pieces[5].clone(),
            amount: pieces[6].clone(),
            change_percent: change,
        };
        proof {
            assert(pieces@[0]@ == split_commas(row_text(rows@[i as int]))[0]);
            assert(pieces@[8]@ == split_commas(row_text(rows@[i as int]))[8]);
        }
        let ghost before = bars@;
        bars.push(bar);
        proof {
            assert forall|k: int| 0 <= k < i + 1 implies bar_from_pieces(
                #[trigger] bars@[k],
                split_commas(row_text(rows@[k])),
            ) by {
                if k < i {
                    assert(bars@[k] == before[k]);
                }
            }
        }
        i = i + 1;
    }
    Ok(bars)
}

/// The market prefix of a history request: the exchange when it is known, otherwise the
/// symbol's first digit.
pub open spec fn history_prefix(symbol: Seq<char>, market: Seq<char>) -> Option<Seq<char>> {
    if market == "SSE"@ {
        Some("1"@)
    } else if market == "SZSE"@ {
        Some("0"@)
    } else if symbol.len() > 0 && symbol[0] == '6' {
        Some("1"@)
    } else if symbol.len() > 0 && (symbol[0] == '0' || symbol[0] == '3') {
        Some("0"@)
    } else {
        None
    }
}

pub open spec fn history_url_spec(symbol: Seq<char>, market: Seq<char>, trading_days: usize) -> Result<
    Seq<char>,
    Seq<char>,
> {
    if !(trading_days == 20 || trading_days == 60) {
        Err("历史行情窗口仅支持20或60个交易日"@)
    } else {
        match history_prefix(symbol, market) {
            None => Err("证券交易所未确认，无法查询历史行情"@),
            Some(prefix) => Ok(
                "https://push2his.eastmoney.com/api/qt/stock/kline/get?secid="@ + prefix + "."@
                    + symbol + "&klt=101&fqt=1&lmt="@ + (if trading_days == 20 {
                    "20"@
                } else {
                    "60"@
                }) + "&fields1=f1,f2,f3,f4,f5,f6&fields2=f51,f52,f53,f54,f55,f56,f57,f58,f59,f60,f61"@,
            ),
        }
    }
}

/// Eastmoney's daily kline history.
pub struct EastmoneyPriceHistoryAdapter;

impl EastmoneyPriceHistoryAdapter {
    pub fn source(&self) -> (r: &'static str)
        ensures
            r@ == "东方财富历史行情"@,
    {
        "东方财富历史行情"
    }

    /// The request URL for a 20- or 60-day window.
    pub fn history_url(symbol: &str, market: &str, trading_days: usize) -> (r: Result<
        String,
        PriceHistoryError,
    >)
        ensures
            match (r, history_url_spec(symbol@, market@, trading_days)) {
                (Ok(u), Ok(t)) => u@ == t,
                (Err(e), Err(t)) => e.0@ == t,
                _ => false,
            },
    {
        if !(trading_days == 20 || trading_days == 60) {
            return Err(PriceHistoryError(String::from_str("历史行情窗口仅支持20或60个交易日")));
        }
        let chars = chars_of(symbol);
        let prefix = if str_eq(market, "SSE") {
            "1"
        } else if str_eq(market, "SZSE") {
            "0"
        } else if chars.len() > 0 && chars[0] == '6' {
            "1"
        } else if chars.len() > 0 && (chars[0] == '0' || chars[0] == '3') {
            "0"
        } else {
            return Err(PriceHistoryError(String::from_str("证券交易所未确认，无法查询历史行情")));
        };
        let mut url = String::from_str("https://push2his.eastmoney.com/api/qt/stock/kline/get?secid=");
        url.append(prefix);
        url.append(".");
        url.append(symbol);
        url.append("&klt=101&fqt=1&lmt=");
        url.append(if trading_days == 20 { "20" } else { "60" });
        url.append("&fields1=f1,f2,f3,f4,f5,f6&fields2=f51,f52,f53,f54,f55,f56,f57,f58,f59,f60,f61");
        Ok(url)
    }
}

} // verus!
