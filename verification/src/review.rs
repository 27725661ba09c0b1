//! The non-AI daily portfolio review.
//!
//! A review is a deterministic snapshot assembled only from local services and saved records. It
//! never requests market data, calls an AI model, forecasts returns or recommends a trade.
use vstd::prelude::*;

use crate::dashboard::{AssetSummaryView, MarketIndexQuoteView};
use crate::decimal::{compare, decimal_from_str, parse_decimal, pow10, value_order, Dec};
use crate::news::{news_error_text, NewsServiceError};
use crate::portfolio_ui::{portfolio_ui_error_text, PortfolioHoldingView, PortfolioUiError};
use crate::records::MarketSnapshotReference;
use crate::text::{
    chars_of, concat2, concat3, lemma_lex_asymmetric, lemma_lex_total, lemma_lex_transitive, lex_less, lex_lt,
    nat_text, str_eq, u64_text,
};

verus! {

#[derive(Debug, Clone, PartialEq, Eq)]
pub struct ReviewPortfolioSummary {
    pub total_assets: Option<String>,
    pub daily_pnl: Option<String>,
    pub return_rate: Option<String>,
    pub holding_count: usize,
}

#[derive(Debug, Clone, PartialEq, Eq)]
pub struct ReviewSnapshot {
    pub id: i64,
    pub source: String,
    pub market_timestamp: String,
    pub fetched_at: String,
    pub status: String,
}

#[derive(Debug, Clone, PartialEq, Eq)]
pub struct ReviewMarketIndex {
    pub name: String,
    pub symbol: String,
    pub change_percent: Option<String>,
    pub source: Option<String>,
    pub status: String,
    pub updated_at: Option<String>,
}

#[derive(Debug, Clone, PartialEq, Eq)]
pub struct ReviewMarketSummary {
    pub snapshot: Option<ReviewSnapshot>,
    pub major_indices: Vec<ReviewMarketIndex>,
}

#[derive(Debug, PartialEq, Eq)]
pub struct HoldingContribution {
    pub name: String,
    pub symbol: String,
    pub daily_pnl: Option<String>,
    pub change_percent: Option<String>,
}

impl Clone for HoldingContribution {
    fn clone(&self) -> (r: Self)
        ensures
            r == *self,
    {
        HoldingContribution {
            name: self.name.clone(),
            symbol: self.symbol.clone(),
            daily_pnl: self.daily_pnl.clone(),
            change_percent: self.change_percent.clone(),
        }
    }
}

#[derive(Debug, Clone, PartialEq, Eq)]
pub struct ReviewHoldingSummary {
    pub contributions: Vec<HoldingContribution>,
}

#[derive(Debug, Clone, PartialEq, Eq)]
pub struct ReviewRiskSummary {
    pub facts: Vec<String>,
    pub related_news_count: usize,
}

#[derive(Debug, Clone, PartialEq, Eq)]
pub struct DailyReviewView {
    pub id: i64,
    pub review_date: String,
    pub snapshot_id: Option<i64>,
    pub portfolio_summary: ReviewPortfolioSummary,
    pub market_summary: ReviewMarketSummary,
    pub holding_summary: ReviewHoldingSummary,
    pub risk_summary: ReviewRiskSummary,
    pub created_at: String,
}

#[derive(Debug)]
pub enum ReviewServiceError {
    Database(String),
    Portfolio(PortfolioUiError),
    News(NewsServiceError),
    Serialization(String),
    Validation(&'static str),
    MissingReview,
}

impl ReviewServiceError {
    /// The text the error displays.
    pub fn message(&self) -> (r: String)
        ensures
            match *self {
                ReviewServiceError::Database(m) => r@ == "database error: "@ + m@,
                ReviewServiceError::Serialization(m) => r@ == "review serialization error: "@ + m@,
                ReviewServiceError::Validation(m) => r@ == m@,
                ReviewServiceError::MissingReview => r@ == "暂无当日复盘"@,
                ReviewServiceError::Portfolio(e) => r@ == "portfolio error: "@ + portfolio_ui_error_text(e),
                ReviewServiceError::News(e) => r@ == "news error: "@ + news_error_text(e),
            },
    {
        match self {
            ReviewServiceError::Database(m) => concat2("database error: ", m.as_str()),
            ReviewServiceError::Portfolio(e) => {
                let t = e.message();
                concat2("portfolio error: ", t.as_str())
            },
            ReviewServiceError::News(e) => {
                let t = e.message();
                concat2("news error: ", t.as_str())
            },
            ReviewServiceError::Serialization(m) => concat2("review serialization error: ", m.as_str()),
            ReviewServiceError::Validation(m) => String::from_str(m),
            ReviewServiceError::MissingReview => String::from_str("暂无当日复盘"),
        }
    }
}

/// Whether `NaiveDate::parse_from_str(text, "%Y-%m-%d")` reads a date.
pub uninterp spec fn chrono_date_accepts(text: Seq<char>) -> bool;

/// `NaiveDate::parse_from_str(value, "%Y-%m-%d")`, telling only whether it succeeds.
#[verifier::external_body]
fn reads_as_date(value: &str) -> (r: bool)
    ensures
        r == chrono_date_accepts(value@),
{
    chrono::NaiveDate::parse_from_str(value, "%Y-%m-%d").is_ok()
}

/// A review date must be a `YYYY-MM-DD` calendar date.
pub fn validate_review_date(value: &str) -> (r: Result<(), ReviewServiceError>)
    ensures
        r is Ok <==> chrono_date_accepts(value@),
        r matches Err(e) ==> e == ReviewServiceError::Validation("复盘日期必须为 YYYY-MM-DD"),
{
    if reads_as_date(value) {
        Ok(())
    } else {
        Err(ReviewServiceError::Validation("复盘日期必须为 YYYY-MM-DD"))
    }
}

pub open spec fn pnl_value(c: HoldingContribution) -> Option<Dec> {
    match c.daily_pnl {
        Some(s) => decimal_from_str(s@),
        None => None,
    }
}

/// Strictly earlier in the contribution list: larger daily P&L first, readable P&L before
/// unreadable, and unreadable ones by name, then code.
pub open spec fn contribution_before(a: HoldingContribution, b: HoldingContribution) -> bool {
    match (pnl_value(a), pnl_value(b)) {
        (Some(x), Some(y)) => value_order(x, y) == 1,
        (Some(_), None) => true,
        (None, Some(_)) => false,
        (None, None) => lex_lt(a.name@, b.name@) || (a.name@ == b.name@ && lex_lt(a.symbol@, b.symbol@)),
    }
}

/// Inserts `x` after every contribution it does not come before (a stable insertion).
pub open spec fn insert_contribution(x: HoldingContribution, s: Seq<HoldingContribution>) -> Seq<
    HoldingContribution,
>
    decreases s.len(),
{
    if s.len() == 0 {
        seq![x]
    } else if contribution_before(x, s.last()) {
        insert_contribution(x, s.drop_last()).push(s.last())
    } else {
        s.push(x)
    }
}

/// The stable sort of `sort_by` with the contribution order.
pub open spec fn sort_contributions(s: Seq<HoldingContribution>) -> Seq<HoldingContribution>
    decreases s.len(),
{
    if s.len() == 0 {
        s
    } else {
        insert_contribution(s.last(), sort_contributions(s.drop_last()))
    }
}

/// No contribution of the sequence comes before one that stands ahead of it.
pub open spec fn contributions_in_order(s: Seq<HoldingContribution>) -> bool {
    forall|i: int, j: int| 0 <= i < j < s.len() ==> !contribution_before(#[trigger] s[j], #[trigger] s[i])
}

proof fn lemma_pow10_positive(n: nat)
    ensures
        pow10(n) > 0,
    decreases n,
{
    if n > 0 {
        lemma_pow10_positive((n - 1) as nat);
    }
}

proof fn lemma_scaled_le_transitive(a: int, b: int, c: int, da: int, db: int, dc: int)
    by (nonlinear_arith)
    requires
        da > 0,
        db > 0,
        dc > 0,
        a * db <= b * da,
        b * dc <= c * db,
    ensures
        a * dc <= c * da,
{
    assert(a * db * dc <= b * da * dc);
    assert(b * dc * da <= c * db * da);
}

proof fn lemma_value_not_above_transitive(a: Dec, b: Dec, c: Dec)
    requires
        value_order(a, b) != 1,
        value_order(b, c) != 1,
    ensures
        value_order(a, c) != 1,
{
    lemma_pow10_positive(a.scale as nat);
    lemma_pow10_positive(b.scale as nat);
    lemma_pow10_positive(c.scale as nat);
    lemma_scaled_le_transitive(
        a.num(),
        b.num(),
        c.num(),
        pow10(a.scale as nat),
        pow10(b.scale as nat),
        pow10(c.scale as nat),
    );
}

proof fn lemma_lex_not_below_transitive(a: Seq<char>, b: Seq<char>, c: Seq<char>)
    requires
        !lex_lt(a, b),
        !lex_lt(b, c),
    ensures
        !lex_lt(a, c),
{
    lemma_lex_total(a, b);
    lemma_lex_total(b, c);
    lemma_lex_asymmetric(a, c);
    if a != b && b != c {
        lemma_lex_transitive(c, b, a);
    }
}

proof fn lemma_contribution_order(a: HoldingContribution, b: HoldingContribution, c: HoldingContribution)
    ensures
        contribution_before(a, b) ==> !contribution_before(b, a),
        !contribution_before(a, b) && !contribution_before(b, c) ==> !contribution_before(a, c),
{
    lemma_lex_asymmetric(a.name@, b.name@);
    lemma_lex_asymmetric(a.symbol@, b.symbol@);
    if !contribution_before(a, b) && !contribution_before(b, c) {
        match (pnl_value(a), pnl_value(b), pnl_value(c)) {
            (Some(x), Some(y), Some(z)) => lemma_value_not_above_transitive(x, y, z),
            (None, None, None) => {
                lemma_lex_total(a.name@, b.name@);
                lemma_lex_total(b.name@, c.name@);
                lemma_lex_not_below_transitive(a.name@, b.name@, c.name@);
                if a.name@ == c.name@ {
                    lemma_lex_asymmetric(a.name@, b.name@);
                    lemma_lex_not_below_transitive(a.symbol@, b.symbol@, c.symbol@);
                }
            },
            _ => {},
        }
    }
}

proof fn lemma_insert_contribution(x: HoldingContribution, s: Seq<HoldingContribution>)
    requires
        contributions_in_order(s),
    ensures
        insert_contribution(x, s).to_multiset() == s.push(x).to_multiset(),
        contributions_in_order(insert_contribution(x, s)),
    decreases s.len(),
{
    broadcast use vstd::seq_lib::group_to_multiset_ensures;
    broadcast use vstd::multiset::group_multiset_axioms;

    if s.len() == 0 {
        assert(insert_contribution(x, s) =~= s.push(x));
    } else {
        let l = s.last();
        let d = s.drop_last();
        assert(s =~= d.push(l));
        if contribution_before(x, l) {
            assert(contributions_in_order(d));
            lemma_insert_contribution(x, d);
            let r = insert_contribution(x, d);
            assert(r.push(l).to_multiset() =~= s.push(x).to_multiset());
            assert forall|i: int, j: int| 0 <= i < j < r.push(l).len() implies !contribution_before(
                #[trigger] r.push(l)[j],
                #[trigger] r.push(l)[i],
            ) by {
                if j == r.len() {
                    let e = r[i];
                    assert(r.contains(e));
                    assert(r.to_multiset().count(e) > 0);
                    if e == x {
                        lemma_contribution_order(x, l, x);
                    } else {
                        assert(d.to_multiset().count(e) > 0);
                        assert(d.contains(e));
                        let k = choose|k: int| 0 <= k < d.len() && d[k] == e;
                        assert(s[k] == e && s[s.len() - 1] == l);
                    }
                } else {
                    assert(r.push(l)[j] == r[j] && r.push(l)[i] == r[i]);
                }
            }
        } else {
            assert(insert_contribution(x, s) == s.push(x));
            assert forall|i: int, j: int| 0 <= i < j < s.push(x).len() implies !contribution_before(
                #[trigger] s.push(x)[j],
                #[trigger] s.push(x)[i],
            ) by {
                if j == s.len() {
                    if i < s.len() - 1 {
                        assert(s[s.len() - 1] == l);
                        lemma_contribution_order(x, l, s[i]);
                    }
                } else {
                    assert(s.push(x)[j] == s[j] && s.push(x)[i] == s[i]);
                }
            }
        }
    }
}

/// The contribution list is a reordering of the contributions, and no contribution comes after
/// one that it comes before.
pub proof fn law_contributions_are_an_ordered_reordering(s: Seq<HoldingContribution>)
    ensures
        sort_contributions(s).to_multiset() == s.to_multiset(),
        contributions_in_order(sort_contributions(s)),
    decreases s.len(),
{
    if s.len() > 0 {
        let d = s.drop_last();
        law_contributions_are_an_ordered_reordering(d);
        lemma_insert_contribution(s.last(), sort_contributions(d));
        broadcast use vstd::seq_lib::group_to_multiset_ensures;

        assert(s =~= d.push(s.last()));
    }
}

/// The contribution of a holding.
pub open spec fn contribution_of(c: HoldingContribution, h: PortfolioHoldingView) -> bool {
    &&& c.name == h.name
    &&& c.symbol == h.symbol
    &&& c.daily_pnl == h.daily_pnl
    &&& c.change_percent == h.change_percent
}

pub open spec fn contributions_of(cs: Seq<HoldingContribution>, hs: Seq<PortfolioHoldingView>) -> bool {
    &&& cs.len() == hs.len()
    &&& forall|k: int| 0 <= k < cs.len() ==> contribution_of(#[trigger] cs[k], hs[k])
}

fn pnl_value_exec(c: &HoldingContribution) -> (r: Option<Dec>)
    ensures
        r == pnl_value(*c),
        r matches Some(d) ==> d.wf(),
{
    match &c.daily_pnl {
        Some(s) => parse_decimal(s.as_str()),
        None => None,
    }
}

fn contribution_before_exec(a: &HoldingContribution, b: &HoldingContribution) -> (r: bool)
    ensures
        r == contribution_before(*a, *b),
{
    match (pnl_value_exec(a), pnl_value_exec(b)) {
        (Some(x), Some(y)) => compare(x, y) == 1,
        (Some(_), None) => true,
        (None, Some(_)) => false,
        (None, None) => {
            let an = chars_of(a.name.as_str());
            let bn = chars_of(b.name.as_str());
            if lex_less(&an, &bn) {
                true
            } else if crate::text::vec_eq(&an, &bn) {
                lex_less(&chars_of(a.symbol.as_str()), &chars_of(b.symbol.as_str()))
            } else {
                false
            }
        },
    }
}

fn insert_contribution_exec(sorted: &mut Vec<HoldingContribution>, x: HoldingContribution)
    ensures
        final(sorted)@ == insert_contribution(x, old(sorted)@),
{
    let ghost original = sorted@;
    let mut p: usize = sorted.len();
    proof {
        assert(original.take(p as int) =~= original);
        assert(original.skip(p as int) =~= Seq::<HoldingContribution>::empty());
        assert(insert_contribution(x, original) + Seq::<HoldingContribution>::empty() =~= insert_contribution(
            x,
            original,
        ));
    }
    while p > 0 && contribution_before_exec(&x, &sorted[p - 1])
        invariant
            0 <= p <= sorted@.len(),
            sorted@ == original,
            insert_contribution(x, original) == insert_contribution(x, original.take(p as int))
                + original.skip(p as int),
        decreases p,
    {
        proof {
            let t = original.take(p as int);
            assert(t.last() == original[p - 1]);
            assert(t.drop_last() =~= original.take(p - 1));
            assert(insert_contribution(x, t) == insert_contribution(x, t.drop_last()).push(t.last()));
            assert(insert_contribution(x, original.take(p - 1)).push(original[p - 1]) + original.skip(
                p as int,
            ) =~= insert_contribution(x, original.take(p - 1)) + original.skip(p - 1));
        }
        p = p - 1;
    }
    proof {
        let t = original.take(p as int);
        if p > 0 {
            assert(t.last() == original[p - 1]);
            assert(insert_contribution(x, t) == t.push(x));
        } else {
            assert(insert_contribution(x, t) =~= seq![x]);
        }
    }
    sorted.insert(p, x);
    proof {
        assert(sorted@ =~= original.take(p as int).push(x) + original.skip(p as int));
    }
}

/// The contributions of the holdings, larger daily P&L first.
pub fn sorted_contributions(holdings: &Vec<PortfolioHoldingView>) -> (r: Vec<HoldingContribution>)
    ensures
        exists|cs: Seq<HoldingContribution>| contributions_of(cs, holdings@) && r@ == sort_contributions(cs),
{
    let mut all: Vec<HoldingContribution> = Vec::new();
    let mut i: usize = 0;
    while i < holdings.len()
        invariant
            0 <= i <= holdings@.len(),
            all@.len() == i,
            forall|k: int| 0 <= k < i ==> contribution_of(#[trigger] all@[k], holdings@[k]),
        decreases holdings@.len() - i,
    {
        let h = &holdings[i];
        all.push(
            HoldingContribution {
                name: h.name.clone(),
                symbol: h.symbol.clone(),
                daily_pnl: h.daily_pnl.clone(),
                change_percent: h.change_percent.clone(),
            },
        );
        i = i + 1;
    }
    let mut sorted: Vec<HoldingContribution> = Vec::new();
    let mut j: usize = 0;
    while j < all.len()
        invariant
            0 <= j <= all@.len(),
            sorted@ == sort_contributions(all@.take(j as int)),
        decreases all@.len() - j,
    {
        proof {
            assert(all@.take(j as int + 1).drop_last() =~= all@.take(j as int));
            assert(all@.take(j as int + 1).last() == all@[j as int]);
        }
        insert_contribution_exec(&mut sorted, all[j].clone());
        j = j + 1;
    }
    proof {
        assert(all@.take(all@.len() as int) =~= all@);
        assert(contributions_of(all@, holdings@));
    }
    sorted
}

/// A holding whose valuation cannot be verified: no current price or no daily P&L.
pub open spec fn unvalued(h: PortfolioHoldingView) -> bool {
    h.current_price is None || h.daily_pnl is None
}

pub open spec fn unvalued_fn() -> spec_fn(PortfolioHoldingView) -> bool {
    |h: PortfolioHoldingView| unvalued(h)
}

/// The facts the risk summary states, in order: a missing market snapshot, holdings without a
/// verifiable valuation, and the saved news count.
pub open spec fn risk_facts(has_snapshot: bool, unvalued_count: nat, news: nat) -> Seq<Seq<char>> {
    let a: Seq<Seq<char>> = if has_snapshot {
        seq![]
    } else {
        seq!["未找到当日市场快照，市场表现未确认。"@]
    };
    let b: Seq<Seq<char>> = if unvalued_count > 0 {
        seq![nat_text(unvalued_count) + " 个持仓缺少可验证的当前价格或今日盈亏。"@]
    } else {
        seq![]
    };
    let c: Seq<Seq<char>> = if news == 0 {
        seq!["暂无与当前持仓关联的已保存资讯。"@]
    } else {
        seq!["已保存与当前持仓关联的资讯："@ + nat_text(news) + " 条。"@]
    };
    a + b + c
}

fn count_unvalued(holdings: &Vec<PortfolioHoldingView>) -> (r: usize)
    ensures
        r == holdings@.filter(unvalued_fn()).len(),
{
    let ghost f = unvalued_fn();
    let mut n: usize = 0;
    let mut i: usize = 0;
    while i < holdings.len()
        invariant
            0 <= i <= holdings@.len(),
            f == unvalued_fn(),
            n == holdings@.take(i as int).filter(f).len(),
            n <= i,
        decreases holdings@.len() - i,
    {
        proof {
            assert(holdings@.take(i as int + 1) =~= holdings@.take(i as int).push(holdings@[i as int]));
            reveal(Seq::filter);
            assert(holdings@.take(i as int + 1).drop_last() =~= holdings@.take(i as int));
        }
        if holdings[i].current_price.is_none() || holdings[i].daily_pnl.is_none() {
            n = n + 1;
        }
        i = i + 1;
    }
    proof {
        assert(holdings@.take(holdings@.len() as int) =~= holdings@);
    }
    n
}

/// The factual risk summary of the review.
pub fn factual_risks(has_snapshot: bool, holdings: &Vec<PortfolioHoldingView>, related_news_count: usize) -> (r:
    ReviewRiskSummary)
    ensures
        r.facts@.map_values(|s: String| s@) == risk_facts(
            has_snapshot,
            holdings@.filter(unvalued_fn()).len(),
            related_news_count as nat,
        ),
        r.related_news_count == related_news_count,
{
    let unvalued_count = count_unvalued(holdings);
    let mut facts: Vec<String> = Vec::new();
    if !has_snapshot {
        facts.push(String::from_str("未找到当日市场快照，市场表现未确认。"));
    }
    if unvalued_count > 0 {
        let n = u64_text(unvalued_count as u64);
        facts.push(concat2(n.as_str(), " 个持仓缺少可验证的当前价格或今日盈亏。"));
    }
    if related_news_count == 0 {
        facts.push(String::from_str("暂无与当前持仓关联的已保存资讯。"));
    } else {
        let n = u64_text(related_news_count as u64);
        facts.push(concat3("已保存与当前持仓关联的资讯：", n.as_str(), " 条。"));
    }
    proof {
        assert(facts@.map_values(|s: String| s@) =~= risk_facts(
            has_snapshot,
            holdings@.filter(unvalued_fn()).len(),
            related_news_count as nat,
        ));
    }
    ReviewRiskSummary { facts, related_news_count }
}

/// The parts of a review to store.
#[derive(Debug)]
pub struct ReviewParts {
    pub snapshot_id: Option<i64>,
    pub portfolio_summary: ReviewPortfolioSummary,
    pub market_summary: ReviewMarketSummary,
    pub holding_summary: ReviewHoldingSummary,
    pub risk_summary: ReviewRiskSummary,
}

pub open spec fn review_index_of(r: ReviewMarketIndex, v: MarketIndexQuoteView) -> bool {
    &&& r.name == v.name
    &&& r.symbol == v.symbol
    &&& r.change_percent == v.change_percent
    &&& r.source == v.source
    &&& r.status == v.status
    &&& r.updated_at == v.updated_at
}

pub open spec fn review_snapshot_of(r: Option<ReviewSnapshot>, s: Option<MarketSnapshotReference>) -> bool {
    match s {
        Some(x) => r is Some && r->Some_0.id == x.id && r->Some_0.source == x.source
            && r->Some_0.market_timestamp == x.market_timestamp && r->Some_0.fetched_at == x.fetched_at
            && r->Some_0.status == x.delay_status,
        None => r is None,
    }
}

pub struct ReviewService;

impl ReviewService {
    /// Assembles a review from the holding views, the saved related news count, the day's market
    /// snapshot, the asset summary and the index board.
    pub fn assemble(
        holdings: &Vec<PortfolioHoldingView>,
        related_news_count: usize,
        snapshot: Option<MarketSnapshotReference>,
        asset: AssetSummaryView,
        indices: Vec<MarketIndexQuoteView>,
    ) -> (r: ReviewParts)
        ensures
            r.snapshot_id == (match snapshot {
                Some(s) => Some(s.id),
                None => None::<i64>,
            }),
            r.portfolio_summary.total_assets == asset.total_assets,
            r.portfolio_summary.daily_pnl == asset.daily_pnl,
            r.portfolio_summary.return_rate == asset.return_rate,
            r.portfolio_summary.holding_count == holdings@.len(),
            review_snapshot_of(r.market_summary.snapshot, snapshot),
            r.market_summary.major_indices@.len() == indices@.len(),
            forall|k: int|
                0 <= k < indices@.len() ==> review_index_of(
                    #[trigger] r.market_summary.major_indices@[k],
                    indices@[k],
                ),
            exists|cs: Seq<HoldingContribution>|
                contributions_of(cs, holdings@) && r.holding_summary.contributions@ == sort_contributions(cs),
            r.risk_summary.facts@.map_values(|s: String| s@) == risk_facts(
                snapshot is Some,
                holdings@.filter(unvalued_fn()).len(),
                related_news_count as nat,
            ),
            r.risk_summary.related_news_count == related_news_count,
    {
        let portfolio_summary = ReviewPortfolioSummary {
            total_assets: asset.total_assets,
            daily_pnl: asset.daily_pnl,
            return_rate: asset.return_rate,
            holding_count: holdings.len(),
        };
        let review_snapshot = match &snapshot {
            Some(s) => Some(
                ReviewSnapshot {
                    id: s.id,
                    source: s.source.clone(),
                    market_timestamp: s.market_timestamp.clone(),
                    fetched_at: s.fetched_at.clone(),
                    status: s.delay_status.clone(),
                },
            ),
            None => None,
        };
        let mut major: Vec<ReviewMarketIndex> = Vec::new();
        let mut i: usize = 0;
        while i < indices.len()
            invariant
                0 <= i <= indices@.len(),
                major@.len() == i,
                forall|k: int| 0 <= k < i ==> review_index_of(#[trigger] major@[k], indices@[k]),
            decreases indices@.len() - i,
        {
            let v = &indices[i];
            major.push(
                ReviewMarketIndex {
                    name: v.name.clone(),
                    symbol: v.symbol.clone(),
                    change_percent: v.change_percent.clone(),
                    source: v.source.clone(),
                    status: v.status.clone(),
                    updated_at: v.updated_at.clone(),
                },
            );
            i = i + 1;
        }
        let contributions = sorted_contributions(holdings);
        let risk_summary = factual_risks(snapshot.is_some(), holdings, related_news_count);
        let snapshot_id = match &snapshot {
            Some(s) => Some(s.id),
            None => None,
        };
        ReviewParts {
            snapshot_id,
            portfolio_summary,
            market_summary: ReviewMarketSummary { snapshot: review_snapshot, major_indices: major },
            holding_summary: ReviewHoldingSummary { contributions },
            risk_summary,
        }
    }
}

} // verus!
