//! AI research reports: their shape and the safety rules every saved report satisfies.
//!
//! A report is accepted only when every section is non-empty, no text carries prohibited
//! investment advice or prediction language, and every structured conclusion cites evidence from
//! the context it was generated from.
use vstd::prelude::*;

use crate::json::JsonValue;
use crate::text::{contains, is_blank, str_contains, str_eq, trim};

verus! {

// ---------------------------------------------------------------------------------------------
// Report types
// ---------------------------------------------------------------------------------------------
#[derive(Debug, Clone)]
pub struct ResearchDriver {
    pub title: String,
    pub rationale: String,
    pub impact_level: String,
    pub evidence_ids: Vec<String>,
}

#[derive(Debug, Clone)]
pub struct MarketThesis {
    pub summary: String,
    pub facts: String,
    pub expectations: String,
    pub sentiment: String,
    pub evidence_ids: Vec<String>,
}

#[derive(Debug, Clone)]
pub struct BullBearPoint {
    pub view: String,
    pub basis: String,
    pub evidence_ids: Vec<String>,
}

#[derive(Debug, Clone)]
pub struct BullBearAnalysis {
    pub bull: Vec<BullBearPoint>,
    pub bear: Vec<BullBearPoint>,
    pub key_divergence: String,
    pub evidence_ids: Vec<String>,
}

#[derive(Debug, Clone)]
pub struct FutureCatalyst {
    pub time_window: String,
    pub title: String,
    pub source: String,
    pub credibility: String,
    pub time: String,
    pub evidence_ids: Vec<String>,
}

#[derive(Debug, Clone)]
pub struct RiskFactor {
    pub level: String,
    pub title: String,
    pub reason: String,
    pub evidence_ids: Vec<String>,
}

#[derive(Debug, Clone)]
pub struct ResearchScore {
    pub fundamental_attention: u8,
    pub technical_state: u8,
    pub market_heat: u8,
    pub sentiment_state: u8,
    pub risk_level: u8,
    pub overall: u8,
    pub explanation: String,
}

/// The sections a provider answers with.
#[derive(Debug, Clone)]
pub struct AiReviewSections {
    pub facts: Vec<String>,
    pub inferences: Vec<String>,
    pub risks: Vec<String>,
    pub stock_status: Option<String>,
    pub market_analysis: Option<String>,
    pub sector_analysis: Option<String>,
    pub news_analysis: Option<String>,
    pub technical_analysis: Option<String>,
    pub strategy_reference: Option<String>,
    pub conclusion: Option<String>,
    pub actions: Option<String>,
    pub core_drivers: Option<Vec<ResearchDriver>>,
    pub market_thesis: Option<MarketThesis>,
    pub bull_bear_analysis: Option<BullBearAnalysis>,
    pub future_catalysts: Option<Vec<FutureCatalyst>>,
    pub risk_factors: Option<Vec<RiskFactor>>,
    pub research_score: Option<ResearchScore>,
}

#[derive(Debug, Clone)]
pub struct AiResearchReport {
    pub stock_status: String,
    pub market_analysis: String,
    pub sector_analysis: String,
    pub news_analysis: String,
    pub technical_analysis: String,
    pub strategy_reference: String,
    pub conclusion: String,
    pub actions: String,
    pub core_drivers: Vec<ResearchDriver>,
    pub market_thesis: Option<MarketThesis>,
    pub bull_bear_analysis: Option<BullBearAnalysis>,
    pub future_catalysts: Vec<FutureCatalyst>,
    pub risk_factors: Vec<RiskFactor>,
    pub research_score: Option<ResearchScore>,
}

#[derive(Debug, Clone)]
pub struct AiProviderError {
    pub message: String,
    pub http_status: Option<u16>,
    pub raw_response: Option<String>,
}

#[derive(Debug)]
pub enum AiServiceError {
    Provider(AiProviderError),
    InvalidOutput(&'static str),
    NotConfigured,
    KeychainUnavailable,
    NoManualSnapshot,
    Context(String),
}

/// The error is `InvalidOutput` with this message.
pub open spec fn invalid_output(e: AiServiceError, m: Seq<char>) -> bool {
    e matches AiServiceError::InvalidOutput(x) && x@ == m
}

/// A check's result: `Ok` when no message is expected, else `InvalidOutput` with the message.
pub open spec fn checked(r: Result<(), AiServiceError>, expected: Option<Seq<char>>) -> bool {
    match expected {
        None => r is Ok,
        Some(m) => r matches Err(e) && invalid_output(e, m),
    }
}

// ---------------------------------------------------------------------------------------------
// Language rules
// ---------------------------------------------------------------------------------------------
/// What `str::to_lowercase` gives.
pub uninterp spec fn lowercase(s: Seq<char>) -> Seq<char>;

/// `str::to_lowercase`.
#[verifier::external_body]
pub(crate) fn to_lowercase(s: &str) -> (r: String)
    ensures
        r@ == lowercase(s@),
{
    s.to_lowercase()
}

pub open spec fn blank(s: Seq<char>) -> bool {
    trim(s).len() == 0
}

/// Advice or prediction terms, matched in the lowercased text.
pub open spec fn has_prohibited(s: Seq<char>) -> bool {
    let l = lowercase(s);
    ||| contains(l, "目标价"@)
    ||| contains(l, "收益预测"@)
    ||| contains(l, "收益承诺"@)
    ||| contains(l, "保证收益"@)
    ||| contains(l, "必涨"@)
    ||| contains(l, "必跌"@)
    ||| contains(l, "稳赚"@)
    ||| contains(l, "一定上涨"@)
    ||| contains(l, "一定下跌"@)
    ||| contains(l, "price target"@)
    ||| contains(l, "guaranteed return"@)
    ||| contains(l, "guaranteed profit"@)
}

/// Direct trading instructions.
pub open spec fn has_directive(s: Seq<char>) -> bool {
    ||| contains(s, "买入"@)
    ||| contains(s, "卖出"@)
    ||| contains(s, "加仓"@)
    ||| contains(s, "减仓"@)
    ||| contains(s, "建仓"@)
    ||| contains(s, "清仓"@)
    ||| contains(s, "止盈"@)
    ||| contains(s, "止损"@)
}

/// Advice or prediction language is exactly a text whose lowercase form names one of the
/// prohibited terms: a target price, a return forecast or promise, a guaranteed return, a sure
/// rise or fall, or a sure profit.
pub proof fn law_prohibited_language_is_any_listed_term(s: Seq<char>)
    ensures
        contains(lowercase(s), "目标价"@) ==> has_prohibited(s),
        contains(lowercase(s), "收益预测"@) ==> has_prohibited(s),
        contains(lowercase(s), "收益承诺"@) ==> has_prohibited(s),
        contains(lowercase(s), "保证收益"@) ==> has_prohibited(s),
        contains(lowercase(s), "必涨"@) ==> has_prohibited(s),
        contains(lowercase(s), "必跌"@) ==> has_prohibited(s),
        contains(lowercase(s), "稳赚"@) ==> has_prohibited(s),
        contains(lowercase(s), "一定上涨"@) ==> has_prohibited(s),
        contains(lowercase(s), "一定下跌"@) ==> has_prohibited(s),
        contains(lowercase(s), "price target"@) ==> has_prohibited(s),
        contains(lowercase(s), "guaranteed return"@) ==> has_prohibited(s),
        contains(lowercase(s), "guaranteed profit"@) ==> has_prohibited(s),
        has_prohibited(s) ==> contains(lowercase(s), "目标价"@) || contains(lowercase(s), "收益预测"@)
            || contains(lowercase(s), "收益承诺"@) || contains(lowercase(s), "保证收益"@) || contains(
            lowercase(s),
            "必涨"@,
        ) || contains(lowercase(s), "必跌"@) || contains(lowercase(s), "稳赚"@) || contains(
            lowercase(s),
            "一定上涨"@,
        ) || contains(lowercase(s), "一定下跌"@) || contains(lowercase(s), "price target"@)
            || contains(lowercase(s), "guaranteed return"@) || contains(lowercase(s), "guaranteed profit"@),
{
}

/// An entry of a provider's answer that names a prohibited term is refused: with the empty-entry
/// message when it is blank, otherwise with the prohibited-content message.
pub proof fn law_prohibited_entries_are_refused(e: Seq<char>, empty_message: Seq<char>)
    requires
        has_prohibited(e),
    ensures
        entry_check(e, empty_message) == Some(if blank(e) {
            empty_message
        } else {
            "AI输出包含禁止的投资建议或预测"@
        }),
{
}

pub fn contains_prohibited_language(value: &str) -> (r: bool)
    ensures
        r == has_prohibited(value@),
{
    let lower = to_lowercase(value);
    let l = lower.as_str();
    str_contains(l, "目标价") || str_contains(l, "收益预测") || str_contains(l, "收益承诺")
        || str_contains(l, "保证收益") || str_contains(l, "必涨") || str_contains(l, "必跌")
        || str_contains(l, "稳赚") || str_contains(l, "一定上涨") || str_contains(l, "一定下跌")
        || str_contains(l, "price target") || str_contains(l, "guaranteed return")
        || str_contains(l, "guaranteed profit")
}

pub open spec fn directive_message() -> Seq<char> {
    "AI输出包含直接交易指令"@
}

pub open spec fn prohibited_message() -> Seq<char> {
    "AI输出包含禁止的投资建议或预测"@
}

pub open spec fn directive_check(s: Seq<char>) -> Option<Seq<char>> {
    if has_directive(s) {
        Some(directive_message())
    } else {
        None
    }
}

/// A direct trading instruction is exactly a text naming buying, selling, adding to, reducing,
/// opening or closing a position, or a take-profit or stop-loss; such a text is refused with the
/// direct-instruction message.
pub proof fn law_trade_instructions_are_the_listed_terms(s: Seq<char>)
    ensures
        has_directive(s) <==> contains(s, "买入"@) || contains(s, "卖出"@) || contains(s, "加仓"@)
            || contains(s, "减仓"@) || contains(s, "建仓"@) || contains(s, "清仓"@) || contains(
            s,
            "止盈"@,
        ) || contains(s, "止损"@),
        has_directive(s) ==> directive_check(s) == Some("AI输出包含直接交易指令"@),
        !has_directive(s) ==> directive_check(s) is None,
{
}

pub fn reject_trade_language(value: &str) -> (r: Result<(), AiServiceError>)
    ensures
        checked(r, directive_check(value@)),
{
    if str_contains(value, "买入") || str_contains(value, "卖出") || str_contains(value, "加仓")
        || str_contains(value, "减仓") || str_contains(value, "建仓") || str_contains(value, "清仓")
        || str_contains(value, "止盈") || str_contains(value, "止损") {
        Err(AiServiceError::InvalidOutput("AI输出包含直接交易指令"))
    } else {
        Ok(())
    }
}

pub open spec fn text_check(s: Seq<char>, name: Seq<char>) -> Option<Seq<char>> {
    if blank(s) {
        Some(name)
    } else {
        None
    }
}

pub fn require_text(value: &str, name: &'static str) -> (r: Result<(), AiServiceError>)
    ensures
        checked(r, text_check(value@, name@)),
{
    if is_blank(value) {
        Err(AiServiceError::InvalidOutput(name))
    } else {
        Ok(())
    }
}

/// The first message of two checks run in order.
pub open spec fn then(a: Option<Seq<char>>, b: Option<Seq<char>>) -> Option<Seq<char>> {
    match a {
        Some(m) => Some(m),
        None => b,
    }
}

// ---------------------------------------------------------------------------------------------
// Sections
// ---------------------------------------------------------------------------------------------
pub open spec fn views(s: Seq<String>) -> Seq<Seq<char>> {
    s.map_values(|x: String| x@)
}

/// One section entry: empty, then prohibited language.
pub open spec fn entry_check(e: Seq<char>, empty_message: Seq<char>) -> Option<Seq<char>> {
    if blank(e) {
        Some(empty_message)
    } else if has_prohibited(e) {
        Some(prohibited_message())
    } else {
        None
    }
}

/// The first failing entry of a list decides the message.
pub open spec fn entries_check(es: Seq<Seq<char>>, empty_message: Seq<char>) -> Option<Seq<char>>
    decreases es.len(),
{
    if es.len() == 0 {
        None
    } else {
        then(entries_check(es.drop_last(), empty_message), entry_check(es.last(), empty_message))
    }
}

/// A list passes its check exactly when every entry is non-blank and free of advice or
/// prediction terms; otherwise the first failing entry gives the message: the empty-entry
/// message when it is blank, the prohibited-content message otherwise.
pub proof fn law_entries_pass_iff_every_entry_passes(es: Seq<Seq<char>>, m: Seq<char>)
    ensures
        entries_check(es, m) is None <==> forall|i: int|
            0 <= i < es.len() ==> !blank(#[trigger] es[i]) && !has_prohibited(es[i]),
        entries_check(es, m) is Some ==> exists|i: int|
            0 <= i < es.len() && entry_check(#[trigger] es[i], m) is Some && entries_check(es, m)
                == entry_check(es[i], m) && forall|j: int| 0 <= j < i ==> entry_check(#[trigger] es[j], m)
                is None,
    decreases es.len(),
{
    if es.len() > 0 {
        let d = es.drop_last();
        law_entries_pass_iff_every_entry_passes(d, m);
        assert forall|i: int| 0 <= i < d.len() implies #[trigger] d[i] == es[i] by {}
        if entries_check(d, m) is None {
            assert forall|j: int| 0 <= j < es.len() - 1 implies entry_check(#[trigger] es[j], m) is None by {
                assert(d[j] == es[j]);
            }
        } else {
            let i = choose|i: int|
                0 <= i < d.len() && entry_check(#[trigger] d[i], m) is Some && entries_check(d, m)
                    == entry_check(d[i], m) && forall|j: int| 0 <= j < i ==> entry_check(#[trigger] d[j], m)
                    is None;
            assert(es[i] == d[i]);
            assert forall|j: int| 0 <= j < i implies entry_check(#[trigger] es[j], m) is None by {
                assert(d[j] == es[j]);
            }
        }
    }
}

/// Facts, then inferences, then risks.
pub open spec fn sections_check(s: AiReviewSections) -> Option<Seq<char>> {
    entries_check(views(s.facts@) + views(s.inferences@) + views(s.risks@), "AI输出包含空内容"@)
}

proof fn lemma_entries_concat(a: Seq<Seq<char>>, b: Seq<Seq<char>>, m: Seq<char>)
    ensures
        entries_check(a + b, m) == then(entries_check(a, m), entries_check(b, m)),
    decreases b.len(),
{
    if b.len() == 0 {
        assert(a + b =~= a);
    } else {
        assert((a + b).drop_last() =~= a + b.drop_last());
        assert((a + b).last() == b.last());
        lemma_entries_concat(a, b.drop_last(), m);
    }
}

fn check_entries(es: &Vec<String>, empty_message: &'static str) -> (r: Result<(), AiServiceError>)
    ensures
        checked(r, entries_check(views(es@), empty_message@)),
{
    let mut i: usize = 0;
    while i < es.len()
        invariant
            0 <= i <= es.len(),
            entries_check(views(es@.take(i as int)), empty_message@) is None,
        decreases es.len() - i,
    {
        proof {
            assert(views(es@.take(i as int + 1)).drop_last() =~= views(es@.take(i as int)));
            assert(views(es@.take(i as int + 1)).last() == es@[i as int]@);
            assert(views(es@).take(i as int + 1) =~= views(es@.take(i as int + 1)));
        }
        let e = es[i].as_str();
        if is_blank(e) {
            proof {
                lemma_entries_fail_sticks(views(es@), empty_message@, i as int + 1);
            }
            return Err(AiServiceError::InvalidOutput(empty_message));
        }
        if contains_prohibited_language(e) {
            proof {
                lemma_entries_fail_sticks(views(es@), empty_message@, i as int + 1);
            }
            return Err(AiServiceError::InvalidOutput("AI输出包含禁止的投资建议或预测"));
        }
        i = i + 1;
    }
    proof {
        assert(es@.take(es@.len() as int) =~= es@);
    }
    Ok(())
}

proof fn lemma_entries_fail_sticks(es: Seq<Seq<char>>, m: Seq<char>, i: int)
    requires
        0 < i <= es.len(),
        entries_check(es.take(i), m) is Some,
    ensures
        entries_check(es, m) == entries_check(es.take(i), m),
    decreases es.len() - i,
{
    if i < es.len() {
        assert(es.take(i + 1).drop_last() =~= es.take(i));
        lemma_entries_fail_sticks(es, m, i + 1);
    } else {
        assert(es.take(i) =~= es);
    }
}

pub fn validate_sections(sections: &AiReviewSections) -> (r: Result<(), AiServiceError>)
    ensures
        checked(r, sections_check(*sections)),
{
    proof {
        lemma_entries_concat(
            views(sections.facts@) + views(sections.inferences@),
            views(sections.risks@),
            "AI输出包含空内容"@,
        );
        lemma_entries_concat(
            views(sections.facts@),
            views(sections.inferences@),
            "AI输出包含空内容"@,
        );
    }
    match check_entries(&sections.facts, "AI输出包含空内容") {
        Ok(()) => {},
        Err(e) => return Err(e),
    }
    match check_entries(&sections.inferences, "AI输出包含空内容") {
        Ok(()) => {},
        Err(e) => return Err(e),
    }
    check_entries(&sections.risks, "AI输出包含空内容")
}

// ---------------------------------------------------------------------------------------------
// The report
// ---------------------------------------------------------------------------------------------
/// A report with any of the structured research parts.
pub open spec fn is_v2_spec(r: AiResearchReport) -> bool {
    r.core_drivers@.len() > 0 || r.market_thesis is Some || r.bull_bear_analysis is Some
        || r.future_catalysts@.len() > 0 || r.risk_factors@.len() > 0 || r.research_score is Some
}

impl AiResearchReport {
    pub fn is_v2(&self) -> (r: bool)
        ensures
            r == is_v2_spec(*self),
    {
        self.core_drivers.len() > 0 || self.market_thesis.is_some()
            || self.bull_bear_analysis.is_some() || self.future_catalysts.len() > 0
            || self.risk_factors.len() > 0 || self.research_score.is_some()
    }
}

pub open spec fn one_of(s: Seq<char>, a: Seq<char>, b: Seq<char>, c: Seq<char>) -> bool {
    s == a || s == b || s == c
}

pub open spec fn driver_check(d: ResearchDriver) -> Option<Seq<char>> {
    then(
        text_check(d.title@, "核心驱动标题"@),
        then(
            text_check(d.rationale@, "核心驱动依据"@),
            then(
                if one_of(d.impact_level@, "HIGH"@, "MEDIUM"@, "LOW"@) {
                    None
                } else {
                    Some("核心驱动影响程度无效"@)
                },
                then(directive_check(d.title@), directive_check(d.rationale@)),
            ),
        ),
    )
}

pub open spec fn drivers_check(ds: Seq<ResearchDriver>) -> Option<Seq<char>>
    decreases ds.len(),
{
    if ds.len() == 0 {
        None
    } else {
        then(drivers_check(ds.drop_last()), driver_check(ds.last()))
    }
}

pub open spec fn logic_text_check(s: Seq<char>) -> Option<Seq<char>> {
    then(text_check(s, "市场交易逻辑"@), directive_check(s))
}

pub open spec fn thesis_check(t: MarketThesis, b: BullBearAnalysis) -> Option<Seq<char>> {
    then(
        logic_text_check(t.summary@),
        then(
            logic_text_check(t.facts@),
            then(
                logic_text_check(t.expectations@),
                then(logic_text_check(t.sentiment@), logic_text_check(b.key_divergence@)),
            ),
        ),
    )
}

pub open spec fn point_check(p: BullBearPoint) -> Option<Seq<char>> {
    then(
        text_check(p.view@, "多空观点"@),
        then(
            text_check(p.basis@, "多空依据"@),
            then(directive_check(p.view@), directive_check(p.basis@)),
        ),
    )
}

pub open spec fn points_check(ps: Seq<BullBearPoint>) -> Option<Seq<char>>
    decreases ps.len(),
{
    if ps.len() == 0 {
        None
    } else {
        then(points_check(ps.drop_last()), point_check(ps.last()))
    }
}

/// HIGH ranks 3, MEDIUM 2, LOW 1; anything else has no rank.
pub open spec fn risk_rank(level: Seq<char>) -> Option<int> {
    if level == "HIGH"@ {
        Some(3)
    } else if level == "MEDIUM"@ {
        Some(2)
    } else if level == "LOW"@ {
        Some(1)
    } else {
        None
    }
}

/// The rank the next risk may not exceed: the last risk's, or above HIGH for none.
pub open spec fn previous_rank(rs: Seq<RiskFactor>) -> int {
    if rs.len() == 0 {
        4
    } else {
        match risk_rank(rs.last().level@) {
            Some(k) => k,
            None => 0,
        }
    }
}

pub open spec fn risk_check(r: RiskFactor, previous: int) -> Option<Seq<char>> {
    match risk_rank(r.level@) {
        None => Some("风险等级无效"@),
        Some(k) => if k > previous {
            Some("风险因素未按高、中、低排序"@)
        } else {
            then(
                text_check(r.title@, "风险因素"@),
                then(
                    text_check(r.reason@, "风险原因"@),
                    then(directive_check(r.title@), directive_check(r.reason@)),
                ),
            )
        },
    }
}

pub open spec fn risks_check(rs: Seq<RiskFactor>) -> Option<Seq<char>>
    decreases rs.len(),
{
    if rs.len() == 0 {
        None
    } else {
        then(risks_check(rs.drop_last()), risk_check(rs.last(), previous_rank(rs.drop_last())))
    }
}

pub open spec fn valid_credibility(c: Seq<char>) -> bool {
    c == "A"@ || c == "B"@ || c == "C"@ || c == "D"@ || c == "E"@ || c == "NO_DATA"@
}

pub open spec fn catalyst_text_check(s: Seq<char>) -> Option<Seq<char>> {
    then(text_check(s, "未来催化信息"@), directive_check(s))
}

pub open spec fn catalyst_check(c: FutureCatalyst) -> Option<Seq<char>> {
    if !one_of(c.time_window@, "1D"@, "3D"@, "7D"@) {
        Some("未来催化时间窗口无效"@)
    } else if !valid_credibility(c.credibility@) {
        Some("未来催化可信度无效"@)
    } else {
        then(
            catalyst_text_check(c.title@),
            then(catalyst_text_check(c.source@), catalyst_text_check(c.time@)),
        )
    }
}

pub open spec fn catalysts_check(cs: Seq<FutureCatalyst>) -> Option<Seq<char>>
    decreases cs.len(),
{
    if cs.len() == 0 {
        None
    } else {
        then(catalysts_check(cs.drop_last()), catalyst_check(cs.last()))
    }
}

pub open spec fn score_check(s: ResearchScore) -> Option<Seq<char>> {
    if s.fundamental_attention > 100 || s.technical_state > 100 || s.market_heat > 100
        || s.sentiment_state > 100 || s.risk_level > 100 || s.overall > 100 {
        Some("研究评分必须介于 0 至 100"@)
    } else {
        then(text_check(s.explanation@, "研究评分说明"@), directive_check(s.explanation@))
    }
}

/// The structured research parts, checked in the order the rules are listed.
pub open spec fn v2_parts_check(
    drivers: Seq<ResearchDriver>,
    thesis: Option<MarketThesis>,
    bull_bear: Option<BullBearAnalysis>,
    catalysts: Seq<FutureCatalyst>,
    risks: Seq<RiskFactor>,
    score: Option<ResearchScore>,
    actions: Seq<char>,
) -> Option<Seq<char>> {
    match (thesis, bull_bear, score) {
        (None, _, _) => Some("AI研究报告缺少市场交易逻辑"@),
        (Some(_), None, _) => Some("AI研究报告缺少多空博弈分析"@),
        (Some(_), Some(_), None) => Some("AI研究报告缺少研究评分"@),
        (Some(t), Some(b), Some(s)) => if drivers.len() == 0 || risks.len() == 0 {
            Some("AI研究报告缺少核心驱动或风险因素"@)
        } else {
            then(
                drivers_check(drivers),
                then(
                    thesis_check(t, b),
                    then(
                        points_check(b.bull@ + b.bear@),
                        then(
                            risks_check(risks),
                            then(
                                catalysts_check(catalysts),
                                then(score_check(s), directive_check(actions)),
                            ),
                        ),
                    ),
                ),
            )
        },
    }
}

pub open spec fn v2_check(r: AiResearchReport) -> Option<Seq<char>> {
    v2_parts_check(
        r.core_drivers@,
        r.market_thesis,
        r.bull_bear_analysis,
        r.future_catalysts@,
        r.risk_factors@,
        r.research_score,
        r.actions@,
    )
}

pub open spec fn is_v2_parts(
    drivers: Seq<ResearchDriver>,
    thesis: Option<MarketThesis>,
    bull_bear: Option<BullBearAnalysis>,
    catalysts: Seq<FutureCatalyst>,
    risks: Seq<RiskFactor>,
    score: Option<ResearchScore>,
) -> bool {
    drivers.len() > 0 || thesis is Some || bull_bear is Some || catalysts.len() > 0 || risks.len()
        > 0 || score is Some
}

/// The seven narrative sections in order, then the actions, then the structured parts.
pub open spec fn report_parts_check(
    sections: Seq<Seq<char>>,
    actions: Seq<char>,
    drivers: Seq<ResearchDriver>,
    thesis: Option<MarketThesis>,
    bull_bear: Option<BullBearAnalysis>,
    catalysts: Seq<FutureCatalyst>,
    risks: Seq<RiskFactor>,
    score: Option<ResearchScore>,
) -> Option<Seq<char>> {
    then(
        entries_check(sections, "AI投研报告包含空内容"@),
        then(
            if !blank(actions) && has_prohibited(actions) {
                Some(prohibited_message())
            } else {
                None
            },
            if is_v2_parts(drivers, thesis, bull_bear, catalysts, risks, score) {
                v2_parts_check(drivers, thesis, bull_bear, catalysts, risks, score, actions)
            } else {
                None
            },
        ),
    )
}

pub open spec fn narratives(r: AiResearchReport) -> Seq<Seq<char>> {
    seq![
        r.stock_status@,
        r.market_analysis@,
        r.sector_analysis@,
        r.news_analysis@,
        r.technical_analysis@,
        r.strategy_reference@,
        r.conclusion@,
    ]
}

pub open spec fn report_check(r: AiResearchReport) -> Option<Seq<char>> {
    report_parts_check(
        narratives(r),
        r.actions@,
        r.core_drivers@,
        r.market_thesis,
        r.bull_bear_analysis,
        r.future_catalysts@,
        r.risk_factors@,
        r.research_score,
    )
}

fn check_driver(d: &ResearchDriver) -> (r: Result<(), AiServiceError>)
    ensures
        checked(r, driver_check(*d)),
{
    match require_text(d.title.as_str(), "核心驱动标题") {
        Ok(()) => {},
        Err(e) => return Err(e),
    }
    match require_text(d.rationale.as_str(), "核心驱动依据") {
        Ok(()) => {},
        Err(e) => return Err(e),
    }
    let level = d.impact_level.as_str();
    if !(str_eq(level, "HIGH") || str_eq(level, "MEDIUM") || str_eq(level, "LOW")) {
        return Err(AiServiceError::InvalidOutput("核心驱动影响程度无效"));
    }
    match reject_trade_language(d.title.as_str()) {
        Ok(()) => {},
        Err(e) => return Err(e),
    }
    reject_trade_language(d.rationale.as_str())
}

fn check_drivers(ds: &Vec<ResearchDriver>) -> (r: Result<(), AiServiceError>)
    ensures
        checked(r, drivers_check(ds@)),
{
    let mut i: usize = 0;
    while i < ds.len()
        invariant
            0 <= i <= ds.len(),
            drivers_check(ds@.take(i as int)) is None,
        decreases ds.len() - i,
    {
        proof {
            assert(ds@.take(i as int + 1).drop_last() =~= ds@.take(i as int));
            assert(ds@.take(i as int + 1).last() == ds@[i as int]);
        }
        match check_driver(&ds[i]) {
            Ok(()) => {},
            Err(e) => {
                proof {
                    lemma_drivers_fail_sticks(ds@, i as int + 1);
                }
                return Err(e);
            },
        }
        i = i + 1;
    }
    proof {
        assert(ds@.take(ds@.len() as int) =~= ds@);
    }
    Ok(())
}

proof fn lemma_drivers_fail_sticks(ds: Seq<ResearchDriver>, i: int)
    requires
        0 < i <= ds.len(),
        drivers_check(ds.take(i)) is Some,
    ensures
        drivers_check(ds) == drivers_check(ds.take(i)),
    decreases ds.len() - i,
{
    if i < ds.len() {
        assert(ds.take(i + 1).drop_last() =~= ds.take(i));
        lemma_drivers_fail_sticks(ds, i + 1);
    } else {
        assert(ds.take(i) =~= ds);
    }
}

fn check_logic_text(s: &str) -> (r: Result<(), AiServiceError>)
    ensures
        checked(r, logic_text_check(s@)),
{
    match require_text(s, "市场交易逻辑") {
        Ok(()) => {},
        Err(e) => return Err(e),
    }
    reject_trade_language(s)
}

fn check_point(p: &BullBearPoint) -> (r: Result<(), AiServiceError>)
    ensures
        checked(r, point_check(*p)),
{
    match require_text(p.view.as_str(), "多空观点") {
        Ok(()) => {},
        Err(e) => return Err(e),
    }
    match require_text(p.basis.as_str(), "多空依据") {
        Ok(()) => {},
        Err(e) => return Err(e),
    }
    match reject_trade_language(p.view.as_str()) {
        Ok(()) => {},
        Err(e) => return Err(e),
    }
    reject_trade_language(p.basis.as_str())
}

fn check_points(ps: &Vec<BullBearPoint>) -> (r: Result<(), AiServiceError>)
    ensures
        checked(r, points_check(ps@)),
{
    let mut i: usize = 0;
    while i < ps.len()
        invariant
            0 <= i <= ps.len(),
            points_check(ps@.take(i as int)) is None,
        decreases ps.len() - i,
    {
        proof {
            assert(ps@.take(i as int + 1).drop_last() =~= ps@.take(i as int));
            assert(ps@.take(i as int + 1).last() == ps@[i as int]);
        }
        match check_point(&ps[i]) {
            Ok(()) => {},
            Err(e) => {
                proof {
                    lemma_points_fail_sticks(ps@, i as int + 1);
                }
                return Err(e);
            },
        }
        i = i + 1;
    }
    proof {
        assert(ps@.take(ps@.len() as int) =~= ps@);
    }
    Ok(())
}

proof fn lemma_points_fail_sticks(ps: Seq<BullBearPoint>, i: int)
    requires
        0 < i <= ps.len(),
        points_check(ps.take(i)) is Some,
    ensures
        points_check(ps) == points_check(ps.take(i)),
    decreases ps.len() - i,
{
    if i < ps.len() {
        assert(ps.take(i + 1).drop_last() =~= ps.take(i));
        lemma_points_fail_sticks(ps, i + 1);
    } else {
        assert(ps.take(i) =~= ps);
    }
}

proof fn lemma_points_concat(a: Seq<BullBearPoint>, b: Seq<BullBearPoint>)
    ensures
        points_check(a + b) == then(points_check(a), points_check(b)),
    decreases b.len(),
{
    if b.len() == 0 {
        assert(a + b =~= a);
    } else {
        assert((a + b).drop_last() =~= a + b.drop_last());
        assert((a + b).last() == b.last());
        lemma_points_concat(a, b.drop_last());
    }
}

fn rank_of(level: &str) -> (r: Option<u8>)
    ensures
        match (r, risk_rank(level@)) {
            (Some(a), Some(b)) => a == b,
            (None, None) => true,
            _ => false,
        },
{
    if str_eq(level, "HIGH") {
        Some(3)
    } else if str_eq(level, "MEDIUM") {
        Some(2)
    } else if str_eq(level, "LOW") {
        Some(1)
    } else {
        None
    }
}

fn check_risks(rs: &Vec<RiskFactor>) -> (r: Result<(), AiServiceError>)
    ensures
        checked(r, risks_check(rs@)),
{
    let mut previous: u8 = 4;
    let mut i: usize = 0;
    while i < rs.len()
        invariant
            0 <= i <= rs.len(),
            risks_check(rs@.take(i as int)) is None,
            previous == previous_rank(rs@.take(i as int)),
        decreases rs.len() - i,
    {
        let ghost t = rs@.take(i as int + 1);
        proof {
            assert(t.drop_last() =~= rs@.take(i as int));
            assert(t.last() == rs@[i as int]);
        }
        let risk = &rs[i];
        let rank = match rank_of(risk.level.as_str()) {
            Some(k) => k,
            None => {
                proof {
                    lemma_risks_fail_sticks(rs@, i as int + 1);
                }
                return Err(AiServiceError::InvalidOutput("风险等级无效"));
            },
        };
        if rank > previous {
            proof {
                lemma_risks_fail_sticks(rs@, i as int + 1);
            }
            return Err(AiServiceError::InvalidOutput("风险因素未按高、中、低排序"));
        }
        let checks = match require_text(risk.title.as_str(), "风险因素") {
            Ok(()) => match require_text(risk.reason.as_str(), "风险原因") {
                Ok(()) => match reject_trade_language(risk.title.as_str()) {
                    Ok(()) => reject_trade_language(risk.reason.as_str()),
                    Err(e) => Err(e),
                },
                Err(e) => Err(e),
            },
            Err(e) => Err(e),
        };
        match checks {
            Ok(()) => {},
            Err(e) => {
                proof {
                    lemma_risks_fail_sticks(rs@, i as int + 1);
                }
                return Err(e);
            },
        }
        previous = rank;
        i = i + 1;
    }
    proof {
        assert(rs@.take(rs@.len() as int) =~= rs@);
    }
    Ok(())
}

proof fn lemma_risks_fail_sticks(rs: Seq<RiskFactor>, i: int)
    requires
        0 < i <= rs.len(),
        risks_check(rs.take(i)) is Some,
    ensures
        risks_check(rs) == risks_check(rs.take(i)),
    decreases rs.len() - i,
{
    if i < rs.len() {
        assert(rs.take(i + 1).drop_last() =~= rs.take(i));
        lemma_risks_fail_sticks(rs, i + 1);
    } else {
        assert(rs.take(i) =~= rs);
    }
}

fn check_catalyst_text(s: &str) -> (r: Result<(), AiServiceError>)
    ensures
        checked(r, catalyst_text_check(s@)),
{
    match require_text(s, "未来催化信息") {
        Ok(()) => {},
        Err(e) => return Err(e),
    }
    reject_trade_language(s)
}

fn check_catalyst(c: &FutureCatalyst) -> (r: Result<(), AiServiceError>)
    ensures
        checked(r, catalyst_check(*c)),
{
    let w = c.time_window.as_str();
    if !(str_eq(w, "1D") || str_eq(w, "3D") || str_eq(w, "7D")) {
        return Err(AiServiceError::InvalidOutput("未来催化时间窗口无效"));
    }
    let k = c.credibility.as_str();
    if !(str_eq(k, "A") || str_eq(k, "B") || str_eq(k, "C") || str_eq(k, "D") || str_eq(k, "E")
        || str_eq(k, "NO_DATA")) {
        return Err(AiServiceError::InvalidOutput("未来催化可信度无效"));
    }
    match check_catalyst_text(c.title.as_str()) {
        Ok(()) => {},
        Err(e) => return Err(e),
    }
    match check_catalyst_text(c.source.as_str()) {
        Ok(()) => {},
        Err(e) => return Err(e),
    }
    check_catalyst_text(c.time.as_str())
}

fn check_catalysts(cs: &Vec<FutureCatalyst>) -> (r: Result<(), AiServiceError>)
    ensures
        checked(r, catalysts_check(cs@)),
{
    let mut i: usize = 0;
    while i < cs.len()
        invariant
            0 <= i <= cs.len(),
            catalysts_check(cs@.take(i as int)) is None,
        decreases cs.len() - i,
    {
        proof {
            assert(cs@.take(i as int + 1).drop_last() =~= cs@.take(i as int));
            assert(cs@.take(i as int + 1).last() == cs@[i as int]);
        }
        match check_catalyst(&cs[i]) {
            Ok(()) => {},
            Err(e) => {
                proof {
                    lemma_catalysts_fail_sticks(cs@, i as int + 1);
                }
                return Err(e);
            },
        }
        i = i + 1;
    }
    proof {
        assert(cs@.take(cs@.len() as int) =~= cs@);
    }
    Ok(())
}

proof fn lemma_catalysts_fail_sticks(cs: Seq<FutureCatalyst>, i: int)
    requires
        0 < i <= cs.len(),
        catalysts_check(cs.take(i)) is Some,
    ensures
        catalysts_check(cs) == catalysts_check(cs.take(i)),
    decreases cs.len() - i,
{
    if i < cs.len() {
        assert(cs.take(i + 1).drop_last() =~= cs.take(i));
        lemma_catalysts_fail_sticks(cs, i + 1);
    } else {
        assert(cs.take(i) =~= cs);
    }
}

fn check_score(s: &ResearchScore) -> (r: Result<(), AiServiceError>)
    ensures
        checked(r, score_check(*s)),
{
    if s.fundamental_attention > 100 || s.technical_state > 100 || s.market_heat > 100
        || s.sentiment_state > 100 || s.risk_level > 100 || s.overall > 100 {
        return Err(AiServiceError::InvalidOutput("研究评分必须介于 0 至 100"));
    }
    match require_text(s.explanation.as_str(), "研究评分说明") {
        Ok(()) => {},
        Err(e) => return Err(e),
    }
    reject_trade_language(s.explanation.as_str())
}

/// The structured research parts: thesis, bull/bear analysis and score are required, drivers
/// and risks must not be empty, risks come from high to low, and no text gives a trading
/// instruction.
fn validate_v2_parts(
    drivers: &Vec<ResearchDriver>,
    thesis: &Option<MarketThesis>,
    bull_bear: &Option<BullBearAnalysis>,
    catalysts: &Vec<FutureCatalyst>,
    risks: &Vec<RiskFactor>,
    score: &Option<ResearchScore>,
    actions: &str,
) -> (r: Result<(), AiServiceError>)
    ensures
        checked(r, v2_parts_check(drivers@, *thesis, *bull_bear, catalysts@, risks@, *score, actions@)),
{
    let thesis = match thesis {
        Some(t) => t,
        None => return Err(AiServiceError::InvalidOutput("AI研究报告缺少市场交易逻辑")),
    };
    let bull_bear = match bull_bear {
        Some(b) => b,
        None => return Err(AiServiceError::InvalidOutput("AI研究报告缺少多空博弈分析")),
    };
    let score = match score {
        Some(s) => s,
        None => return Err(AiServiceError::InvalidOutput("AI研究报告缺少研究评分")),
    };
    if drivers.len() == 0 || risks.len() == 0 {
        return Err(AiServiceError::InvalidOutput("AI研究报告缺少核心驱动或风险因素"));
    }
    match check_drivers(drivers) {
        Ok(()) => {},
        Err(e) => return Err(e),
    }
    match check_logic_text(thesis.summary.as_str()) {
        Ok(()) => {},
        Err(e) => return Err(e),
    }
    match check_logic_text(thesis.facts.as_str()) {
        Ok(()) => {},
        Err(e) => return Err(e),
    }
    match check_logic_text(thesis.expectations.as_str()) {
        Ok(()) => {},
        Err(e) => return Err(e),
    }
    match check_logic_text(thesis.sentiment.as_str()) {
        Ok(()) => {},
        Err(e) => return Err(e),
    }
    match check_logic_text(bull_bear.key_divergence.as_str()) {
        Ok(()) => {},
        Err(e) => return Err(e),
    }
    proof {
        lemma_points_concat(bull_bear.bull@, bull_bear.bear@);
    }
    match check_points(&bull_bear.bull) {
        Ok(()) => {},
        Err(e) => return Err(e),
    }
    match check_points(&bull_bear.bear) {
        Ok(()) => {},
        Err(e) => return Err(e),
    }
    match check_risks(risks) {
        Ok(()) => {},
        Err(e) => return Err(e),
    }
    match check_catalysts(catalysts) {
        Ok(()) => {},
        Err(e) => return Err(e),
    }
    match check_score(score) {
        Ok(()) => {},
        Err(e) => return Err(e),
    }
    reject_trade_language(actions)
}

pub fn validate_v2_report(report: &AiResearchReport) -> (r: Result<(), AiServiceError>)
    ensures
        checked(r, v2_check(*report)),
{
    validate_v2_parts(
        &report.core_drivers,
        &report.market_thesis,
        &report.bull_bear_analysis,
        &report.future_catalysts,
        &report.risk_factors,
        &report.research_score,
        report.actions.as_str(),
    )
}

fn check_report_entry(s: &str) -> (r: Result<(), AiServiceError>)
    ensures
        checked(r, entry_check(s@, "AI投研报告包含空内容"@)),
{
    if is_blank(s) {
        return Err(AiServiceError::InvalidOutput("AI投研报告包含空内容"));
    }
    if contains_prohibited_language(s) {
        return Err(AiServiceError::InvalidOutput("AI输出包含禁止的投资建议或预测"));
    }
    Ok(())
}

/// The report checks on the report's parts.
pub(crate) fn validate_report_parts(
    stock_status: &str,
    market_analysis: &str,
    sector_analysis: &str,
    news_analysis: &str,
    technical_analysis: &str,
    strategy_reference: &str,
    conclusion: &str,
    actions: &str,
    drivers: &Vec<ResearchDriver>,
    thesis: &Option<MarketThesis>,
    bull_bear: &Option<BullBearAnalysis>,
    catalysts: &Vec<FutureCatalyst>,
    risks: &Vec<RiskFactor>,
    score: &Option<ResearchScore>,
) -> (r: Result<(), AiServiceError>)
    ensures
        checked(
            r,
            report_parts_check(
                seq![
                    stock_status@,
                    market_analysis@,
                    sector_analysis@,
                    news_analysis@,
                    technical_analysis@,
                    strategy_reference@,
                    conclusion@,
                ],
                actions@,
                drivers@,
                *thesis,
                *bull_bear,
                catalysts@,
                risks@,
                *score,
            ),
        ),
{
    let ghost sections = seq![
        stock_status@,
        market_analysis@,
        sector_analysis@,
        news_analysis@,
        technical_analysis@,
        strategy_reference@,
        conclusion@,
    ];
    proof {
        assert(sections.drop_last().drop_last().drop_last().drop_last().drop_last().drop_last()
            =~= seq![stock_status@]);
        assert(seq![stock_status@].drop_last() =~= Seq::<Seq<char>>::empty());
        reveal_with_fuel(entries_check, 8);
    }
    match check_report_entry(stock_status) {
        Ok(()) => {},
        Err(e) => return Err(e),
    }
    match check_report_entry(market_analysis) {
        Ok(()) => {},
        Err(e) => return Err(e),
    }
    match check_report_entry(sector_analysis) {
        Ok(()) => {},
        Err(e) => return Err(e),
    }
    match check_report_entry(news_analysis) {
        Ok(()) => {},
        Err(e) => return Err(e),
    }
    match check_report_entry(technical_analysis) {
        Ok(()) => {},
        Err(e) => return Err(e),
    }
    match check_report_entry(strategy_reference) {
        Ok(()) => {},
        Err(e) => return Err(e),
    }
    match check_report_entry(conclusion) {
        Ok(()) => {},
        Err(e) => return Err(e),
    }
    if !is_blank(actions) && contains_prohibited_language(actions) {
        return Err(AiServiceError::InvalidOutput("AI输出包含禁止的投资建议或预测"));
    }
    if drivers.len() > 0 || thesis.is_some() || bull_bear.is_some() || catalysts.len() > 0
        || risks.len() > 0 || score.is_some() {
        return validate_v2_parts(drivers, thesis, bull_bear, catalysts, risks, score, actions);
    }
    Ok(())
}

/// Every narrative section must be non-empty and free of prohibited language; a present actions
/// text must be free of it too; a structured report must pass the structured checks.
pub fn validate_report(report: &AiResearchReport) -> (r: Result<(), AiServiceError>)
    ensures
        checked(r, report_check(*report)),
{
    validate_report_parts(
        report.stock_status.as_str(),
        report.market_analysis.as_str(),
        report.sector_analysis.as_str(),
        report.news_analysis.as_str(),
        report.technical_analysis.as_str(),
        report.strategy_reference.as_str(),
        report.conclusion.as_str(),
        report.actions.as_str(),
        &report.core_drivers,
        &report.market_thesis,
        &report.bull_bear_analysis,
        &report.future_catalysts,
        &report.risk_factors,
        &report.research_score,
    )
}

// ---------------------------------------------------------------------------------------------
// Evidence binding
// ---------------------------------------------------------------------------------------------
/// `id` is one of the text entries of the evidence catalogue.
pub open spec fn allowed_id(catalogue: Seq<JsonValue>, id: Seq<char>) -> bool {
    exists|j: int| 0 <= j < catalogue.len() && #[trigger] catalogue[j].as_str_spec() == Some(id)
}

/// A list of cited ids is non-empty and every id is in the catalogue.
pub open spec fn cites(ids: Seq<String>, catalogue: Seq<JsonValue>) -> bool {
    ids.len() > 0 && forall|k: int| 0 <= k < ids.len() ==> allowed_id(catalogue, #[trigger] ids[k]@)
}

/// Every structured conclusion cites the catalogue.
pub open spec fn report_cites(r: AiResearchReport, catalogue: Seq<JsonValue>) -> bool {
    &&& forall|i: int| 0 <= i < r.core_drivers@.len() ==> cites(
        #[trigger] r.core_drivers@[i].evidence_ids@,
        catalogue,
    )
    &&& r.market_thesis matches Some(t) ==> cites(t.evidence_ids@, catalogue)
    &&& r.bull_bear_analysis matches Some(b) ==> {
        &&& cites(b.evidence_ids@, catalogue)
        &&& forall|i: int| 0 <= i < b.bull@.len() ==> cites(
            #[trigger] b.bull@[i].evidence_ids@,
            catalogue,
        )
        &&& forall|i: int| 0 <= i < b.bear@.len() ==> cites(
            #[trigger] b.bear@[i].evidence_ids@,
            catalogue,
        )
    }
    &&& forall|i: int| 0 <= i < r.future_catalysts@.len() ==> cites(
        #[trigger] r.future_catalysts@[i].evidence_ids@,
        catalogue,
    )
    &&& forall|i: int| 0 <= i < r.risk_factors@.len() ==> cites(
        #[trigger] r.risk_factors@[i].evidence_ids@,
        catalogue,
    )
}

/// The evidence rule: a structured report needs the context's `allowedEvidenceIds` array, and
/// every structured conclusion must cite ids from it.
pub open spec fn evidence_check(r: AiResearchReport, context: JsonValue) -> Option<Seq<char>> {
    if !is_v2_spec(r) {
        None
    } else {
        match context.get_spec("allowedEvidenceIds"@) {
            Some(JsonValue::Array(catalogue)) => if report_cites(r, catalogue@) {
                None
            } else {
                Some("AI研究结论未引用当前 Evidence Context"@)
            },
            _ => Some("研究上下文缺少证据目录"@),
        }
    }
}

fn is_allowed(catalogue: &Vec<JsonValue>, id: &str) -> (r: bool)
    ensures
        r == allowed_id(catalogue@, id@),
{
    let mut j: usize = 0;
    while j < catalogue.len()
        invariant
            0 <= j <= catalogue.len(),
            forall|k: int| 0 <= k < j ==> #[trigger] catalogue@[k].as_str_spec() != Some(id@),
        decreases catalogue.len() - j,
    {
        match catalogue[j].as_str() {
            Some(s) => if str_eq(s, id) {
                return true;
            },
            None => {},
        }
        j = j + 1;
    }
    false
}

fn cites_all(ids: &Vec<String>, catalogue: &Vec<JsonValue>) -> (r: bool)
    ensures
        r == cites(ids@, catalogue@),
{
    if ids.len() == 0 {
        return false;
    }
    let mut k: usize = 0;
    while k < ids.len()
        invariant
            0 <= k <= ids.len(),
            forall|m: int| 0 <= m < k ==> allowed_id(catalogue@, #[trigger] ids@[m]@),
        decreases ids.len() - k,
    {
        if !is_allowed(catalogue, ids[k].as_str()) {
            return false;
        }
        k = k + 1;
    }
    true
}

fn drivers_cite(ds: &Vec<ResearchDriver>, catalogue: &Vec<JsonValue>) -> (r: bool)
    ensures
        r == forall|i: int| 0 <= i < ds@.len() ==> cites(#[trigger] ds@[i].evidence_ids@, catalogue@),
{
    let mut i: usize = 0;
    while i < ds.len()
        invariant
            0 <= i <= ds.len(),
            forall|m: int| 0 <= m < i ==> cites(#[trigger] ds@[m].evidence_ids@, catalogue@),
        decreases ds.len() - i,
    {
        if !cites_all(&ds[i].evidence_ids, catalogue) {
            return false;
        }
        i = i + 1;
    }
    true
}

fn points_cite(ps: &Vec<BullBearPoint>, catalogue: &Vec<JsonValue>) -> (r: bool)
    ensures
        r == forall|i: int| 0 <= i < ps@.len() ==> cites(#[trigger] ps@[i].evidence_ids@, catalogue@),
{
    let mut i: usize = 0;
    while i < ps.len()
        invariant
            0 <= i <= ps.len(),
            forall|m: int| 0 <= m < i ==> cites(#[trigger] ps@[m].evidence_ids@, catalogue@),
        decreases ps.len() - i,
    {
        if !cites_all(&ps[i].evidence_ids, catalogue) {
            return false;
        }
        i = i + 1;
    }
    true
}

fn catalysts_cite(cs: &Vec<FutureCatalyst>, catalogue: &Vec<JsonValue>) -> (r: bool)
    ensures
        r == forall|i: int| 0 <= i < cs@.len() ==> cites(#[trigger] cs@[i].evidence_ids@, catalogue@),
{
    let mut i: usize = 0;
    while i < cs.len()
        invariant
            0 <= i <= cs.len(),
            forall|m: int| 0 <= m < i ==> cites(#[trigger] cs@[m].evidence_ids@, catalogue@),
        decreases cs.len() - i,
    {
        if !cites_all(&cs[i].evidence_ids, catalogue) {
            return false;
        }
        i = i + 1;
    }
    true
}

fn risks_cite(rs: &Vec<RiskFactor>, catalogue: &Vec<JsonValue>) -> (r: bool)
    ensures
        r == forall|i: int| 0 <= i < rs@.len() ==> cites(#[trigger] rs@[i].evidence_ids@, catalogue@),
{
    let mut i: usize = 0;
    while i < rs.len()
        invariant
            0 <= i <= rs.len(),
            forall|m: int| 0 <= m < i ==> cites(#[trigger] rs@[m].evidence_ids@, catalogue@),
        decreases rs.len() - i,
    {
        if !cites_all(&rs[i].evidence_ids, catalogue) {
            return false;
        }
        i = i + 1;
    }
    true
}

/// A structured report must cite the evidence catalogue of the context it was generated from.
pub fn validate_report_against_evidence(report: &AiResearchReport, research_context: &JsonValue) -> (r:
    Result<(), AiServiceError>)
    ensures
        checked(r, evidence_check(*report, *research_context)),
{
    if !report.is_v2() {
        return Ok(());
    }
    let catalogue = match research_context.get("allowedEvidenceIds") {
        Some(v) => match v.as_array() {
            Some(items) => items,
            None => return Err(AiServiceError::InvalidOutput("研究上下文缺少证据目录")),
        },
        None => return Err(AiServiceError::InvalidOutput("研究上下文缺少证据目录")),
    };
    let thesis_ok = match &report.market_thesis {
        Some(t) => cites_all(&t.evidence_ids, catalogue),
        None => true,
    };
    let bull_bear_ok = match &report.bull_bear_analysis {
        Some(b) => cites_all(&b.evidence_ids, catalogue) && points_cite(&b.bull, catalogue)
            && points_cite(&b.bear, catalogue),
        None => true,
    };
    if drivers_cite(&report.core_drivers, catalogue) && thesis_ok && bull_bear_ok && catalysts_cite(
        &report.future_catalysts,
        catalogue,
    ) && risks_cite(&report.risk_factors, catalogue) {
        Ok(())
    } else {
        Err(AiServiceError::InvalidOutput("AI研究结论未引用当前 Evidence Context"))
    }
}

} // verus!
