//! Reading provider answers and building the evidence catalogue a report may cite.
//!
//! An answer that already has the full section shape is kept as it is when it passes the
//! checks. Otherwise only explicitly named fields are mapped; anything missing becomes
//! `暂无数据`, never invented content.
use vstd::prelude::*;

use crate::ai::{check_sections_report, sections_report_check};
use crate::ai_report::{
    blank, invalid_output, sections_check, validate_sections, views, AiReviewSections,
    AiServiceError,
};
use crate::events::EventView;
use crate::json::{json_parse, lookup, JsonValue};
use crate::news::NewsArticleView;
use crate::text::{
    concat2, i64_text, int_text, is_blank, join_spec, join_strings, lemma_lex_asymmetric,
    lemma_lex_total, lemma_lex_transitive, lex_less, lex_lt, chars_of, str_eq, trim, trim_str,
};

verus! {

// ---------------------------------------------------------------------------------------------
// Texts of a value
// ---------------------------------------------------------------------------------------------
/// The non-blank strings of a value, trimmed: a string itself, the strings of an array (nested
/// arrays included, in order), nothing for anything else.
pub open spec fn texts_spec(v: JsonValue) -> Seq<Seq<char>>
    decreases v,
{
    match v {
        JsonValue::Str(s) => if blank(s@) {
            Seq::empty()
        } else {
            seq![trim(s@)]
        },
        JsonValue::Array(items) => texts_list(items@),
        _ => Seq::empty(),
    }
}

pub open spec fn texts_list(items: Seq<JsonValue>) -> Seq<Seq<char>>
    decreases items,
{
    if items.len() == 0 {
        Seq::empty()
    } else {
        texts_list(items.drop_last()) + texts_spec(items.last())
    }
}

fn collect_texts(v: &JsonValue, out: &mut Vec<String>)
    ensures
        views(final(out)@) == views(old(out)@) + texts_spec(*v),
    decreases v,
{
    match v {
        JsonValue::Str(s) => {
            if !is_blank(s.as_str()) {
                let ghost before = out@;
                out.push(trim_str(s.as_str()));
                proof {
                    assert(views(out@) =~= views(before) + seq![trim(s@)]);
                }
            } else {
                proof {
                    assert(views(out@) =~= views(out@) + Seq::<Seq<char>>::empty());
                }
            }
        },
        JsonValue::Array(items) => {
            let ghost start = out@;
            let mut i: usize = 0;
            proof {
                assert(views(start) + texts_list(items@.take(0)) =~= views(start));
            }
            while i < items.len()
                invariant
                    0 <= i <= items.len(),
                    *v == JsonValue::Array(*items),
                    views(out@) == views(start) + texts_list(items@.take(i as int)),
                decreases items.len() - i,
            {
                proof {
                    assert(items@.take(i as int + 1).drop_last() =~= items@.take(i as int));
                    assert(items@.take(i as int + 1).last() == items@[i as int]);
                    assert(*v == JsonValue::Array(*items));
                    assert(decreases_to!(*v => v->Array_0));
                    assert(decreases_to!(v->Array_0 => v->Array_0@));
                    assert(decreases_to!(v->Array_0@ => items@[i as int]));
                }
                collect_texts(&items[i], out);
                proof {
                    assert(views(start) + texts_list(items@.take(i as int + 1)) =~= views(start)
                        + texts_list(items@.take(i as int)) + texts_spec(items@[i as int]));
                }
                i = i + 1;
            }
            proof {
                assert(items@.take(items@.len() as int) =~= items@);
            }
        },
        _ => {
            proof {
                assert(views(out@) =~= views(out@) + Seq::<Seq<char>>::empty());
            }
        },
    }
}

/// The texts of the named members, in the order of the names.
pub open spec fn keys_texts(entries: Seq<(String, JsonValue)>, keys: Seq<Seq<char>>) -> Seq<
    Seq<char>,
>
    decreases keys.len(),
{
    if keys.len() == 0 {
        Seq::empty()
    } else {
        keys_texts(entries, keys.drop_last()) + match lookup(entries, keys.last()) {
            Some(v) => texts_spec(v),
            None => Seq::empty(),
        }
    }
}

pub open spec fn str_views(keys: Seq<&str>) -> Seq<Seq<char>> {
    keys.map_values(|k: &str| k@)
}

fn lookup_entry<'a>(entries: &'a Vec<(String, JsonValue)>, key: &str) -> (r: Option<&'a JsonValue>)
    ensures
        match r {
            Some(v) => lookup(entries@, key@) == Some(*v),
            None => lookup(entries@, key@) is None,
        },
{
    let mut i: usize = 0;
    proof {
        assert(entries@.skip(0) =~= entries@);
    }
    while i < entries.len()
        invariant
            0 <= i <= entries.len(),
            lookup(entries@, key@) == lookup(entries@.skip(i as int), key@),
        decreases entries.len() - i,
    {
        if str_eq(entries[i].0.as_str(), key) {
            proof {
                let rest = entries@.skip(i as int);
                assert(rest[0] == entries@[i as int]);
            }
            return Some(&entries[i].1);
        }
        proof {
            assert(entries@.skip(i as int).drop_first() =~= entries@.skip(i + 1));
        }
        i = i + 1;
    }
    None
}

fn texts_for(entries: &Vec<(String, JsonValue)>, keys: &[&str]) -> (r: Vec<String>)
    ensures
        views(r@) == keys_texts(entries@, str_views(keys@)),
{
    let mut out: Vec<String> = Vec::new();
    let mut i: usize = 0;
    while i < keys.len()
        invariant
            0 <= i <= keys@.len(),
            views(out@) == keys_texts(entries@, str_views(keys@.take(i as int))),
        decreases keys@.len() - i,
    {
        proof {
            assert(str_views(keys@.take(i as int + 1)).drop_last() =~= str_views(
                keys@.take(i as int),
            ));
            assert(str_views(keys@.take(i as int + 1)).last() == keys@[i as int]@);
        }
        match lookup_entry(entries, keys[i]) {
            Some(v) => collect_texts(v, &mut out),
            None => {
                proof {
                    assert(views(out@) =~= views(out@) + Seq::<Seq<char>>::empty());
                }
            },
        }
        i = i + 1;
    }
    proof {
        assert(keys@.take(keys@.len() as int) =~= keys@);
    }
    out
}

// ---------------------------------------------------------------------------------------------
// The normalizer
// ---------------------------------------------------------------------------------------------
pub open spec fn facts_keys() -> Seq<Seq<char>> {
    seq![
        "facts"@,
        "当前个股情况"@,
        "stock_status"@,
        "current_stock_status"@,
        "市场环境分析"@,
        "market_analysis"@,
        "消息面分析"@,
        "news_analysis"@,
        "analysis"@,
        "分析"@,
    ]
}

pub open spec fn inference_keys() -> Seq<Seq<char>> {
    seq!["inferences"@, "技术面分析"@, "technical_analysis"@, "analysis"@, "分析"@]
}

pub open spec fn risk_keys() -> Seq<Seq<char>> {
    seq!["risks"@, "风险提示"@, "风险因素"@, "risk_factors"@, "risk_analysis"@]
}

pub open spec fn no_data() -> Seq<char> {
    "暂无数据"@
}

pub open spec fn no_advice() -> Seq<char> {
    "本报告不提供交易建议，建议持续观察的证据条件：暂无数据。"@
}

pub open spec fn or_no_data(texts: Seq<Seq<char>>) -> Seq<Seq<char>> {
    if texts.len() == 0 {
        seq![no_data()]
    } else {
        texts
    }
}

/// The first text of the named members, if any.
pub open spec fn first_text(entries: Seq<(String, JsonValue)>, keys: Seq<Seq<char>>) -> Option<
    Seq<char>,
> {
    let t = keys_texts(entries, keys);
    if t.len() > 0 {
        Some(t[0])
    } else {
        None
    }
}

pub open spec fn first_or(entries: Seq<(String, JsonValue)>, keys: Seq<Seq<char>>, default: Seq<char>) -> Seq<
    char,
> {
    match first_text(entries, keys) {
        Some(t) => t,
        None => default,
    }
}

pub open spec fn text_is(s: Option<String>, t: Seq<char>) -> bool {
    s matches Some(x) && x@ == t
}

/// The sections mapped from an object answer's members.
pub open spec fn normalized_from(s: AiReviewSections, entries: Seq<(String, JsonValue)>) -> bool {
    let facts = keys_texts(entries, facts_keys());
    &&& views(s.facts@) == facts
    &&& views(s.inferences@) == or_no_data(keys_texts(entries, inference_keys()))
    &&& views(s.risks@) == or_no_data(keys_texts(entries, risk_keys()))
    &&& text_is(
        s.stock_status,
        first_or(
            entries,
            seq!["当前个股情况"@, "stock_status"@, "current_stock_status"@],
            join_spec(facts, "；"@),
        ),
    )
    &&& text_is(s.market_analysis, first_or(entries, seq!["市场环境分析"@, "market_analysis"@], no_data()))
    &&& text_is(s.sector_analysis, first_or(entries, seq!["所属板块分析"@, "sector_analysis"@], no_data()))
    &&& text_is(s.news_analysis, first_or(entries, seq!["消息面分析"@, "news_analysis"@], no_data()))
    &&& text_is(
        s.technical_analysis,
        first_or(entries, seq!["技术面分析"@, "technical_analysis"@], no_data()),
    )
    &&& text_is(
        s.strategy_reference,
        first_or(entries, seq!["策略参考"@, "strategy_reference"@, "strategy"@], no_advice()),
    )
    &&& text_is(
        s.conclusion,
        match first_text(entries, seq!["结论"@, "conclusion"@, "summary"@, "总结"@]) {
            Some(t) => t,
            None => first_or(entries, seq!["analysis"@, "分析"@], no_data()),
        },
    )
    &&& text_is(s.actions, no_advice())
    &&& s.core_drivers is None
    &&& s.market_thesis is None
    &&& s.bull_bear_analysis is None
    &&& s.future_catalysts is None
    &&& s.risk_factors is None
    &&& s.research_score is None
}

/// A payload the normalizer can map: an object with at least one fact.
pub open spec fn mappable(payload: JsonValue) -> bool {
    payload matches JsonValue::Object(entries) && keys_texts(entries@, facts_keys()).len() > 0
}

pub open spec fn parse_failed() -> Seq<char> {
    "AI_REVIEW_PARSE_FAILED"@
}

fn first_of(entries: &Vec<(String, JsonValue)>, keys: &[&str]) -> (r: Option<String>)
    ensures
        match r {
            Some(t) => first_text(entries@, str_views(keys@)) == Some(t@),
            None => first_text(entries@, str_views(keys@)) is None,
        },
{
    let t = texts_for(entries, keys);
    if t.len() > 0 {
        proof {
            assert(views(t@)[0] == t@[0]@);
        }
        Some(t[0].clone())
    } else {
        None
    }
}

fn or_default(t: Option<String>, default: &str) -> (r: String)
    ensures
        r@ == match t {
            Some(x) => x@,
            None => default@,
        },
{
    match t {
        Some(x) => x,
        None => String::from_str(default),
    }
}

fn nonempty_or_no_data(values: Vec<String>) -> (r: Vec<String>)
    ensures
        views(r@) == or_no_data(views(values@)),
{
    if values.len() == 0 {
        let mut v: Vec<String> = Vec::new();
        v.push(String::from_str("暂无数据"));
        proof {
            assert(views(v@) =~= seq![no_data()]);
        }
        v
    } else {
        values
    }
}

/// Maps an answer's explicit fields onto the sections. A payload that is not an object, or
/// that names no fact, cannot be mapped.
pub fn normalize_ai_response(payload: &JsonValue) -> (r: Result<AiReviewSections, AiServiceError>)
    ensures
        match r {
            Ok(s) => mappable(*payload) && normalized_from(s, payload->Object_0@),
            Err(e) => !mappable(*payload) && invalid_output(e, parse_failed()),
        },
{
    let entries = match payload {
        JsonValue::Object(entries) => entries,
        _ => return Err(AiServiceError::InvalidOutput("AI_REVIEW_PARSE_FAILED")),
    };
    let facts_keys_list = [
        "facts",
        "当前个股情况",
        "stock_status",
        "current_stock_status",
        "市场环境分析",
        "market_analysis",
        "消息面分析",
        "news_analysis",
        "analysis",
        "分析",
    ];
    proof {
        assert(str_views(facts_keys_list@) =~= facts_keys());
    }
    let facts = texts_for(entries, &facts_keys_list);
    if facts.len() == 0 {
        return Err(AiServiceError::InvalidOutput("AI_REVIEW_PARSE_FAILED"));
    }
    let inference_list = ["inferences", "技术面分析", "technical_analysis", "analysis", "分析"];
    let risk_list = ["risks", "风险提示", "风险因素", "risk_factors", "risk_analysis"];
    let stock_list = ["当前个股情况", "stock_status", "current_stock_status"];
    let market_list = ["市场环境分析", "market_analysis"];
    let sector_list = ["所属板块分析", "sector_analysis"];
    let news_list = ["消息面分析", "news_analysis"];
    let technical_list = ["技术面分析", "technical_analysis"];
    let strategy_list = ["策略参考", "strategy_reference", "strategy"];
    let conclusion_list = ["结论", "conclusion", "summary", "总结"];
    let analysis_list = ["analysis", "分析"];
    proof {
        assert(str_views(inference_list@) =~= inference_keys());
        assert(str_views(risk_list@) =~= risk_keys());
        assert(str_views(stock_list@) =~= seq!["当前个股情况"@, "stock_status"@, "current_stock_status"@]);
        assert(str_views(market_list@) =~= seq!["市场环境分析"@, "market_analysis"@]);
        assert(str_views(sector_list@) =~= seq!["所属板块分析"@, "sector_analysis"@]);
        assert(str_views(news_list@) =~= seq!["消息面分析"@, "news_analysis"@]);
        assert(str_views(technical_list@) =~= seq!["技术面分析"@, "technical_analysis"@]);
        assert(str_views(strategy_list@) =~= seq!["策略参考"@, "strategy_reference"@, "strategy"@]);
        assert(str_views(conclusion_list@) =~= seq!["结论"@, "conclusion"@, "summary"@, "总结"@]);
        assert(str_views(analysis_list@) =~= seq!["analysis"@, "分析"@]);
    }
    let inferences = nonempty_or_no_data(texts_for(entries, &inference_list));
    let risks = nonempty_or_no_data(texts_for(entries, &risk_list));
    let stock_status = match first_of(entries, &stock_list) {
        Some(t) => t,
        None => join_strings(&facts, "；"),
    };
    proof {
        assert(facts@.map_values(|x: String| x@) == views(facts@));
    }
    let market_analysis = or_default(first_of(entries, &market_list), "暂无数据");
    let sector_analysis = or_default(first_of(entries, &sector_list), "暂无数据");
    let news_analysis = or_default(first_of(entries, &news_list), "暂无数据");
    let technical_analysis = or_default(first_of(entries, &technical_list), "暂无数据");
    let strategy_reference = or_default(
        first_of(entries, &strategy_list),
        "本报告不提供交易建议，建议持续观察的证据条件：暂无数据。",
    );
    let conclusion = match first_of(entries, &conclusion_list) {
        Some(t) => t,
        None => or_default(first_of(entries, &analysis_list), "暂无数据"),
    };
    Ok(
        AiReviewSections {
            facts,
            inferences,
            risks,
            stock_status: Some(stock_status),
            market_analysis: Some(market_analysis),
            sector_analysis: Some(sector_analysis),
            news_analysis: Some(news_analysis),
            technical_analysis: Some(technical_analysis),
            strategy_reference: Some(strategy_reference),
            conclusion: Some(conclusion),
            actions: Some(String::from_str("本报告不提供交易建议，建议持续观察的证据条件：暂无数据。")),
            core_drivers: None,
            market_thesis: None,
            bull_bear_analysis: None,
            future_catalysts: None,
            risk_factors: None,
            research_score: None,
        },
    )
}

/// The sections pass every check that precedes persistence.
pub open spec fn sections_acceptable(s: AiReviewSections) -> bool {
    sections_check(s) is None && sections_report_check(s) is None
}

/// Reads a provider's content text. `typed` is the text read into the full section shape, when
/// it has that shape; it is kept unchanged when it passes the checks. Otherwise the explicit
/// fields are mapped, and the mapped sections must pass the same checks.
pub fn parse_and_normalize_provider_sections(value: &str, typed: Option<AiReviewSections>) -> (r:
    Result<AiReviewSections, AiServiceError>)
    ensures
        json_parse(value@) is None ==> (r matches Err(e) && invalid_output(e, parse_failed())),
        (json_parse(value@) is Some && typed is Some && sections_acceptable(typed->Some_0)) ==> (
        r matches Ok(s) && s == typed->Some_0),
        r matches Ok(s) ==> sections_acceptable(s) && (typed == Some(s) || (json_parse(value@) is Some
            && mappable(json_parse(value@)->Some_0) && normalized_from(
            s,
            json_parse(value@)->Some_0->Object_0@,
        ))),
        (json_parse(value@) is Some && !mappable(json_parse(value@)->Some_0) && !(typed is Some
            && sections_acceptable(typed->Some_0))) ==> (r matches Err(e) && invalid_output(
            e,
            parse_failed(),
        )),
{
    let payload = match JsonValue::parse(value) {
        Some(p) => p,
        None => return Err(AiServiceError::InvalidOutput("AI_REVIEW_PARSE_FAILED")),
    };
    match typed {
        Some(sections) => {
            let ok = match validate_sections(&sections) {
                Ok(()) => match check_sections_report(&sections) {
                    Ok(()) => true,
                    Err(_) => false,
                },
                Err(_) => false,
            };
            if ok {
                return Ok(sections);
            }
        },
        None => {},
    }
    let sections = match normalize_ai_response(&payload) {
        Ok(s) => s,
        Err(e) => return Err(e),
    };
    match validate_sections(&sections) {
        Ok(()) => {},
        Err(e) => return Err(e),
    }
    match check_sections_report(&sections) {
        Ok(()) => {},
        Err(e) => return Err(e),
    }
    Ok(sections)
}

// ---------------------------------------------------------------------------------------------
// The evidence catalogue
// ---------------------------------------------------------------------------------------------
/// `{prefix}:{id}` for each item of the array that has an integer `id`, in order.
pub open spec fn prefixed_ids(items: Seq<JsonValue>, prefix: Seq<char>) -> Seq<Seq<char>>
    decreases items.len(),
{
    if items.len() == 0 {
        Seq::empty()
    } else {
        prefixed_ids(items.drop_last(), prefix) + match items.last().get_spec("id"@) {
            Some(v) => match v.as_i64_spec() {
                Some(id) => seq![prefix + ":"@ + int_text(id as int)],
                None => Seq::empty(),
            },
            None => Seq::empty(),
        }
    }
}

/// The ids of the array under `key`, none when there is no such array.
pub open spec fn ids_under(value: JsonValue, key: Seq<char>, prefix: Seq<char>) -> Seq<Seq<char>> {
    match value.get_spec(key) {
        Some(JsonValue::Array(items)) => prefixed_ids(items@, prefix),
        _ => Seq::empty(),
    }
}

fn push_ids_under(value: &JsonValue, key: &str, prefix: &str, out: &mut Vec<String>)
    ensures
        views(final(out)@) == views(old(out)@) + ids_under(*value, key@, prefix@),
{
    let items = match value.get(key) {
        Some(v) => match v.as_array() {
            Some(items) => items,
            None => {
                proof {
                    assert(views(out@) =~= views(out@) + Seq::<Seq<char>>::empty());
                }
                return;
            },
        },
        None => {
            proof {
                assert(views(out@) =~= views(out@) + Seq::<Seq<char>>::empty());
            }
            return;
        },
    };
    let ghost start = out@;
    let mut i: usize = 0;
    proof {
        assert(views(start) + prefixed_ids(items@.take(0), prefix@) =~= views(start));
    }
    while i < items.len()
        invariant
            0 <= i <= items.len(),
            views(out@) == views(start) + prefixed_ids(items@.take(i as int), prefix@),
        decreases items.len() - i,
    {
        proof {
            assert(items@.take(i as int + 1).drop_last() =~= items@.take(i as int));
            assert(items@.take(i as int + 1).last() == items@[i as int]);
        }
        let ghost before = out@;
        match items[i].get("id") {
            Some(v) => match v.as_i64() {
                Some(id) => {
                    let mut text = concat2(prefix, ":");
                    let digits = i64_text(id);
                    text.append(digits.as_str());
                    out.push(text);
                    proof {
                        assert(views(out@) =~= views(before) + seq![prefix@ + ":"@ + int_text(id as int)]);
                    }
                },
                None => {
                    proof {
                        assert(views(out@) =~= views(before) + Seq::<Seq<char>>::empty());
                    }
                },
            },
            None => {
                proof {
                    assert(views(out@) =~= views(before) + Seq::<Seq<char>>::empty());
                }
            },
        }
        proof {
            assert(views(start) + prefixed_ids(items@.take(i as int + 1), prefix@) =~= views(start)
                + prefixed_ids(items@.take(i as int), prefix@) + (prefixed_ids(
                items@.take(i as int + 1),
                prefix@,
            ).skip(prefixed_ids(items@.take(i as int), prefix@).len() as int)));
        }
        i = i + 1;
    }
    proof {
        assert(items@.take(items@.len() as int) =~= items@);
    }
}

/// `{prefix}:{id}` for the items of `value.items`.
pub fn ids_from_items(value: &JsonValue, prefix: &str) -> (r: Vec<String>)
    ensures
        views(r@) == ids_under(*value, "items"@, prefix@),
{
    let mut out: Vec<String> = Vec::new();
    push_ids_under(value, "items", prefix, &mut out);
    proof {
        assert(views(out@) =~= ids_under(*value, "items"@, prefix@));
    }
    out
}

/// `INTELLIGENCE:{id}` for the items under `key`.
pub fn ids_from_intelligence(value: &JsonValue, key: &str) -> (r: Vec<String>)
    ensures
        views(r@) == ids_under(*value, key@, "INTELLIGENCE"@),
{
    let mut out: Vec<String> = Vec::new();
    push_ids_under(value, key, "INTELLIGENCE", &mut out);
    proof {
        assert(views(out@) =~= ids_under(*value, key@, "INTELLIGENCE"@));
    }
    out
}

pub open spec fn non_empty_array(v: Option<JsonValue>) -> bool {
    v matches Some(JsonValue::Array(items)) && items@.len() > 0
}

/// Every id the evidence catalogue admits, before ordering.
pub open spec fn candidate_ids(
    market: JsonValue,
    news: JsonValue,
    events: JsonValue,
    intelligence: JsonValue,
    profile_verified: bool,
) -> Seq<Seq<char>> {
    seq!["NO_DATA"@] + (if non_empty_array(market.get_spec("holding"@)) || non_empty_array(
        market.get_spec("indices"@),
    ) {
        seq!["MARKET"@]
    } else {
        Seq::empty()
    }) + ids_under(news, "items"@, "NEWS"@) + ids_under(events, "items"@, "EVENT"@) + ids_under(
        intelligence,
        "verifiedIntelligence"@,
        "INTELLIGENCE"@,
    ) + ids_under(intelligence, "rumors"@, "INTELLIGENCE"@) + if profile_verified {
        seq!["PROFILE"@]
    } else {
        Seq::empty()
    }
}

/// Strictly increasing in string order: sorted with duplicates removed.
pub open spec fn sorted_unique(s: Seq<Seq<char>>) -> bool {
    forall|i: int, j: int| 0 <= i < j < s.len() ==> lex_lt(#[trigger] s[i], #[trigger] s[j])
}

pub(crate) fn insert_sorted(out: &mut Vec<String>, x: String)
    requires
        sorted_unique(views(old(out)@)),
    ensures
        sorted_unique(views(final(out)@)),
        forall|y: Seq<char>| views(final(out)@).contains(y) <==> (views(old(out)@).contains(y) || y
            == x@),
{
    let ghost vs = views(out@);
    let mut p: usize = 0;
    let xv = chars_of(x.as_str());
    while p < out.len()
        invariant
            0 <= p <= out@.len(),
            vs == views(out@),
            xv@ == x@,
            forall|k: int| 0 <= k < p ==> lex_lt(#[trigger] vs[k], x@),
        ensures
            0 <= p <= out@.len(),
            vs == views(out@),
            forall|k: int| 0 <= k < p ==> lex_lt(#[trigger] vs[k], x@),
            p < out@.len() ==> !lex_lt(vs[p as int], x@),
        decreases out@.len() - p,
    {
        let cur = chars_of(out[p].as_str());
        if !lex_less(&cur, &xv) {
            break;
        }
        p = p + 1;
    }
    if p < out.len() {
        if str_eq(out[p].as_str(), x.as_str()) {
            proof {
                assert(vs[p as int] == x@);
                assert forall|y: Seq<char>| views(out@).contains(y) <==> (vs.contains(y) || y == x@) by {
                    if y == x@ {
                        assert(vs[p as int] == y);
                    }
                }
            }
            return;
        }
        proof {
            lemma_lex_total(vs[p as int], x@);
        }
    }
    let ghost old_vs = vs;
    out.insert(p, x);
    proof {
        let nv = views(out@);
        assert(nv =~= old_vs.subrange(0, p as int).push(x@) + old_vs.subrange(p as int, old_vs.len() as int));
        assert forall|i: int, j: int| 0 <= i < j < nv.len() implies lex_lt(#[trigger] nv[i], #[trigger] nv[j]) by {
            if j < p {
                assert(nv[i] == old_vs[i] && nv[j] == old_vs[j]);
            } else if j == p {
                assert(nv[i] == old_vs[i]);
            } else if i == p {
                assert(nv[j] == old_vs[j - 1]);
                if j - 1 > p {
                    assert(lex_lt(old_vs[p as int], old_vs[j - 1]));
                    lemma_lex_transitive(x@, old_vs[p as int], old_vs[j - 1]);
                }
            } else if i < p {
                assert(nv[i] == old_vs[i] && nv[j] == old_vs[j - 1]);
                if j - 1 >= p {
                    assert(lex_lt(old_vs[i], x@));
                    if j - 1 == p {
                        lemma_lex_transitive(old_vs[i], x@, old_vs[p as int]);
                    } else {
                        lemma_lex_transitive(old_vs[i], old_vs[p as int], old_vs[j - 1]);
                        assert(lex_lt(old_vs[i], old_vs[j - 1]));
                    }
                }
            } else {
                assert(nv[i] == old_vs[i - 1] && nv[j] == old_vs[j - 1]);
            }
        }
        assert forall|y: Seq<char>| nv.contains(y) <==> (old_vs.contains(y) || y == x@) by {
            if old_vs.contains(y) {
                let k = choose|k: int| 0 <= k < old_vs.len() && #[trigger] old_vs[k] == y;
                if k < p {
                    assert(nv[k] == y);
                } else {
                    assert(nv[k + 1] == y);
                }
            }
            if y == x@ {
                assert(nv[p as int] == y);
            }
            if nv.contains(y) {
                let k = choose|k: int| 0 <= k < nv.len() && #[trigger] nv[k] == y;
                if k < p {
                    assert(old_vs[k] == y);
                } else if k > p {
                    assert(old_vs[k - 1] == y);
                }
            }
        }
    }
}

/// The evidence catalogue: `NO_DATA`, `MARKET` when the market context holds quotes, the news,
/// event and intelligence ids, and `PROFILE` for a verified, sourced profile; sorted, each id
/// once.
pub fn allowed_evidence_ids(
    market: &JsonValue,
    news: &JsonValue,
    events: &JsonValue,
    intelligence: &JsonValue,
    profile_verified: bool,
) -> (r: Vec<String>)
    ensures
        sorted_unique(views(r@)),
        forall|y: Seq<char>| views(r@).contains(y) <==> candidate_ids(
            *market,
            *news,
            *events,
            *intelligence,
            profile_verified,
        ).contains(y),
{
    let mut all: Vec<String> = Vec::new();
    all.push(String::from_str("NO_DATA"));
    let holding = match market.get("holding") {
        Some(v) => match v.as_array() {
            Some(items) => items.len() > 0,
            None => false,
        },
        None => false,
    };
    let indices = match market.get("indices") {
        Some(v) => match v.as_array() {
            Some(items) => items.len() > 0,
            None => false,
        },
        None => false,
    };
    let ghost s0 = views(all@);
    proof {
        assert(s0 =~= seq!["NO_DATA"@]);
    }
    if holding || indices {
        all.push(String::from_str("MARKET"));
    }
    let ghost s1 = views(all@);
    proof {
        if holding || indices {
            assert(s1 =~= s0 + seq!["MARKET"@]);
        } else {
            assert(s1 =~= s0 + Seq::<Seq<char>>::empty());
        }
    }
    push_ids_under(news, "items", "NEWS", &mut all);
    push_ids_under(events, "items", "EVENT", &mut all);
    push_ids_under(intelligence, "verifiedIntelligence", "INTELLIGENCE", &mut all);
    push_ids_under(intelligence, "rumors", "INTELLIGENCE", &mut all);
    let ghost s2 = views(all@);
    if profile_verified {
        all.push(String::from_str("PROFILE"));
    }
    let ghost cands = views(all@);
    proof {
        if profile_verified {
            assert(cands =~= s2 + seq!["PROFILE"@]);
        } else {
            assert(cands =~= s2 + Seq::<Seq<char>>::empty());
        }
        assert(cands =~= candidate_ids(*market, *news, *events, *intelligence, profile_verified));
    }
    let mut out: Vec<String> = Vec::new();
    let mut i: usize = 0;
    while i < all.len()
        invariant
            0 <= i <= all@.len(),
            cands == views(all@),
            sorted_unique(views(out@)),
            forall|y: Seq<char>| views(out@).contains(y) <==> cands.take(i as int).contains(y),
        decreases all@.len() - i,
    {
        let x = all[i].clone();
        proof {
            assert(x@ == cands[i as int]);
        }
        let ghost prev = views(out@);
        insert_sorted(&mut out, x);
        proof {
            assert forall|y: Seq<char>| cands.take(i as int + 1).contains(y) <==> (cands.take(
                i as int,
            ).contains(y) || y == cands[i as int]) by {
                if cands.take(i as int + 1).contains(y) {
                    let k = choose|k: int| 0 <= k < i + 1 && #[trigger] cands.take(i as int + 1)[k] == y;
                    if k < i {
                        assert(cands.take(i as int)[k] == y);
                    }
                }
                if cands.take(i as int).contains(y) {
                    let k = choose|k: int| 0 <= k < i && #[trigger] cands.take(i as int)[k] == y;
                    assert(cands.take(i as int + 1)[k] == y);
                }
                if y == cands[i as int] {
                    assert(cands.take(i as int + 1)[i as int] == y);
                }
            }
            assert forall|y: Seq<char>| views(out@).contains(y) <==> cands.take(i as int + 1).contains(
                y,
            ) by {
                assert(prev.contains(y) <==> cands.take(i as int).contains(y));
                assert(views(out@).contains(y) <==> (prev.contains(y) || y == cands[i as int]));
                assert(cands.take(i as int + 1).contains(y) <==> (cands.take(i as int).contains(y)
                    || y == cands[i as int]));
            }
        }
        i = i + 1;
    }
    proof {
        assert(cands.take(cands.len() as int) =~= cands);
    }
    out
}

// ---------------------------------------------------------------------------------------------
// Bounded evidence lists
// ---------------------------------------------------------------------------------------------
/// The canonical address of an article, or its title and publication time without one.
pub open spec fn news_key(v: NewsArticleView) -> Seq<char> {
    if trim(v.url@).len() == 0 {
        v.title@ + "|"@ + v.published_at@
    } else {
        v.url@
    }
}

/// The source address of an event, or its title and time without one.
pub open spec fn event_key(v: EventView) -> Seq<char> {
    match v.source_url {
        Some(u) => u@,
        None => v.title@ + "|"@ + v.event_time@,
    }
}

/// The items whose key no earlier item has, in order.
pub open spec fn first_by_key<T>(s: Seq<T>, key: spec_fn(T) -> Seq<char>) -> Seq<T>
    decreases s.len(),
{
    if s.len() == 0 {
        Seq::empty()
    } else {
        let k = first_by_key(s.drop_last(), key);
        if exists|j: int| 0 <= j < s.len() - 1 && key(#[trigger] s[j]) == key(s.last()) {
            k
        } else {
            k.push(s.last())
        }
    }
}

/// Keeping the first item of each key leaves every key once, each kept item from the input,
/// and every key of the input kept.
pub proof fn law_first_by_key_keeps_each_key_once<T>(s: Seq<T>, key: spec_fn(T) -> Seq<char>)
    ensures
        forall|i: int, j: int|
            0 <= i < j < first_by_key(s, key).len() ==> key(#[trigger] first_by_key(s, key)[i]) != key(
                #[trigger] first_by_key(s, key)[j],
            ),
        forall|i: int| 0 <= i < first_by_key(s, key).len() ==> s.contains(#[trigger] first_by_key(s, key)[i]),
        forall|i: int|
            0 <= i < s.len() ==> exists|j: int|
                0 <= j < first_by_key(s, key).len() && key(#[trigger] first_by_key(s, key)[j]) == key(
                    #[trigger] s[i],
                ),
    decreases s.len(),
{
    if s.len() > 0 {
        let d = s.drop_last();
        let k = first_by_key(d, key);
        let r = first_by_key(s, key);
        let x = s.last();
        law_first_by_key_keeps_each_key_once(d, key);
        assert forall|i: int| 0 <= i < d.len() implies #[trigger] d[i] == s[i] by {}
        assert forall|i: int| 0 <= i < k.len() implies s.contains(#[trigger] k[i]) by {
            assert(d.contains(k[i]));
            let q = choose|q: int| 0 <= q < d.len() && d[q] == k[i];
            assert(s[q] == k[i]);
        }
        if exists|j: int| 0 <= j < s.len() - 1 && key(#[trigger] s[j]) == key(s.last()) {
            assert(r == k);
            assert forall|i: int| 0 <= i < s.len() implies exists|j: int|
                0 <= j < r.len() && key(#[trigger] r[j]) == key(#[trigger] s[i]) by {
                if i < s.len() - 1 {
                    assert(d[i] == s[i]);
                } else {
                    let j0 = choose|j: int| 0 <= j < s.len() - 1 && key(#[trigger] s[j]) == key(s.last());
                    assert(d[j0] == s[j0]);
                }
            }
        } else {
            assert(r == k.push(x));
            assert forall|i: int| 0 <= i < k.len() implies key(#[trigger] k[i]) != key(x) by {
                let q = choose|q: int| 0 <= q < d.len() && d[q] == k[i];
                assert(s[q] == k[i]);
            }
            assert forall|i: int, j: int| 0 <= i < j < r.len() implies key(#[trigger] r[i]) != key(
                #[trigger] r[j],
            ) by {
                assert(r[i] == k[i]);
                if j < k.len() {
                    assert(r[j] == k[j]);
                }
            }
            assert forall|i: int| 0 <= i < r.len() implies s.contains(#[trigger] r[i]) by {
                if i < k.len() {
                    assert(r[i] == k[i]);
                } else {
                    assert(s[s.len() - 1] == x);
                }
            }
            assert forall|i: int| 0 <= i < s.len() implies exists|j: int|
                0 <= j < r.len() && key(#[trigger] r[j]) == key(#[trigger] s[i]) by {
                if i < s.len() - 1 {
                    assert(d[i] == s[i]);
                    let j0 = choose|j: int| 0 <= j < k.len() && key(#[trigger] k[j]) == key(d[i]);
                    assert(r[j0] == k[j0]);
                } else {
                    assert(r[k.len() as int] == x);
                }
            }
        }
    }
}

/// The news evidence of a list of articles: the first of each key, at most ten.
pub open spec fn news_evidence(items: Seq<NewsArticleView>) -> Seq<NewsArticleView> {
    at_most(first_by_key(items, |v: NewsArticleView| news_key(v)), 10)
}

/// The news evidence holds at most ten articles, no two with one key (the link, or the title
/// and publication time when the link is blank).
pub proof fn law_news_evidence_is_distinct_and_bounded(items: Seq<NewsArticleView>)
    ensures
        news_evidence(items).len() <= 10,
        forall|i: int, j: int|
            0 <= i < j < news_evidence(items).len() ==> news_key(#[trigger] news_evidence(items)[i])
                != news_key(#[trigger] news_evidence(items)[j]),
{
    let key = |v: NewsArticleView| news_key(v);
    let r = first_by_key(items, key);
    law_first_by_key_keeps_each_key_once(items, key);
    let t = news_evidence(items);
    assert forall|i: int, j: int| 0 <= i < j < t.len() implies news_key(#[trigger] t[i]) != news_key(
        #[trigger] t[j],
    ) by {
        assert(t[i] == r[i] && t[j] == r[j]);
        assert(key(r[i]) != key(r[j]));
    }
}

/// At most the first `n` items.
pub open spec fn at_most<T>(s: Seq<T>, n: int) -> Seq<T> {
    if s.len() <= n {
        s
    } else {
        s.take(n)
    }
}

fn news_key_of(v: &NewsArticleView) -> (r: String)
    ensures
        r@ == news_key(*v),
{
    if is_blank(v.url.as_str()) {
        let mut k = concat2(v.title.as_str(), "|");
        k.append(v.published_at.as_str());
        k
    } else {
        v.url.clone()
    }
}

fn event_key_of(v: &EventView) -> (r: String)
    ensures
        r@ == event_key(*v),
{
    match &v.source_url {
        Some(u) => u.clone(),
        None => {
            let mut k = concat2(v.title.as_str(), "|");
            k.append(v.event_time.as_str());
            k
        },
    }
}

fn seen_before(seen: &Vec<String>, key: &str) -> (r: bool)
    ensures
        r == exists|j: int| 0 <= j < seen@.len() && (#[trigger] seen@[j])@ == key@,
{
    let mut j: usize = 0;
    while j < seen.len()
        invariant
            0 <= j <= seen.len(),
            forall|m: int| 0 <= m < j ==> (#[trigger] seen@[m])@ != key@,
        decreases seen.len() - j,
    {
        if str_eq(seen[j].as_str(), key) {
            return true;
        }
        j = j + 1;
    }
    false
}

/// News evidence without copies of one article, at most ten.
pub fn deduplicate_news(items: Vec<NewsArticleView>) -> (r: Vec<NewsArticleView>)
    ensures
        r@ == news_evidence(items@),
{
    let ghost key = |v: NewsArticleView| news_key(v);
    let mut seen: Vec<String> = Vec::new();
    let mut out: Vec<NewsArticleView> = Vec::new();
    let mut i: usize = 0;
    while i < items.len()
        invariant
            0 <= i <= items@.len(),
            key == |v: NewsArticleView| news_key(v),
            seen@.len() == i,
            forall|m: int| 0 <= m < i ==> (#[trigger] seen@[m])@ == news_key(items@[m]),
            out@ == at_most(first_by_key(items@.take(i as int), key), 10),
        decreases items@.len() - i,
    {
        let k = news_key_of(&items[i]);
        let dup = seen_before(&seen, k.as_str());
        proof {
            let t = items@.take(i as int + 1);
            assert(t.drop_last() =~= items@.take(i as int));
            assert(t.last() == items@[i as int]);
            if dup {
                let j = choose|j: int| 0 <= j < seen@.len() && (#[trigger] seen@[j])@ == k@;
                assert(t[j] == items@[j]);
                assert(key(t[j]) == key(t.last()));
            } else {
                assert forall|j: int| 0 <= j < t.len() - 1 implies key(#[trigger] t[j]) != key(
                    t.last(),
                ) by {
                    assert(t[j] == items@[j]);
                    assert(seen@[j]@ == news_key(items@[j]));
                }
            }
        }
        if !dup && out.len() < 10 {
            out.push(items[i].clone());
        }
        proof {
            let f = first_by_key(items@.take(i as int), key);
            if !dup && f.len() >= 10 {
                assert(at_most(f.push(items@[i as int]), 10) =~= at_most(f, 10));
            }
            if !dup && f.len() < 10 {
                assert(at_most(f.push(items@[i as int]), 10) =~= f.push(items@[i as int]));
            }
        }
        seen.push(k);
        i = i + 1;
    }
    proof {
        assert(items@.take(items@.len() as int) =~= items@);
    }
    out
}

/// Event evidence without copies of one event, at most ten.
pub fn deduplicate_events(items: Vec<EventView>) -> (r: Vec<EventView>)
    ensures
        r@ == at_most(first_by_key(items@, |v: EventView| event_key(v)), 10),
{
    let ghost key = |v: EventView| event_key(v);
    let mut seen: Vec<String> = Vec::new();
    let mut out: Vec<EventView> = Vec::new();
    let mut i: usize = 0;
    while i < items.len()
        invariant
            0 <= i <= items@.len(),
            key == |v: EventView| event_key(v),
            seen@.len() == i,
            forall|m: int| 0 <= m < i ==> (#[trigger] seen@[m])@ == event_key(items@[m]),
            out@ == at_most(first_by_key(items@.take(i as int), key), 10),
        decreases items@.len() - i,
    {
        let k = event_key_of(&items[i]);
        let dup = seen_before(&seen, k.as_str());
        proof {
            let t = items@.take(i as int + 1);
            assert(t.drop_last() =~= items@.take(i as int));
            assert(t.last() == items@[i as int]);
            if dup {
                let j = choose|j: int| 0 <= j < seen@.len() && (#[trigger] seen@[j])@ == k@;
                assert(t[j] == items@[j]);
                assert(key(t[j]) == key(t.last()));
            } else {
                assert forall|j: int| 0 <= j < t.len() - 1 implies key(#[trigger] t[j]) != key(
                    t.last(),
                ) by {
                    assert(t[j] == items@[j]);
                    assert(seen@[j]@ == event_key(items@[j]));
                }
            }
        }
        if !dup && out.len() < 10 {
            out.push(items[i].clone());
        }
        proof {
            let f = first_by_key(items@.take(i as int), key);
            if !dup && f.len() >= 10 {
                assert(at_most(f.push(items@[i as int]), 10) =~= at_most(f, 10));
            }
            if !dup && f.len() < 10 {
                assert(at_most(f.push(items@[i as int]), 10) =~= f.push(items@[i as int]));
            }
        }
        seen.push(k);
        i = i + 1;
    }
    proof {
        assert(items@.take(items@.len() as int) =~= items@);
    }
    out
}

} // verus!
