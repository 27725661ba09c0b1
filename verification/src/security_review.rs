//! One research review per followed security: the evidence context a provider is given for a
//! security, and what becomes of the provider's answer before anything is stored.
use vstd::prelude::*;

use crate::ai::{accept_provider_sections, rejected_with, AcceptedReview};
use crate::ai_report::{evidence_check, sections_check, AiProviderError, AiReviewSections, AiServiceError};
use crate::ai::{report_of, sections_report_check};
use crate::json::JsonValue;
use crate::market::MarketSecurity;
use crate::records::StoredMarketQuote;
use crate::research_context::{evidence_section, evidence_section_of, research_context, research_context_of};

verus! {

/// The prompt version of the research review.
pub const RESEARCH_PROMPT_VERSION: &'static str = "research-agent-evidence-v2";

/// The input of one security's review: what the provider is sent, and the ids the stored
/// context is filed under.
pub struct AiReviewInput {
    pub prompt_version: String,
    pub manual_refresh_run_id: i64,
    pub research_run_id: Option<i64>,
    pub daily_review_id: i64,
    pub portfolio: JsonValue,
    pub market: JsonValue,
    pub news: JsonValue,
    pub events: JsonValue,
    pub security: JsonValue,
    pub sector: JsonValue,
    pub intelligence: JsonValue,
    pub research_context: JsonValue,
    pub security_id: i64,
    pub security_name: String,
    pub security_symbol: String,
}

/// The quotes of the snapshot for one symbol, in order.
pub open spec fn quotes_of_symbol(quotes: Seq<StoredMarketQuote>, symbol: Seq<char>) -> Seq<StoredMarketQuote>
    decreases quotes.len(),
{
    if quotes.len() == 0 {
        Seq::empty()
    } else {
        let p = quotes_of_symbol(quotes.drop_last(), symbol);
        if quotes.last().symbol@ == symbol {
            p.push(quotes.last())
        } else {
            p
        }
    }
}

/// The holding quotes of the snapshot that belong to one security.
pub fn quotes_for_symbol(quotes: &Vec<StoredMarketQuote>, symbol: &str) -> (r: Vec<StoredMarketQuote>)
    ensures
        r@ == quotes_of_symbol(quotes@, symbol@),
{
    let mut out: Vec<StoredMarketQuote> = Vec::new();
    let mut i: usize = 0;
    while i < quotes.len()
        invariant
            0 <= i <= quotes@.len(),
            out@ == quotes_of_symbol(quotes@.take(i as int), symbol@),
        decreases quotes@.len() - i,
    {
        proof {
            let t = quotes@.take(i as int + 1);
            assert(t.drop_last() =~= quotes@.take(i as int));
            assert(t.last() == quotes@[i as int]);
        }
        if crate::text::str_eq(quotes[i].symbol.as_str(), symbol) {
            out.push(quotes[i].clone());
        }
        i = i + 1;
    }
    proof {
        assert(quotes@.take(i as int) =~= quotes@);
    }
    out
}

/// An object with these members, in this order.
pub open spec fn object_is(v: JsonValue, keys: Seq<Seq<char>>, values: Seq<JsonValue>) -> bool {
    &&& v matches JsonValue::Object(fs)
    &&& v->Object_0@.len() == keys.len()
    &&& keys.len() == values.len()
    &&& forall|i: int|
        0 <= i < keys.len() ==> (#[trigger] v->Object_0@[i]).0@ == keys[i] && v->Object_0@[i].1
            == values[i]
}

pub open spec fn text_is(v: JsonValue, t: Seq<char>) -> bool {
    v matches JsonValue::Str(s) && s@ == t
}

pub open spec fn array_is(v: JsonValue, items: Seq<JsonValue>) -> bool {
    v matches JsonValue::Array(xs) && xs@ == items
}

/// The market evidence of one security: its quotes, the index quotes, its technical facts and
/// when the snapshot was completed.
pub open spec fn market_evidence_of(
    v: JsonValue,
    holding: Seq<JsonValue>,
    indices: Seq<JsonValue>,
    technical: JsonValue,
    completed_at: Seq<char>,
) -> bool {
    &&& v matches JsonValue::Object(fs)
    &&& v->Object_0@.len() == 4
    &&& v->Object_0@[0].0@ == "holding"@ && array_is(v->Object_0@[0].1, holding)
    &&& v->Object_0@[1].0@ == "indices"@ && array_is(v->Object_0@[1].1, indices)
    &&& v->Object_0@[2].0@ == "technical"@ && v->Object_0@[2].1 == technical
    &&& v->Object_0@[3].0@ == "snapshotCompletedAt"@ && text_is(v->Object_0@[3].1, completed_at)
}

/// The identity of the security under review.
pub open spec fn security_evidence_of(v: JsonValue, security: MarketSecurity) -> bool {
    &&& v matches JsonValue::Object(fs)
    &&& v->Object_0@.len() == 4
    &&& v->Object_0@[0].0@ == "symbol"@ && text_is(v->Object_0@[0].1, security.symbol@)
    &&& v->Object_0@[1].0@ == "name"@ && text_is(v->Object_0@[1].1, security.name@)
    &&& v->Object_0@[2].0@ == "market"@ && text_is(v->Object_0@[2].1, security.market@)
    &&& v->Object_0@[3].0@ == "securityType"@ && text_is(v->Object_0@[3].1, "STOCK"@)
}

/// No reliable sector source: the sector is unavailable, with the reason.
pub open spec fn sector_evidence_of(v: JsonValue) -> bool {
    &&& v matches JsonValue::Object(fs)
    &&& v->Object_0@.len() == 2
    &&& v->Object_0@[0].0@ == "status"@ && text_is(v->Object_0@[0].1, "UNAVAILABLE"@)
    &&& v->Object_0@[1].0@ == "reason"@ && text_is(v->Object_0@[1].1, "当前没有可靠板块数据源"@)
}

/// `r` is the review input of `security`: the snapshot's quotes of the security and the index
/// quotes with its technical facts, the news and events sections, no portfolio, an unavailable
/// sector, the intelligence as given, and the research context built over them.
pub open spec fn review_input_of(
    r: AiReviewInput,
    manual_refresh_run_id: i64,
    completed_at: Seq<char>,
    research_run_id: Option<i64>,
    daily_review_id: i64,
    security: MarketSecurity,
    holding: Seq<JsonValue>,
    indices: Seq<JsonValue>,
    technical: JsonValue,
    news: Seq<JsonValue>,
    events: Seq<JsonValue>,
    intelligence: JsonValue,
    profile: JsonValue,
) -> bool {
    &&& r.prompt_version@ == RESEARCH_PROMPT_VERSION@
    &&& r.manual_refresh_run_id == manual_refresh_run_id
    &&& r.research_run_id == research_run_id
    &&& r.daily_review_id == daily_review_id
    &&& r.portfolio == JsonValue::Null
    &&& market_evidence_of(r.market, holding, indices, technical, completed_at)
    &&& evidence_section_of(r.news, news)
    &&& evidence_section_of(r.events, events)
    &&& security_evidence_of(r.security, security)
    &&& sector_evidence_of(r.sector)
    &&& r.intelligence == intelligence
    &&& research_context_of(r.research_context, profile, r.market, r.news, r.events, intelligence)
    &&& r.security_id == security.security_id
    &&& r.security_name@ == security.name@
    &&& r.security_symbol@ == security.symbol@
}

fn text(s: &str) -> (r: JsonValue)
    ensures
        text_is(r, s@),
{
    JsonValue::Str(String::from_str(s))
}

fn member(key: &str, value: JsonValue) -> (r: (String, JsonValue))
    ensures
        r.0@ == key@,
        r.1 == value,
{
    (String::from_str(key), value)
}

/// The evidence context of one followed security, from the items of the latest manual snapshot
/// as stored JSON renders them: the security's quotes, the index quotes, its technical facts,
/// its de-duplicated news and events, its intelligence summary and its profile context.
pub fn security_review_input(
    manual_refresh_run_id: i64,
    completed_at: &str,
    research_run_id: Option<i64>,
    daily_review_id: i64,
    security: &MarketSecurity,
    holding: Vec<JsonValue>,
    indices: Vec<JsonValue>,
    technical: JsonValue,
    news: Vec<JsonValue>,
    events: Vec<JsonValue>,
    intelligence: JsonValue,
    profile: JsonValue,
) -> (r: AiReviewInput)
    ensures
        review_input_of(
            r,
            manual_refresh_run_id,
            completed_at@,
            research_run_id,
            daily_review_id,
            *security,
            holding@,
            indices@,
            technical,
            news@,
            events@,
            intelligence,
            profile,
        ),
{
    let ghost tech = technical;
    let mut market_fields: Vec<(String, JsonValue)> = Vec::new();
    market_fields.push(member("holding", JsonValue::Array(holding)));
    market_fields.push(member("indices", JsonValue::Array(indices)));
    market_fields.push(member("technical", technical));
    market_fields.push(member("snapshotCompletedAt", text(completed_at)));
    let market = JsonValue::Object(market_fields);
    let news = evidence_section(news);
    let events = evidence_section(events);
    let mut security_fields: Vec<(String, JsonValue)> = Vec::new();
    security_fields.push(member("symbol", JsonValue::Str(security.symbol.clone())));
    security_fields.push(member("name", JsonValue::Str(security.name.clone())));
    security_fields.push(member("market", JsonValue::Str(security.market.clone())));
    security_fields.push(member("securityType", text("STOCK")));
    let mut sector_fields: Vec<(String, JsonValue)> = Vec::new();
    sector_fields.push(member("status", text("UNAVAILABLE")));
    sector_fields.push(member("reason", text("当前没有可靠板块数据源")));
    let context = research_context(profile, &market, &news, &events, &intelligence);
    AiReviewInput {
        prompt_version: String::from_str(RESEARCH_PROMPT_VERSION),
        manual_refresh_run_id,
        research_run_id,
        daily_review_id,
        portfolio: JsonValue::Null,
        market,
        news,
        events,
        security: JsonValue::Object(security_fields),
        sector: JsonValue::Object(sector_fields),
        intelligence,
        research_context: context,
        security_id: security.security_id,
        security_name: security.name.clone(),
        security_symbol: security.symbol.clone(),
    }
}

/// The audit record of an answer that could not be read: never a review, only the redacted raw
/// answer and the error.
#[derive(Debug)]
pub struct AiReviewFailure {
    pub provider: String,
    pub model: String,
    pub security_id: i64,
    pub raw_response: String,
    pub error_message: String,
}

/// What becomes of one provider answer.
#[derive(Debug)]
pub enum ReviewDecision {
    /// The answer passed every check: the review to store.
    Accepted(AcceptedReview),
    /// The answer failed: the error to report, and the failure to record when the provider kept
    /// its raw answer.
    Failed { error: AiServiceError, failure: Option<AiReviewFailure> },
}

/// Decides what becomes of a provider's answer for one security. A provider error is reported,
/// with a failure record when a raw answer was kept; sections are accepted only when they,
/// the report they make and its evidence citations pass every check. Nothing of a failed
/// answer becomes a review.
pub fn review_decision(
    provider: &str,
    model: &str,
    security_id: i64,
    answer: Result<AiReviewSections, AiProviderError>,
    research_context: &JsonValue,
) -> (r: ReviewDecision)
    ensures
        match answer {
            Err(e) => r matches ReviewDecision::Failed { error, failure } && error
                == AiServiceError::Provider(e) && match e.raw_response {
                None => failure is None,
                Some(raw) => failure matches Some(f) && f.provider@ == provider@ && f.model@
                    == model@ && f.security_id == security_id && f.raw_response == raw
                    && f.error_message == e.message,
            },
            Ok(sections) => match r {
                ReviewDecision::Accepted(a) => {
                    &&& sections_check(sections) is None
                    &&& sections_report_check(sections) is None
                    &&& report_of(a.report, sections)
                    &&& evidence_check(a.report, *research_context) is None
                    &&& a.facts@ == sections.facts@
                    &&& a.inferences@ == sections.inferences@
                    &&& a.risks@ == sections.risks@
                },
                ReviewDecision::Failed { error, failure } => failure is None && rejected_with(
                    error,
                    sections,
                    *research_context,
                ),
            },
        },
{
    match answer {
        Err(e) => {
            let failure = match &e.raw_response {
                None => None,
                Some(raw) => Some(
                    AiReviewFailure {
                        provider: String::from_str(provider),
                        model: String::from_str(model),
                        security_id,
                        raw_response: raw.clone(),
                        error_message: e.message.clone(),
                    },
                ),
            };
            ReviewDecision::Failed { error: AiServiceError::Provider(e), failure }
        },
        Ok(sections) => match accept_provider_sections(sections, research_context) {
            Ok(a) => ReviewDecision::Accepted(a),
            Err(error) => ReviewDecision::Failed { error, failure: None },
        },
    }
}

} // verus!
