//! Source-attributed market intelligence.
//!
//! Providers collect explicit, traceable records only. This module decides relevance,
//! deduplication, credibility labels and topic grouping; it never promotes a community post or a
//! rumour into an objective fact.
use vstd::prelude::*;

use crate::ai_report::{lowercase, to_lowercase, views};
use crate::ai_response::{insert_sorted, sorted_unique};
use crate::disclosure::DisclosureSecurity;
use crate::news::{NewsArticleInput, NewsSourceType};
use crate::events::EventView;
use crate::records::{IntelligenceItem, IntelligenceItemWithSecurity, NewIntelligenceItem, WatchlistItemData};
use crate::text::{
    chars_of, concat2, concat3, contains, is_blank, lemma_lex_asymmetric, lemma_lex_total,
    lemma_lex_transitive, lex_less, lex_lt, replace_spec, replace_str, join_spec, join_strings,
    nat_text, u64_text,
    str_contains, str_eq, string_of, take_chars, take_prefix, trim, trim_str, trim_vec,
};
use crate::time::{now_utc, parse_rfc3339, rfc3339_parse, rfc3339_text, UtcTime};

verus! {

/// The public Eastmoney finance flash feed.
pub const EASTMONEY_FLASH_URL: &'static str = "https://np-listapi.eastmoney.com/comm/web/getNewsByColumns?client=web&biz=web_news_col&column=348&order=1&needInteract=0&pageIndex=1&pageSize=80&req_trace=hero-call&fields=code,showTime,title,summary";

#[derive(Debug, Clone, Copy, PartialEq, Eq, Structural)]
pub enum IntelligenceSourceType {
    Official,
    News,
    Industry,
    Community,
    Social,
    Rumor,
}

pub open spec fn source_type_code(t: IntelligenceSourceType) -> Seq<char> {
    match t {
        IntelligenceSourceType::Official => "OFFICIAL"@,
        IntelligenceSourceType::News => "NEWS"@,
        IntelligenceSourceType::Industry => "INDUSTRY"@,
        IntelligenceSourceType::Community => "COMMUNITY"@,
        IntelligenceSourceType::Social => "SOCIAL"@,
        IntelligenceSourceType::Rumor => "RUMOR"@,
    }
}

impl IntelligenceSourceType {
    pub fn as_str(self) -> (r: &'static str)
        ensures
            r@ == source_type_code(self),
    {
        match self {
            IntelligenceSourceType::Official => "OFFICIAL",
            IntelligenceSourceType::News => "NEWS",
            IntelligenceSourceType::Industry => "INDUSTRY",
            IntelligenceSourceType::Community => "COMMUNITY",
            IntelligenceSourceType::Social => "SOCIAL",
            IntelligenceSourceType::Rumor => "RUMOR",
        }
    }
}

/// Credibility of a source, from first-party (`A`) to unverified rumour (`E`).
#[derive(Debug, Clone, Copy, PartialEq, Eq, Structural)]
pub enum CredibilityLevel {
    A,
    B,
    C,
    D,
    E,
}

pub open spec fn credibility_code(c: CredibilityLevel) -> Seq<char> {
    match c {
        CredibilityLevel::A => "A"@,
        CredibilityLevel::B => "B"@,
        CredibilityLevel::C => "C"@,
        CredibilityLevel::D => "D"@,
        CredibilityLevel::E => "E"@,
    }
}

/// The importance an item of this credibility starts with.
pub open spec fn credibility_score(c: CredibilityLevel) -> i64 {
    match c {
        CredibilityLevel::A => 500,
        CredibilityLevel::B => 400,
        CredibilityLevel::C => 300,
        CredibilityLevel::D => 200,
        CredibilityLevel::E => 100,
    }
}

impl CredibilityLevel {
    pub fn as_str(self) -> (r: &'static str)
        ensures
            r@ == credibility_code(self),
    {
        match self {
            CredibilityLevel::A => "A",
            CredibilityLevel::B => "B",
            CredibilityLevel::C => "C",
            CredibilityLevel::D => "D",
            CredibilityLevel::E => "E",
        }
    }

    pub fn score(self) -> (r: i64)
        ensures
            r == credibility_score(self),
    {
        match self {
            CredibilityLevel::A => 500,
            CredibilityLevel::B => 400,
            CredibilityLevel::C => 300,
            CredibilityLevel::D => 200,
            CredibilityLevel::E => 100,
        }
    }
}

#[derive(Debug, Clone)]
pub struct IntelligenceInput {
    pub title: String,
    pub summary: String,
    pub source: String,
    pub source_type: IntelligenceSourceType,
    pub source_url: Option<String>,
    pub published_at: String,
    pub fetched_at: String,
    pub credibility_level: CredibilityLevel,
    pub intelligence_type: String,
    pub security_ids: Vec<i64>,
    pub status: String,
}

#[derive(Debug, PartialEq, Eq)]
pub struct IntelligenceProviderError(pub String);

/// A source of intelligence. A new source implements this port; aggregation, credibility and
/// presentation do not change for it.
pub trait IntelligenceProvider {
    fn name(&self) -> &'static str;

    fn source_type(&self) -> IntelligenceSourceType;

    fn fetch(&self, securities: &[DisclosureSecurity]) -> Result<
        Vec<IntelligenceInput>,
        IntelligenceProviderError,
    >;
}

/// One entry of the flash feed, as the source wrote it.
#[derive(Debug, Clone)]
pub struct FlashItem {
    pub code: Option<String>,
    pub show_time: Option<String>,
    pub title: Option<String>,
    pub summary: Option<String>,
}

/// The flash feed response: its status code and its entries.
#[derive(Debug, Clone)]
pub struct FlashResponse {
    pub code: Option<String>,
    pub list: Vec<FlashItem>,
}

/// The transport that fetches and reads the flash feed; a body that is not a feed response is
/// its error.
pub trait FlashTransport {
    fn fetch(&self, url: &str) -> Result<FlashResponse, IntelligenceProviderError>;
}

/// What the fetch gives for the feed's answer: the transport's error; for a response, its
/// records when its code is `1` (stamped with the time of the fetch), else the refusal.
pub open spec fn flash_answer(
    r: Result<Vec<IntelligenceInput>, IntelligenceProviderError>,
    answer: Result<FlashResponse, IntelligenceProviderError>,
    securities: Seq<DisclosureSecurity>,
) -> bool {
    match answer {
        Err(e) => r == Err::<Vec<IntelligenceInput>, IntelligenceProviderError>(e),
        Ok(response) => {
            &&& (r is Ok <==> opt_text(response.code) == "1"@ && response.code is Some)
            &&& (r matches Ok(v) ==> exists|fetched_at: Seq<char>|
                flash_records_of(v@, response.list@, securities, fetched_at))
            &&& (r matches Err(e) ==> e.0@ == "东方财富财经快讯未返回成功状态"@)
        },
    }
}

/// The public, cookie-free Eastmoney finance flash feed. Only entries that name a followed stock
/// by code or name are kept; unrelated market headlines are dropped.
pub struct EastmoneyFlashNewsProvider;

/// Community collection is optional on purpose: it has no default network implementation, so no
/// cookie scraping or account identity is ever needed.
pub struct OptionalCommunityProvider;

impl IntelligenceProvider for OptionalCommunityProvider {
    fn name(&self) -> (r: &'static str)
        ensures
            r@ == "可选社区舆情"@,
    {
        "可选社区舆情"
    }

    fn source_type(&self) -> (r: IntelligenceSourceType)
        ensures
            r == IntelligenceSourceType::Community,
    {
        IntelligenceSourceType::Community
    }

    fn fetch(&self, securities: &[DisclosureSecurity]) -> (r: Result<
        Vec<IntelligenceInput>,
        IntelligenceProviderError,
    >)
        ensures
            r matches Err(e) && e.0@ == "社区舆情 Provider 未配置；未执行高风险 Cookie 抓取"@,
    {
        Err(IntelligenceProviderError(String::from_str("社区舆情 Provider 未配置；未执行高风险 Cookie 抓取")))
    }
}

pub open spec fn opt_text(o: Option<String>) -> Seq<char> {
    match o {
        Some(s) => s@,
        None => Seq::empty(),
    }
}

fn opt_string(o: &Option<String>) -> (r: String)
    ensures
        r@ == opt_text(*o),
{
    match o {
        Some(s) => s.clone(),
        None => String::new(),
    }
}

/// The security is named in the title or summary, by its code or by its non-blank name.
pub open spec fn mentions(s: DisclosureSecurity, title: Seq<char>, summary: Seq<char>) -> bool {
    ||| contains(title, s.symbol@)
    ||| contains(summary, s.symbol@)
    ||| (trim(s.name@).len() > 0 && (contains(title, s.name@) || contains(summary, s.name@)))
}

/// The ids of the securities named, in the order of `secs`.
pub open spec fn related_ids(secs: Seq<DisclosureSecurity>, title: Seq<char>, summary: Seq<char>) -> Seq<i64>
    decreases secs.len(),
{
    if secs.len() == 0 {
        Seq::empty()
    } else {
        let p = related_ids(secs.drop_last(), title, summary);
        if mentions(secs.last(), title, summary) {
            p.push(secs.last().id)
        } else {
            p
        }
    }
}

fn related_security_ids(securities: &[DisclosureSecurity], title: &str, summary: &str) -> (r: Vec<i64>)
    ensures
        r@ == related_ids(securities@, title@, summary@),
{
    let mut out: Vec<i64> = Vec::new();
    let mut i: usize = 0;
    while i < securities.len()
        invariant
            0 <= i <= securities@.len(),
            out@ == related_ids(securities@.take(i as int), title@, summary@),
        decreases securities@.len() - i,
    {
        let s = &securities[i];
        let named = str_contains(title, s.symbol.as_str()) || str_contains(summary, s.symbol.as_str())
            || (!is_blank(s.name.as_str()) && (str_contains(title, s.name.as_str()) || str_contains(
            summary,
            s.name.as_str(),
        )));
        proof {
            assert(securities@.take(i as int + 1).drop_last() =~= securities@.take(i as int));
            assert(securities@.take(i as int + 1).last() == securities@[i as int]);
        }
        if named {
            out.push(s.id);
        }
        i = i + 1;
    }
    proof {
        assert(securities@.take(securities@.len() as int) =~= securities@);
    }
    out
}

/// The feed's local display time (`YYYY-MM-DD HH:MM:SS`, China time) as an RFC 3339 instant in
/// UTC; `None` when it cannot be read.
pub open spec fn eastmoney_time_spec(value: Seq<char>) -> Option<Seq<char>> {
    match rfc3339_parse(replace_spec(trim(value), " "@, "T"@) + "+08:00"@) {
        Some(t) => Some(rfc3339_text(t)),
        None => None,
    }
}

pub fn parse_eastmoney_time(value: &str) -> (r: Option<String>)
    ensures
        r matches Some(s) ==> eastmoney_time_spec(value@) == Some(s@),
        r is None ==> eastmoney_time_spec(value@) is None,
{
    let trimmed = trim_str(value);
    let spaced = replace_str(trimmed.as_str(), " ", "T");
    let canonical = concat2(spaced.as_str(), "+08:00");
    match parse_rfc3339(canonical.as_str()) {
        Some(t) => Some(t.to_rfc3339()),
        None => None,
    }
}

pub open spec fn flash_published(item: FlashItem) -> Option<Seq<char>> {
    match item.show_time {
        Some(t) => eastmoney_time_spec(t@),
        None => None,
    }
}

/// A feed entry becomes a record: it has a title, names a followed security and has a readable
/// time.
pub open spec fn flash_kept(item: FlashItem, secs: Seq<DisclosureSecurity>) -> bool {
    let title = trim(opt_text(item.title));
    let summary = trim(opt_text(item.summary));
    &&& title.len() > 0
    &&& related_ids(secs, title, summary).len() > 0
    &&& flash_published(item) is Some
}

pub open spec fn flash_kept_fn(secs: Seq<DisclosureSecurity>) -> spec_fn(FlashItem) -> bool {
    |item: FlashItem| flash_kept(item, secs)
}

/// `r` is the record of a kept feed entry.
pub open spec fn flash_record_of(
    r: IntelligenceInput,
    item: FlashItem,
    secs: Seq<DisclosureSecurity>,
    fetched_at: Seq<char>,
) -> bool {
    let title = trim(opt_text(item.title));
    let summary = trim(opt_text(item.summary));
    let code = opt_text(item.code);
    &&& r.title@ == title
    &&& r.summary@ == (if summary.len() == 0 {
        title
    } else {
        summary
    })
    &&& r.source@ == "东方财富财经快讯"@
    &&& r.source_type == IntelligenceSourceType::News
    &&& (if code.len() == 0 {
        r.source_url is None
    } else {
        r.source_url is Some && r.source_url->Some_0@ == "https://finance.eastmoney.com/a/"@ + code
            + ".html"@
    })
    &&& flash_published(item) == Some(r.published_at@)
    &&& r.fetched_at@ == fetched_at
    &&& r.credibility_level == CredibilityLevel::B
    &&& r.intelligence_type@ == "MARKET_FLASH"@
    &&& r.security_ids@ == related_ids(secs, title, summary)
    &&& r.status@ == "ACTIVE"@
}

/// The records are those of the kept entries, in feed order.
pub open spec fn flash_records_of(
    rs: Seq<IntelligenceInput>,
    items: Seq<FlashItem>,
    secs: Seq<DisclosureSecurity>,
    fetched_at: Seq<char>,
) -> bool {
    let kept = items.filter(flash_kept_fn(secs));
    &&& rs.len() == kept.len()
    &&& forall|k: int| 0 <= k < rs.len() ==> flash_record_of(#[trigger] rs[k], kept[k], secs, fetched_at)
}

proof fn lemma_filter_push<A>(s: Seq<A>, x: A, f: spec_fn(A) -> bool)
    ensures
        s.push(x).filter(f) == (if f(x) {
            s.filter(f).push(x)
        } else {
            s.filter(f)
        }),
{
    reveal(Seq::filter);
    assert(s.push(x).drop_last() =~= s);
}

fn flash_record(securities: &[DisclosureSecurity], item: &FlashItem, fetched_at: &str) -> (r: Option<
    IntelligenceInput,
>)
    ensures
        r is Some <==> flash_kept(*item, securities@),
        r matches Some(x) ==> flash_record_of(x, *item, securities@, fetched_at@),
{
    let title_raw = opt_string(&item.title);
    let title_chars = trim_vec(&chars_of(title_raw.as_str()));
    if title_chars.len() == 0 {
        return None;
    }
    let title = string_of(&title_chars);
    let summary_raw = opt_string(&item.summary);
    let summary_chars = trim_vec(&chars_of(summary_raw.as_str()));
    let summary = string_of(&summary_chars);
    let related = related_security_ids(securities, title.as_str(), summary.as_str());
    if related.len() == 0 {
        return None;
    }
    let published_at = match &item.show_time {
        Some(t) => match parse_eastmoney_time(t.as_str()) {
            Some(p) => p,
            None => return None,
        },
        None => return None,
    };
    let code = opt_string(&item.code);
    let source_url = if chars_of(code.as_str()).len() == 0 {
        None
    } else {
        Some(concat3("https://finance.eastmoney.com/a/", code.as_str(), ".html"))
    };
    let summary_text = if summary_chars.len() == 0 {
        title.clone()
    } else {
        summary
    };
    Some(
        IntelligenceInput {
            title,
            summary: summary_text,
            source: String::from_str("东方财富财经快讯"),
            source_type: IntelligenceSourceType::News,
            source_url,
            published_at,
            fetched_at: String::from_str(fetched_at),
            credibility_level: CredibilityLevel::B,
            intelligence_type: String::from_str("MARKET_FLASH"),
            security_ids: related,
            status: String::from_str("ACTIVE"),
        },
    )
}

/// The records of the feed entries that name a followed security, in feed order.
pub fn flash_records(securities: &[DisclosureSecurity], items: &Vec<FlashItem>, fetched_at: &str) -> (r:
    Vec<IntelligenceInput>)
    ensures
        flash_records_of(r@, items@, securities@, fetched_at@),
{
    let ghost f = flash_kept_fn(securities@);
    let mut out: Vec<IntelligenceInput> = Vec::new();
    let mut i: usize = 0;
    while i < items.len()
        invariant
            0 <= i <= items@.len(),
            f == flash_kept_fn(securities@),
            flash_records_of(out@, items@.take(i as int), securities@, fetched_at@),
        decreases items@.len() - i,
    {
        proof {
            assert(items@.take(i as int + 1) =~= items@.take(i as int).push(items@[i as int]));
            lemma_filter_push(items@.take(i as int), items@[i as int], f);
        }
        let ghost before = out@;
        let ghost kept = items@.take(i as int).filter(f);
        match flash_record(securities, &items[i], fetched_at) {
            Some(x) => {
                out.push(x);
                proof {
                    let nk = kept.push(items@[i as int]);
                    assert forall|k: int| 0 <= k < out@.len() implies flash_record_of(
                        #[trigger] out@[k],
                        nk[k],
                        securities@,
                        fetched_at@,
                    ) by {
                        if k < before.len() {
                            assert(out@[k] == before[k]);
                            assert(nk[k] == kept[k]);
                        }
                    }
                }
            },
            None => {},
        }
        i = i + 1;
    }
    proof {
        assert(items@.take(items@.len() as int) =~= items@);
    }
    out
}

impl EastmoneyFlashNewsProvider {
    pub fn name(&self) -> (r: &'static str)
        ensures
            r@ == "东方财富财经快讯"@,
    {
        "东方财富财经快讯"
    }

    pub fn source_type(&self) -> (r: IntelligenceSourceType)
        ensures
            r == IntelligenceSourceType::News,
    {
        IntelligenceSourceType::News
    }

    /// The records of one feed response: refused unless its code is `1`.
    pub fn records_from_response(
        securities: &[DisclosureSecurity],
        response: &FlashResponse,
        fetched_at: &str,
    ) -> (r: Result<Vec<IntelligenceInput>, IntelligenceProviderError>)
        ensures
            r is Ok <==> opt_text(response.code) == "1"@ && response.code is Some,
            r matches Ok(v) ==> flash_records_of(v@, response.list@, securities@, fetched_at@),
            r matches Err(e) ==> e.0@ == "东方财富财经快讯未返回成功状态"@,
    {
        let success = match &response.code {
            Some(c) => crate::text::str_eq(c.as_str(), "1"),
            None => false,
        };
        if !success {
            return Err(IntelligenceProviderError(String::from_str("东方财富财经快讯未返回成功状态")));
        }
        Ok(flash_records(securities, &response.list, fetched_at))
    }

    /// Fetches the feed through `transport` and keeps the entries that name one of `securities`.
    /// With no securities nothing is fetched. The records carry the current time as their fetch
    /// time.
    pub fn fetch_with<T: FlashTransport>(
        &self,
        securities: &[DisclosureSecurity],
        transport: &T,
    ) -> (r: Result<Vec<IntelligenceInput>, IntelligenceProviderError>)
        ensures
            securities@.len() == 0 ==> (r matches Ok(v) && v@.len() == 0),
            r is Ok && securities@.len() > 0 ==> exists|items: Seq<FlashItem>, fetched_at: Seq<char>|
                flash_records_of(r->Ok_0@, items, securities@, fetched_at),
            securities@.len() > 0 ==> exists|url: &str, answer: Result<FlashResponse, IntelligenceProviderError>|
                #![trigger call_ensures(T::fetch, (transport, url), answer)]
                url@ == EASTMONEY_FLASH_URL@ && call_ensures(T::fetch, (transport, url), answer)
                    && flash_answer(r, answer, securities@),
    {
        if securities.len() == 0 {
            return Ok(Vec::new());
        }
        let url = EASTMONEY_FLASH_URL;
        let answer = transport.fetch(url);
        proof {
            assert(call_ensures(T::fetch, (transport, url), answer));
        }
        let response = match answer {
            Ok(v) => v,
            Err(e) => return Err(e),
        };
        let fetched_at = now_utc().to_rfc3339();
        Self::records_from_response(securities, &response, fetched_at.as_str())
    }
}

/// What `char::is_alphanumeric` gives: the character has the Unicode `Alphabetic` or `Numeric`
/// property.
pub uninterp spec fn alphanumeric(c: char) -> bool;

/// `char::is_alphanumeric`.
#[verifier::external_body]
fn is_alphanumeric(c: char) -> (r: bool)
    ensures
        r == alphanumeric(c),
{
    c.is_alphanumeric()
}

/// Characters that count in a normalized title: alphanumeric ones and the CJK unified
/// ideographs.
pub open spec fn kept_char(c: char) -> bool {
    alphanumeric(c) || ('\u{4e00}' <= c && c <= '\u{9fff}')
}

pub open spec fn kept_char_fn() -> spec_fn(char) -> bool {
    |c: char| kept_char(c)
}

/// The kept characters, lowercased: punctuation, spaces and symbols do not tell two titles
/// apart.
pub open spec fn normalized(s: Seq<char>) -> Seq<char> {
    lowercase(s.filter(kept_char_fn()))
}

fn normalize(value: &str) -> (r: String)
    ensures
        r@ == normalized(value@),
{
    let v = chars_of(value);
    let ghost f = kept_char_fn();
    let mut out: Vec<char> = Vec::new();
    let mut i: usize = 0;
    while i < v.len()
        invariant
            0 <= i <= v@.len(),
            f == kept_char_fn(),
            out@ == v@.take(i as int).filter(f),
        decreases v@.len() - i,
    {
        proof {
            assert(v@.take(i as int + 1) =~= v@.take(i as int).push(v@[i as int]));
            lemma_filter_push(v@.take(i as int), v@[i as int], f);
        }
        let c = v[i];
        if is_alphanumeric(c) || (c >= '\u{4e00}' && c <= '\u{9fff}') {
            out.push(c);
        }
        i = i + 1;
    }
    proof {
        assert(v@.take(v@.len() as int) =~= v@);
    }
    let kept = string_of(&out);
    to_lowercase(kept.as_str())
}

/// The topic of a title: the first 24 characters of its normalized form.
pub open spec fn topic_key_spec(title: Seq<char>) -> Seq<char> {
    take_chars(normalized(title), 24)
}

pub fn topic_key(title: &str) -> (r: String)
    ensures
        r@ == topic_key_spec(title@),
{
    let n = normalize(title);
    take_prefix(n.as_str(), 24).0
}

/// The number of bytes UTF-8 takes for the character.
pub open spec fn utf8_width(c: char) -> int {
    let u = c as u32;
    if u < 0x80 {
        1
    } else if u < 0x800 {
        2
    } else if u < 0x10000 {
        3
    } else {
        4
    }
}

/// Where, counting characters from position `i`, the next `n` bytes end: `None` when they end
/// inside a character or past the end.
pub open spec fn byte_prefix_end(s: Seq<char>, i: int, n: int) -> Option<int>
    decreases s.len() - i,
{
    if n == 0 {
        Some(i)
    } else if n < 0 || i >= s.len() {
        None
    } else {
        byte_prefix_end(s, i + 1, n - utf8_width(s[i]))
    }
}

/// What `str::get(..n)` gives: the first `n` bytes, when `n` falls on a character boundary.
pub open spec fn byte_prefix(s: Seq<char>, n: int) -> Option<Seq<char>> {
    match byte_prefix_end(s, 0, n) {
        Some(k) => Some(s.take(k)),
        None => None,
    }
}

fn char_width(c: char) -> (r: i128)
    ensures
        r == utf8_width(c),
{
    let u = c as u32;
    if u < 0x80 {
        1
    } else if u < 0x800 {
        2
    } else if u < 0x10000 {
        3
    } else {
        4
    }
}

/// `str::get(..n)`.
pub fn byte_prefix_of(s: &str, n: usize) -> (r: Option<String>)
    ensures
        r matches Some(p) ==> byte_prefix(s@, n as int) == Some(p@),
        r is None ==> byte_prefix(s@, n as int) is None,
{
    let v = chars_of(s);
    let mut i: usize = 0;
    let mut rem: i128 = n as i128;
    while rem > 0 && i < v.len()
        invariant
            0 <= i <= v@.len(),
            -3 <= rem <= n,
            byte_prefix_end(v@, 0, n as int) == byte_prefix_end(v@, i as int, rem as int),
        decreases v@.len() - i,
    {
        rem = rem - char_width(v[i]);
        i = i + 1;
    }
    if rem == 0 {
        let p = crate::text::sub_vec(&v, 0, i);
        proof {
            assert(v@.subrange(0, i as int) =~= v@.take(i as int));
        }
        Some(string_of(&p))
    } else {
        None
    }
}

/// The identity of one item of one source: its link when it has one, else the normalized title
/// and the date part of the publication time.
pub open spec fn dedup_key_spec(input: IntelligenceInput) -> Seq<char> {
    if input.source_url is Some && trim(input.source_url->Some_0@).len() > 0 {
        input.source_url->Some_0@
    } else {
        normalized(input.title@) + "|"@ + match byte_prefix(input.published_at@, 10) {
            Some(p) => p,
            None => input.published_at@,
        }
    }
}

fn dedup_key(input: &IntelligenceInput) -> (r: String)
    ensures
        r@ == dedup_key_spec(*input),
{
    match &input.source_url {
        Some(u) => {
            if !is_blank(u.as_str()) {
                return u.clone();
            }
        },
        None => {},
    }
    let title = normalize(input.title.as_str());
    let date = match byte_prefix_of(input.published_at.as_str(), 10) {
        Some(p) => p,
        None => input.published_at.clone(),
    };
    concat3(title.as_str(), "|", date.as_str())
}

#[derive(Debug, PartialEq, Eq)]
pub enum IntelligenceServiceError {
    Database(String),
    Validation(&'static str),
}

impl IntelligenceServiceError {
    /// The text the error displays.
    pub fn message(&self) -> (r: String)
        ensures
            r@ == match *self {
                IntelligenceServiceError::Database(m) => "database error: "@ + m@,
                IntelligenceServiceError::Validation(m) => m@,
            },
    {
        match self {
            IntelligenceServiceError::Database(m) => concat2("database error: ", m.as_str()),
            IntelligenceServiceError::Validation(m) => String::from_str(m),
        }
    }
}

/// What storing one input does: the record to upsert, the securities to link it to, and whether
/// it confirms matching rumours.
#[derive(Debug)]
pub struct IngestPlan {
    pub item: NewIntelligenceItem,
    pub security_ids: Vec<i64>,
    pub confirms_rumors: bool,
}

/// An input without a title, a summary or a linked security is refused.
pub open spec fn ingest_refused(input: IntelligenceInput) -> bool {
    ||| trim(input.title@).len() == 0
    ||| trim(input.summary@).len() == 0
    ||| input.security_ids@.len() == 0
}

/// Official or news sources of credibility `A` or `B` mark matching rumours partially confirmed.
pub open spec fn confirms_rumors_spec(t: IntelligenceSourceType, c: CredibilityLevel) -> bool {
    (t == IntelligenceSourceType::Official || t == IntelligenceSourceType::News) && (c
        == CredibilityLevel::A || c == CredibilityLevel::B)
}

/// `item` is the record stored for `input`.
pub open spec fn new_item_of(item: NewIntelligenceItem, input: IntelligenceInput) -> bool {
    &&& item.title == input.title
    &&& item.summary == input.summary
    &&& item.source == input.source
    &&& item.source_type@ == source_type_code(input.source_type)
    &&& item.source_url == input.source_url
    &&& item.published_at == input.published_at
    &&& item.fetched_at == input.fetched_at
    &&& item.credibility_level@ == credibility_code(input.credibility_level)
    &&& item.intelligence_type == input.intelligence_type
    &&& item.dedup_key@ == dedup_key_spec(input)
    &&& item.topic_key@ == topic_key_spec(input.title@)
    &&& item.importance_score == credibility_score(input.credibility_level)
    &&& item.heat_score == 1
    &&& item.status == input.status
}

/// The source type and credibility an article of this kind carries.
pub open spec fn news_class(t: NewsSourceType) -> (IntelligenceSourceType, CredibilityLevel) {
    match t {
        NewsSourceType::Official => (IntelligenceSourceType::Official, CredibilityLevel::A),
        NewsSourceType::Media => (IntelligenceSourceType::News, CredibilityLevel::B),
        NewsSourceType::Community => (IntelligenceSourceType::Community, CredibilityLevel::D),
    }
}

/// `v` is the intelligence input of a news article linked to security `id`.
pub open spec fn news_intelligence_of(v: IntelligenceInput, input: NewsArticleInput, id: i64) -> bool {
    &&& v.title == input.title
    &&& v.summary == input.summary
    &&& v.source == input.source
    &&& v.source_type == news_class(input.source_type).0
    &&& v.source_url == Some(input.url)
    &&& v.published_at == input.published_at
    &&& v.fetched_at == input.fetch_time
    &&& v.credibility_level == news_class(input.source_type).1
    &&& v.intelligence_type@ == "DISCLOSURE"@
    &&& v.security_ids@ == seq![id]
    &&& v.status@ == "ACTIVE"@
}

/// Discussion heat by the number of linked records.
pub open spec fn heat_label(n: int) -> Seq<char> {
    if n == 0 {
        "NO_DATA"@
    } else if n == 1 {
        "LOW"@
    } else if n <= 3 {
        "NORMAL"@
    } else if n <= 6 {
        "HIGH"@
    } else {
        "SURGING"@
    }
}

fn heat(count: usize) -> (r: String)
    ensures
        r@ == heat_label(count as int),
{
    if count == 0 {
        String::from_str("NO_DATA")
    } else if count == 1 {
        String::from_str("LOW")
    } else if count <= 3 {
        String::from_str("NORMAL")
    } else if count <= 6 {
        String::from_str("HIGH")
    } else {
        String::from_str("SURGING")
    }
}

pub open spec fn is_community(x: IntelligenceItem) -> bool {
    x.source_type@ == "COMMUNITY"@ || x.source_type@ == "SOCIAL"@
}

fn is_community_exec(x: &IntelligenceItem) -> (r: bool)
    ensures
        r == is_community(*x),
{
    str_eq(x.source_type.as_str(), "COMMUNITY") || str_eq(x.source_type.as_str(), "SOCIAL")
}

pub open spec fn has_community(records: Seq<IntelligenceItemWithSecurity>) -> bool {
    exists|i: int| 0 <= i < records.len() && is_community(#[trigger] records[i].item)
}

/// Some community or social record mentions the word in its title or summary.
pub open spec fn community_mentions(records: Seq<IntelligenceItemWithSecurity>, word: Seq<char>) -> bool {
    exists|i: int|
        0 <= i < records.len() && is_community(#[trigger] records[i].item) && (contains(
            records[i].item.title@,
            word,
        ) || contains(records[i].item.summary@, word))
}

pub open spec fn indicator(b: bool) -> int {
    if b {
        1
    } else {
        0
    }
}

/// How many of the positive words community records mention.
pub open spec fn positive_count(records: Seq<IntelligenceItemWithSecurity>) -> int {
    indicator(community_mentions(records, "上涨"@)) + indicator(community_mentions(records, "增长"@))
        + indicator(community_mentions(records, "中标"@)) + indicator(community_mentions(records, "改善"@))
        + indicator(community_mentions(records, "利好"@)) + indicator(community_mentions(records, "突破"@))
}

/// How many of the negative words community records mention.
pub open spec fn negative_count(records: Seq<IntelligenceItemWithSecurity>) -> int {
    indicator(community_mentions(records, "下跌"@)) + indicator(community_mentions(records, "下滑"@))
        + indicator(community_mentions(records, "风险"@)) + indicator(community_mentions(records, "处罚"@))
        + indicator(community_mentions(records, "亏损"@)) + indicator(community_mentions(records, "减持"@))
}

/// The direction of community discussion; without community records there is none.
pub open spec fn sentiment_label(records: Seq<IntelligenceItemWithSecurity>) -> Seq<char> {
    let p = positive_count(records);
    let n = negative_count(records);
    if !has_community(records) {
        "暂无趋势判断"@
    } else if p > n {
        "偏积极"@
    } else if p < n {
        "偏谨慎"@
    } else if p > 0 {
        "分歧"@
    } else {
        "中性"@
    }
}

fn community_mentions_exec(records: &Vec<IntelligenceItemWithSecurity>, word: &str) -> (r: bool)
    ensures
        r == community_mentions(records@, word@),
{
    let mut i: usize = 0;
    while i < records.len()
        invariant
            0 <= i <= records@.len(),
            forall|k: int|
                0 <= k < i ==> !(is_community(#[trigger] records@[k].item) && (contains(
                    records@[k].item.title@,
                    word@,
                ) || contains(records@[k].item.summary@, word@))),
        decreases records@.len() - i,
    {
        let x = &records[i].item;
        if is_community_exec(x) && (str_contains(x.title.as_str(), word) || str_contains(
            x.summary.as_str(),
            word,
        )) {
            return true;
        }
        i = i + 1;
    }
    false
}

fn has_community_exec(records: &Vec<IntelligenceItemWithSecurity>) -> (r: bool)
    ensures
        r == has_community(records@),
{
    let mut i: usize = 0;
    while i < records.len()
        invariant
            0 <= i <= records@.len(),
            forall|k: int| 0 <= k < i ==> !is_community(#[trigger] records@[k].item),
        decreases records@.len() - i,
    {
        if is_community_exec(&records[i].item) {
            return true;
        }
        i = i + 1;
    }
    false
}

fn indicator_exec(b: bool) -> (r: i64)
    ensures
        r == indicator(b),
{
    if b {
        1
    } else {
        0
    }
}

fn positive_words(records: &Vec<IntelligenceItemWithSecurity>) -> (r: i64)
    ensures
        r == positive_count(records@),
{
    indicator_exec(community_mentions_exec(records, "上涨")) + indicator_exec(
        community_mentions_exec(records, "增长"),
    ) + indicator_exec(community_mentions_exec(records, "中标")) + indicator_exec(
        community_mentions_exec(records, "改善"),
    ) + indicator_exec(community_mentions_exec(records, "利好")) + indicator_exec(
        community_mentions_exec(records, "突破"),
    )
}

fn negative_words(records: &Vec<IntelligenceItemWithSecurity>) -> (r: i64)
    ensures
        r == negative_count(records@),
{
    indicator_exec(community_mentions_exec(records, "下跌")) + indicator_exec(
        community_mentions_exec(records, "下滑"),
    ) + indicator_exec(community_mentions_exec(records, "风险")) + indicator_exec(
        community_mentions_exec(records, "处罚"),
    ) + indicator_exec(community_mentions_exec(records, "亏损")) + indicator_exec(
        community_mentions_exec(records, "减持"),
    )
}

fn sentiment(records: &Vec<IntelligenceItemWithSecurity>) -> (r: String)
    ensures
        r@ == sentiment_label(records@),
{
    if !has_community_exec(records) {
        return String::from_str("暂无趋势判断");
    }
    let p = positive_words(records);
    let n = negative_words(records);
    if p > n {
        String::from_str("偏积极")
    } else if p < n {
        String::from_str("偏谨慎")
    } else if p > 0 {
        String::from_str("分歧")
    } else {
        String::from_str("中性")
    }
}

#[derive(Debug, PartialEq, Eq)]
pub struct IntelligenceItemView {
    pub id: i64,
    pub title: String,
    pub summary: String,
    pub source: String,
    pub source_type: String,
    pub source_url: Option<String>,
    pub published_at: String,
    pub credibility_level: String,
    pub intelligence_type: String,
    pub topic_key: String,
    pub importance_score: i64,
    pub status: String,
}

impl Clone for IntelligenceItemView {
    fn clone(&self) -> (r: Self)
        ensures
            r == *self,
    {
        IntelligenceItemView {
            id: self.id,
            title: self.title.clone(),
            summary: self.summary.clone(),
            source: self.source.clone(),
            source_type: self.source_type.clone(),
            source_url: self.source_url.clone(),
            published_at: self.published_at.clone(),
            credibility_level: self.credibility_level.clone(),
            intelligence_type: self.intelligence_type.clone(),
            topic_key: self.topic_key.clone(),
            importance_score: self.importance_score,
            status: self.status.clone(),
        }
    }
}

#[derive(Debug, Clone, PartialEq, Eq)]
pub struct IntelligenceTopicView {
    pub title: String,
    pub source_count: usize,
    pub source_types: Vec<String>,
    pub credibility_levels: Vec<String>,
}

#[derive(Debug, Clone, PartialEq, Eq)]
pub struct SecurityIntelligenceView {
    pub security_id: i64,
    pub security_name: String,
    pub security_symbol: String,
    pub discussion_heat: String,
    pub sentiment: String,
    pub topics: Vec<IntelligenceTopicView>,
    pub important_items: Vec<IntelligenceItemView>,
    pub community_opinions: Vec<String>,
    pub rumors: Vec<IntelligenceItemView>,
    pub summary: String,
}

#[derive(Debug, Clone, PartialEq, Eq)]
pub struct MarketIntelligenceView {
    pub securities: Vec<SecurityIntelligenceView>,
    pub partial_unavailable_sources: Vec<String>,
}

#[derive(Debug, Clone, PartialEq, Eq)]
pub struct RadarEventView {
    pub id: i64,
    pub event_type: String,
    pub title: String,
    pub event_time: String,
    pub timezone: String,
    pub source: String,
    pub source_url: Option<String>,
    pub related_security: Option<String>,
    pub credibility_level: String,
    pub potential_impact: String,
}

#[derive(Debug, Clone, PartialEq, Eq)]
pub struct MarketRadarView {
    pub next_24_hours: Vec<RadarEventView>,
    pub next_3_days: Vec<RadarEventView>,
    pub next_7_days: Vec<RadarEventView>,
}

/// `v` shows the stored item `x`.
pub open spec fn item_view_of(v: IntelligenceItemView, x: IntelligenceItem) -> bool {
    &&& v.id == x.id
    &&& v.title == x.title
    &&& v.summary == x.summary
    &&& v.source == x.source
    &&& v.source_type == x.source_type
    &&& v.source_url == x.source_url
    &&& v.published_at == x.published_at
    &&& v.credibility_level == x.credibility_level
    &&& v.intelligence_type == x.intelligence_type
    &&& v.topic_key == x.topic_key
    &&& v.importance_score == x.importance_score
    &&& v.status == x.status
}

fn item_view(x: &IntelligenceItem) -> (r: IntelligenceItemView)
    ensures
        item_view_of(r, *x),
{
    IntelligenceItemView {
        id: x.id,
        title: x.title.clone(),
        summary: x.summary.clone(),
        source: x.source.clone(),
        source_type: x.source_type.clone(),
        source_url: x.source_url.clone(),
        published_at: x.published_at.clone(),
        credibility_level: x.credibility_level.clone(),
        intelligence_type: x.intelligence_type.clone(),
        topic_key: x.topic_key.clone(),
        importance_score: x.importance_score,
        status: x.status.clone(),
    }
}

/// The identity of a stored item within one security: its dedup key and its source. Items of
/// independent sources stay apart, so a confirmation never hides a rumour.
pub open spec fn item_key(x: IntelligenceItem) -> Seq<char> {
    x.dedup_key@ + "|"@ + x.source@
}

pub open spec fn keys_unique(d: Seq<IntelligenceItem>) -> bool {
    forall|i: int, j: int| 0 <= i < j < d.len() ==> item_key(#[trigger] d[i]) != item_key(#[trigger] d[j])
}

pub open spec fn has_key(d: Seq<IntelligenceItem>, k: Seq<char>) -> bool {
    exists|j: int| 0 <= j < d.len() && item_key(#[trigger] d[j]) == k
}

/// The position of an item with identity `k`, when there is one.
pub open spec fn key_index(d: Seq<IntelligenceItem>, k: Seq<char>) -> int {
    choose|j: int| 0 <= j < d.len() && item_key(#[trigger] d[j]) == k
}

/// Adds `x`: a new identity is appended; an existing one is replaced in place when `x` is more
/// important.
pub open spec fn merge_item(d: Seq<IntelligenceItem>, x: IntelligenceItem) -> Seq<IntelligenceItem> {
    if has_key(d, item_key(x)) {
        let j = key_index(d, item_key(x));
        if x.importance_score > d[j].importance_score {
            d.update(j, x)
        } else {
            d
        }
    } else {
        d.push(x)
    }
}

/// One item per identity, in order of first appearance, each the most important of its
/// identity (the first of equals).
pub open spec fn dedup_items(s: Seq<IntelligenceItemWithSecurity>) -> Seq<IntelligenceItem>
    decreases s.len(),
{
    if s.len() == 0 {
        Seq::empty()
    } else {
        merge_item(dedup_items(s.drop_last()), s.last().item)
    }
}

fn item_key_exec(x: &IntelligenceItem) -> (r: String)
    ensures
        r@ == item_key(*x),
{
    concat3(x.dedup_key.as_str(), "|", x.source.as_str())
}

/// The position of the item with the identity of `x`, if any.
fn find_key(d: &Vec<IntelligenceItem>, x: &IntelligenceItem) -> (r: Option<usize>)
    requires
        keys_unique(d@),
    ensures
        r is None ==> !has_key(d@, item_key(*x)),
        r matches Some(j) ==> j < d@.len() && has_key(d@, item_key(*x)) && key_index(
            d@,
            item_key(*x),
        ) == j,
{
    let k = item_key_exec(x);
    let mut j: usize = 0;
    while j < d.len()
        invariant
            0 <= j <= d@.len(),
            keys_unique(d@),
            k@ == item_key(*x),
            forall|m: int| 0 <= m < j ==> item_key(#[trigger] d@[m]) != k@,
        decreases d@.len() - j,
    {
        let kj = item_key_exec(&d[j]);
        if str_eq(kj.as_str(), k.as_str()) {
            proof {
                assert(has_key(d@, item_key(*x)));
                let c = key_index(d@, item_key(*x));
                if c < j {
                    assert(false);
                } else if c > j {
                    assert(item_key(d@[j as int]) != item_key(d@[c]));
                }
            }
            return Some(j);
        }
        j = j + 1;
    }
    None
}

fn merge_into(d: &mut Vec<IntelligenceItem>, x: &IntelligenceItem)
    requires
        keys_unique(old(d)@),
    ensures
        final(d)@ == merge_item(old(d)@, *x),
        keys_unique(final(d)@),
{
    let ghost d0 = d@;
    match find_key(d, x) {
        Some(j) => {
            if x.importance_score > d[j].importance_score {
                d.set(j, x.clone());
                proof {
                    assert forall|a: int, b: int| 0 <= a < b < d@.len() implies item_key(
                        #[trigger] d@[a],
                    ) != item_key(#[trigger] d@[b]) by {
                        assert(item_key(d0[j as int]) == item_key(*x));
                        if a != j && b != j {
                            assert(d@[a] == d0[a] && d@[b] == d0[b]);
                        } else if a == j {
                            assert(d@[b] == d0[b]);
                            assert(item_key(d0[j as int]) != item_key(d0[b]));
                        } else {
                            assert(d@[a] == d0[a]);
                            assert(item_key(d0[a]) != item_key(d0[j as int]));
                        }
                    }
                }
            }
        },
        None => {
            d.push(x.clone());
            proof {
                assert forall|a: int, b: int| 0 <= a < b < d@.len() implies item_key(
                    #[trigger] d@[a],
                ) != item_key(#[trigger] d@[b]) by {
                    assert(d@[a] == d0[a]);
                    if b < d0.len() {
                        assert(d@[b] == d0[b]);
                    } else {
                        assert(d@[b] == *x);
                        assert(!(0 <= a < d0.len() && item_key(d0[a]) == item_key(*x)));
                    }
                }
            }
        },
    }
}

fn dedup_records(records: &Vec<IntelligenceItemWithSecurity>) -> (r: Vec<IntelligenceItem>)
    ensures
        r@ == dedup_items(records@),
{
    let mut d: Vec<IntelligenceItem> = Vec::new();
    let mut i: usize = 0;
    while i < records.len()
        invariant
            0 <= i <= records@.len(),
            d@ == dedup_items(records@.take(i as int)),
            keys_unique(d@),
        decreases records@.len() - i,
    {
        proof {
            assert(records@.take(i as int + 1).drop_last() =~= records@.take(i as int));
            assert(records@.take(i as int + 1).last() == records@[i as int]);
        }
        merge_into(&mut d, &records[i].item);
        i = i + 1;
    }
    proof {
        assert(records@.take(records@.len() as int) =~= records@);
    }
    d
}

/// Strictly earlier in the listing: more important first, then the later publication time.
pub open spec fn ranks_before(a: IntelligenceItem, b: IntelligenceItem) -> bool {
    a.importance_score > b.importance_score || (a.importance_score == b.importance_score && lex_lt(
        b.published_at@,
        a.published_at@,
    ))
}

/// Inserts `x` after every item it does not rank before (a stable insertion).
pub open spec fn insert_ranked(x: IntelligenceItem, s: Seq<IntelligenceItem>) -> Seq<IntelligenceItem>
    decreases s.len(),
{
    if s.len() == 0 {
        seq![x]
    } else if ranks_before(x, s.last()) {
        insert_ranked(x, s.drop_last()).push(s.last())
    } else {
        s.push(x)
    }
}

/// The stable sort of `sort_by` with the ranking.
pub open spec fn sort_ranked(s: Seq<IntelligenceItem>) -> Seq<IntelligenceItem>
    decreases s.len(),
{
    if s.len() == 0 {
        s
    } else {
        insert_ranked(s.last(), sort_ranked(s.drop_last()))
    }
}

fn ranks_before_exec(a: &IntelligenceItem, b: &IntelligenceItem) -> (r: bool)
    ensures
        r == ranks_before(*a, *b),
{
    if a.importance_score != b.importance_score {
        a.importance_score > b.importance_score
    } else {
        lex_less(&chars_of(b.published_at.as_str()), &chars_of(a.published_at.as_str()))
    }
}

fn insert_item(sorted: &mut Vec<IntelligenceItem>, x: IntelligenceItem)
    ensures
        final(sorted)@ == insert_ranked(x, old(sorted)@),
{
    let ghost original = sorted@;
    let mut p: usize = sorted.len();
    proof {
        assert(original.take(p as int) =~= original);
        assert(original.skip(p as int) =~= Seq::<IntelligenceItem>::empty());
        assert(insert_ranked(x, original) + Seq::<IntelligenceItem>::empty() =~= insert_ranked(x, original));
    }
    while p > 0 && ranks_before_exec(&x, &sorted[p - 1])
        invariant
            0 <= p <= sorted@.len(),
            sorted@ == original,
            insert_ranked(x, original) == insert_ranked(x, original.take(p as int)) + original.skip(
                p as int,
            ),
        decreases p,
    {
        proof {
            let t = original.take(p as int);
            assert(t.last() == original[p - 1]);
            assert(t.drop_last() =~= original.take(p - 1));
            assert(insert_ranked(x, t) == insert_ranked(x, t.drop_last()).push(t.last()));
            assert(insert_ranked(x, original.take(p - 1)).push(original[p - 1]) + original.skip(
                p as int,
            ) =~= insert_ranked(x, original.take(p - 1)) + original.skip(p - 1));
        }
        p = p - 1;
    }
    proof {
        let t = original.take(p as int);
        if p > 0 {
            assert(t.last() == original[p - 1]);
            assert(insert_ranked(x, t) == t.push(x));
        } else {
            assert(insert_ranked(x, t) =~= seq![x]);
        }
    }
    sorted.insert(p, x);
    proof {
        assert(sorted@ =~= original.take(p as int).push(x) + original.skip(p as int));
    }
}

fn sort_items(items: Vec<IntelligenceItem>) -> (r: Vec<IntelligenceItem>)
    ensures
        r@ == sort_ranked(items@),
{
    let mut sorted: Vec<IntelligenceItem> = Vec::new();
    let mut j: usize = 0;
    while j < items.len()
        invariant
            0 <= j <= items@.len(),
            sorted@ == sort_ranked(items@.take(j as int)),
        decreases items@.len() - j,
    {
        proof {
            assert(items@.take(j as int + 1).drop_last() =~= items@.take(j as int));
            assert(items@.take(j as int + 1).last() == items@[j as int]);
        }
        insert_item(&mut sorted, items[j].clone());
        j = j + 1;
    }
    proof {
        assert(items@.take(items@.len() as int) =~= items@);
    }
    sorted
}

pub open spec fn source_field() -> spec_fn(IntelligenceItem) -> Seq<char> {
    |x: IntelligenceItem| x.source@
}

pub open spec fn type_field() -> spec_fn(IntelligenceItem) -> Seq<char> {
    |x: IntelligenceItem| x.source_type@
}

pub open spec fn level_field() -> spec_fn(IntelligenceItem) -> Seq<char> {
    |x: IntelligenceItem| x.credibility_level@
}

/// The values a field takes over the first `n` records of a topic.
pub open spec fn topic_values_upto(
    records: Seq<IntelligenceItemWithSecurity>,
    n: int,
    key: Seq<char>,
    field: spec_fn(IntelligenceItem) -> Seq<char>,
) -> Set<Seq<char>> {
    Set::new(
        |y: Seq<char>|
            exists|i: int|
                0 <= i < n && (#[trigger] records[i]).item.topic_key@ == key && field(records[i].item)
                    == y,
    )
}

/// The values a field takes over the records of a topic.
pub open spec fn topic_values(
    records: Seq<IntelligenceItemWithSecurity>,
    key: Seq<char>,
    field: spec_fn(IntelligenceItem) -> Seq<char>,
) -> Set<Seq<char>> {
    topic_values_upto(records, records.len() as int, key, field)
}

pub open spec fn is_topic_key(records: Seq<IntelligenceItemWithSecurity>, key: Seq<char>) -> bool {
    exists|i: int| 0 <= i < records.len() && (#[trigger] records[i]).item.topic_key@ == key
}

/// `t` describes a topic of the records: how many distinct sources speak of it, and its source
/// types and credibility levels, sorted and each once.
pub open spec fn topic_of(t: IntelligenceTopicView, records: Seq<IntelligenceItemWithSecurity>) -> bool {
    &&& is_topic_key(records, t.title@)
    &&& t.source_count == topic_values(records, t.title@, source_field()).len()
    &&& sorted_unique(views(t.source_types@))
    &&& views(t.source_types@).to_set() == topic_values(records, t.title@, type_field())
    &&& sorted_unique(views(t.credibility_levels@))
    &&& views(t.credibility_levels@).to_set() == topic_values(records, t.title@, level_field())
}

/// Topics with more sources first, then by title.
pub open spec fn topic_before(a: IntelligenceTopicView, b: IntelligenceTopicView) -> bool {
    a.source_count > b.source_count || (a.source_count == b.source_count && lex_lt(a.title@, b.title@))
}

pub open spec fn topics_sorted(ts: Seq<IntelligenceTopicView>) -> bool {
    forall|i: int, j: int| 0 <= i < j < ts.len() ==> topic_before(#[trigger] ts[i], #[trigger] ts[j])
}

/// `ts` lists every topic of the records once, in topic order.
pub open spec fn topics_of(ts: Seq<IntelligenceTopicView>, records: Seq<IntelligenceItemWithSecurity>) -> bool {
    &&& topics_sorted(ts)
    &&& forall|i: int| 0 <= i < ts.len() ==> topic_of(#[trigger] ts[i], records)
    &&& forall|k: int| 0 <= k < records.len() ==> has_topic(ts, (#[trigger] records[k]).item.topic_key@)
}

/// Some topic of the list has this title.
pub open spec fn has_topic(ts: Seq<IntelligenceTopicView>, key: Seq<char>) -> bool {
    exists|i: int| 0 <= i < ts.len() && (#[trigger] ts[i]).title@ == key
}

/// One of the first `j` keys is this title.
pub open spec fn key_among(keys: Seq<String>, j: int, title: Seq<char>) -> bool {
    exists|m: int| 0 <= m < j && (#[trigger] keys[m])@ == title
}

proof fn lemma_values_step(
    records: Seq<IntelligenceItemWithSecurity>,
    n: int,
    key: Seq<char>,
    field: spec_fn(IntelligenceItem) -> Seq<char>,
)
    requires
        0 <= n < records.len(),
    ensures
        forall|y: Seq<char>|
            #[trigger] topic_values_upto(records, n + 1, key, field).contains(y) <==> (
            topic_values_upto(records, n, key, field).contains(y) || (records[n].item.topic_key@ == key
                && field(records[n].item) == y)),
{
    assert forall|y: Seq<char>|
        #[trigger] topic_values_upto(records, n + 1, key, field).contains(y) <==> (topic_values_upto(
            records,
            n,
            key,
            field,
        ).contains(y) || (records[n].item.topic_key@ == key && field(records[n].item) == y)) by {
        if topic_values_upto(records, n + 1, key, field).contains(y) {
            let i = choose|i: int|
                0 <= i < n + 1 && (#[trigger] records[i]).item.topic_key@ == key && field(
                    records[i].item,
                ) == y;
            if i < n {
                assert(topic_values_upto(records, n, key, field).contains(y));
            }
        }
        if topic_values_upto(records, n, key, field).contains(y) {
            let i = choose|i: int|
                0 <= i < n && (#[trigger] records[i]).item.topic_key@ == key && field(records[i].item)
                    == y;
            assert(topic_values_upto(records, n + 1, key, field).contains(y));
        }
        if records[n].item.topic_key@ == key && field(records[n].item) == y {
            assert(topic_values_upto(records, n + 1, key, field).contains(y));
        }
    }
}

proof fn lemma_sorted_unique_no_dup(s: Seq<Seq<char>>)
    requires
        sorted_unique(s),
    ensures
        s.no_duplicates(),
{
    assert forall|i: int, j: int| 0 <= i < s.len() && 0 <= j < s.len() && i != j implies s[i] != s[j] by {
        if i < j {
            lemma_lex_asymmetric(s[i], s[j]);
        } else {
            lemma_lex_asymmetric(s[j], s[i]);
        }
    }
}

fn topic_view(records: &Vec<IntelligenceItemWithSecurity>, key: &String) -> (t: IntelligenceTopicView)
    requires
        is_topic_key(records@, key@),
    ensures
        t.title == *key,
        topic_of(t, records@),
{
    let mut sources: Vec<String> = Vec::new();
    let mut types: Vec<String> = Vec::new();
    let mut levels: Vec<String> = Vec::new();
    let mut i: usize = 0;
    while i < records.len()
        invariant
            0 <= i <= records@.len(),
            sorted_unique(views(sources@)),
            sorted_unique(views(types@)),
            sorted_unique(views(levels@)),
            forall|y: Seq<char>|
                #[trigger] views(sources@).contains(y) <==> topic_values_upto(
                    records@,
                    i as int,
                    key@,
                    source_field(),
                ).contains(y),
            forall|y: Seq<char>|
                #[trigger] views(types@).contains(y) <==> topic_values_upto(
                    records@,
                    i as int,
                    key@,
                    type_field(),
                ).contains(y),
            forall|y: Seq<char>|
                #[trigger] views(levels@).contains(y) <==> topic_values_upto(
                    records@,
                    i as int,
                    key@,
                    level_field(),
                ).contains(y),
        decreases records@.len() - i,
    {
        proof {
            lemma_values_step(records@, i as int, key@, source_field());
            lemma_values_step(records@, i as int, key@, type_field());
            lemma_values_step(records@, i as int, key@, level_field());
        }
        let x = &records[i].item;
        if str_eq(x.topic_key.as_str(), key.as_str()) {
            insert_sorted(&mut sources, x.source.clone());
            insert_sorted(&mut types, x.source_type.clone());
            insert_sorted(&mut levels, x.credibility_level.clone());
        }
        i = i + 1;
    }
    proof {
        assert(views(sources@).to_set() =~= topic_values(records@, key@, source_field()));
        assert(views(types@).to_set() =~= topic_values(records@, key@, type_field()));
        assert(views(levels@).to_set() =~= topic_values(records@, key@, level_field()));
        lemma_sorted_unique_no_dup(views(sources@));
        views(sources@).unique_seq_to_set();
    }
    IntelligenceTopicView {
        title: key.clone(),
        source_count: sources.len(),
        source_types: types,
        credibility_levels: levels,
    }
}

fn contains_string(v: &Vec<String>, s: &str) -> (r: bool)
    ensures
        r == views(v@).contains(s@),
{
    let mut i: usize = 0;
    while i < v.len()
        invariant
            0 <= i <= v@.len(),
            forall|k: int| 0 <= k < i ==> v@[k]@ != s@,
        decreases v@.len() - i,
    {
        if str_eq(v[i].as_str(), s) {
            proof {
                assert(views(v@)[i as int] == s@);
            }
            return true;
        }
        i = i + 1;
    }
    proof {
        if views(v@).contains(s@) {
            let k = choose|k: int| 0 <= k < views(v@).len() && views(v@)[k] == s@;
            assert(v@[k]@ == s@);
        }
    }
    false
}

/// The topic keys of the records, each once, in order of first appearance.
fn topic_keys(records: &Vec<IntelligenceItemWithSecurity>) -> (keys: Vec<String>)
    ensures
        views(keys@).no_duplicates(),
        forall|j: int| 0 <= j < keys@.len() ==> is_topic_key(records@, (#[trigger] keys@[j])@),
        forall|k: int|
            0 <= k < records@.len() ==> views(keys@).contains((#[trigger] records@[k]).item.topic_key@),
{
    let mut keys: Vec<String> = Vec::new();
    let mut i: usize = 0;
    while i < records.len()
        invariant
            0 <= i <= records@.len(),
            views(keys@).no_duplicates(),
            forall|j: int| 0 <= j < keys@.len() ==> is_topic_key(records@, (#[trigger] keys@[j])@),
            forall|k: int|
                0 <= k < i ==> views(keys@).contains((#[trigger] records@[k]).item.topic_key@),
        decreases records@.len() - i,
    {
        let key = &records[i].item.topic_key;
        if !contains_string(&keys, key.as_str()) {
            let ghost before = keys@;
            keys.push(key.clone());
            proof {
                assert(views(keys@) =~= views(before).push(key@));
                assert forall|k: int| 0 <= k <= i implies views(keys@).contains(
                    (#[trigger] records@[k]).item.topic_key@,
                ) by {
                    if k < i {
                        let m = choose|m: int|
                            0 <= m < views(before).len() && views(before)[m] == records@[k].item.topic_key@;
                        assert(views(keys@)[m] == records@[k].item.topic_key@);
                    } else {
                        assert(views(keys@)[before.len() as int] == key@);
                    }
                }
                assert forall|j: int| 0 <= j < keys@.len() implies is_topic_key(
                    records@,
                    (#[trigger] keys@[j])@,
                ) by {
                    if j < before.len() {
                        assert(keys@[j] == before[j]);
                    } else {
                        assert(records@[i as int].item.topic_key@ == keys@[j]@);
                    }
                }
            }
        }
        i = i + 1;
    }
    keys
}

proof fn lemma_topic_before_transitive(a: IntelligenceTopicView, b: IntelligenceTopicView, c: IntelligenceTopicView)
    requires
        topic_before(a, b),
        topic_before(b, c),
    ensures
        topic_before(a, c),
{
    if a.source_count == b.source_count && b.source_count == c.source_count {
        lemma_lex_transitive(a.title@, b.title@, c.title@);
    }
}

fn insert_topic(ts: &mut Vec<IntelligenceTopicView>, t: IntelligenceTopicView)
    requires
        topics_sorted(old(ts)@),
        forall|i: int| 0 <= i < old(ts)@.len() ==> (#[trigger] old(ts)@[i]).title@ != t.title@,
    ensures
        topics_sorted(final(ts)@),
        exists|p: int| 0 <= p <= old(ts)@.len() && final(ts)@ == old(ts)@.insert(p, t),
{
    let ghost s0 = ts@;
    let mut p: usize = 0;
    while p < ts.len()
        invariant
            0 <= p <= ts@.len(),
            ts@ == s0,
            forall|k: int| 0 <= k < p ==> topic_before(#[trigger] s0[k], t),
        ensures
            0 <= p <= ts@.len(),
            ts@ == s0,
            forall|k: int| 0 <= k < p ==> topic_before(#[trigger] s0[k], t),
            p < ts@.len() ==> !topic_before(s0[p as int], t),
        decreases ts@.len() - p,
    {
        let before = if ts[p].source_count != t.source_count {
            ts[p].source_count > t.source_count
        } else {
            lex_less(&chars_of(ts[p].title.as_str()), &chars_of(t.title.as_str()))
        };
        if !before {
            break;
        }
        p = p + 1;
    }
    proof {
        if p < s0.len() {
            lemma_lex_total(s0[p as int].title@, t.title@);
            assert(topic_before(t, s0[p as int]));
        }
    }
    ts.insert(p, t);
    proof {
        let n = ts@;
        assert(n == s0.insert(p as int, t));
        assert forall|i: int, j: int| 0 <= i < j < n.len() implies topic_before(
            #[trigger] n[i],
            #[trigger] n[j],
        ) by {
            if j < p {
                assert(n[i] == s0[i] && n[j] == s0[j]);
            } else if j == p {
                assert(n[i] == s0[i]);
            } else if i == p {
                assert(n[j] == s0[j - 1]);
                if j - 1 > p {
                    lemma_topic_before_transitive(t, s0[p as int], s0[j - 1]);
                }
            } else if i < p {
                assert(n[i] == s0[i] && n[j] == s0[j - 1]);
                if j - 1 == p {
                    lemma_topic_before_transitive(s0[i], t, s0[p as int]);
                } else {
                    assert(topic_before(s0[i], s0[j - 1]));
                }
            } else {
                assert(n[i] == s0[i - 1] && n[j] == s0[j - 1]);
            }
        }
    }
}

/// Every topic of the records with its sources, source types and credibility levels, in topic
/// order.
fn build_topics(records: &Vec<IntelligenceItemWithSecurity>) -> (r: Vec<IntelligenceTopicView>)
    ensures
        topics_of(r@, records@),
{
    let keys = topic_keys(records);
    let mut ts: Vec<IntelligenceTopicView> = Vec::new();
    let mut j: usize = 0;
    while j < keys.len()
        invariant
            0 <= j <= keys@.len(),
            views(keys@).no_duplicates(),
            forall|m: int| 0 <= m < keys@.len() ==> is_topic_key(records@, (#[trigger] keys@[m])@),
            topics_sorted(ts@),
            forall|i: int| 0 <= i < ts@.len() ==> topic_of(#[trigger] ts@[i], records@),
            forall|i: int| 0 <= i < ts@.len() ==> key_among(keys@, j as int, (#[trigger] ts@[i]).title@),
            forall|m: int| 0 <= m < j ==> has_topic(ts@, (#[trigger] keys@[m])@),
        decreases keys@.len() - j,
    {
        let t = topic_view(records, &keys[j]);
        let ghost s0 = ts@;
        proof {
            lemma_new_title(s0, keys@, j as int, t);
        }
        insert_topic(&mut ts, t);
        proof {
            lemma_topic_inserted(s0, ts@, keys@, j as int, t, records@);
        }
        j = j + 1;
    }
    proof {
        assert forall|k: int| 0 <= k < records@.len() implies has_topic(
            ts@,
            (#[trigger] records@[k]).item.topic_key@,
        ) by {
            let m = choose|m: int| 0 <= m < views(keys@).len() && views(keys@)[m] == records@[k].item.topic_key@;
            assert(keys@[m]@ == records@[k].item.topic_key@);
            assert(has_topic(ts@, keys@[m]@));
        }
    }
    ts
}

proof fn lemma_new_title(s0: Seq<IntelligenceTopicView>, keys: Seq<String>, j: int, t: IntelligenceTopicView)
    requires
        0 <= j < keys.len(),
        views(keys).no_duplicates(),
        t.title == keys[j],
        forall|i: int| 0 <= i < s0.len() ==> key_among(keys, j, (#[trigger] s0[i]).title@),
    ensures
        forall|i: int| 0 <= i < s0.len() ==> (#[trigger] s0[i]).title@ != t.title@,
{
    assert forall|i: int| 0 <= i < s0.len() implies (#[trigger] s0[i]).title@ != t.title@ by {
        assert(key_among(keys, j, s0[i].title@));
        let m = choose|m: int| 0 <= m < j && (#[trigger] keys[m])@ == s0[i].title@;
        assert(views(keys)[m] == keys[m]@);
        assert(views(keys)[j] == keys[j]@);
    }
}

proof fn lemma_topic_inserted(
    s0: Seq<IntelligenceTopicView>,
    s1: Seq<IntelligenceTopicView>,
    keys: Seq<String>,
    j: int,
    t: IntelligenceTopicView,
    records: Seq<IntelligenceItemWithSecurity>,
)
    requires
        0 <= j < keys.len(),
        t.title == keys[j],
        topic_of(t, records),
        exists|p: int| 0 <= p <= s0.len() && s1 == s0.insert(p, t),
        forall|i: int| 0 <= i < s0.len() ==> topic_of(#[trigger] s0[i], records),
        forall|i: int| 0 <= i < s0.len() ==> key_among(keys, j, (#[trigger] s0[i]).title@),
        forall|m: int| 0 <= m < j ==> has_topic(s0, (#[trigger] keys[m])@),
    ensures
        forall|i: int| 0 <= i < s1.len() ==> topic_of(#[trigger] s1[i], records),
        forall|i: int| 0 <= i < s1.len() ==> key_among(keys, j + 1, (#[trigger] s1[i]).title@),
        forall|m: int| 0 <= m < j + 1 ==> has_topic(s1, (#[trigger] keys[m])@),
{
    let p = choose|p: int| 0 <= p <= s0.len() && s1 == s0.insert(p, t);
    assert forall|i: int| 0 <= i < s1.len() implies topic_of(#[trigger] s1[i], records)
        && key_among(keys, j + 1, s1[i].title@) by {
        if i < p {
            assert(s1[i] == s0[i]);
            assert(key_among(keys, j, s0[i].title@));
            let m = choose|m: int| 0 <= m < j && (#[trigger] keys[m])@ == s0[i].title@;
            assert(keys[m]@ == s1[i].title@);
        } else if i > p {
            assert(s1[i] == s0[i - 1]);
            assert(key_among(keys, j, s0[i - 1].title@));
            let m = choose|m: int| 0 <= m < j && (#[trigger] keys[m])@ == s0[i - 1].title@;
            assert(keys[m]@ == s1[i].title@);
        } else {
            assert(s1[i] == t);
            assert(keys[j]@ == s1[i].title@);
        }
    }
    assert forall|m: int| 0 <= m < j + 1 implies has_topic(s1, (#[trigger] keys[m])@) by {
        if m < j {
            assert(has_topic(s0, keys[m]@));
            let i = choose|i: int| 0 <= i < s0.len() && (#[trigger] s0[i]).title@ == keys[m]@;
            if i < p {
                assert(s1[i] == s0[i]);
            } else {
                assert(s1[i + 1] == s0[i]);
            }
        } else {
            assert(s1[p] == t);
        }
    }
}

/// The first `n` elements, or all of them when there are fewer.
pub open spec fn first_n<A>(s: Seq<A>, n: int) -> Seq<A> {
    if s.len() <= n {
        s
    } else {
        s.take(n)
    }
}

pub open spec fn community_fn() -> spec_fn(IntelligenceItemWithSecurity) -> bool {
    |r: IntelligenceItemWithSecurity| is_community(r.item)
}

/// The summaries of the community and social records, in record order.
pub open spec fn community_summaries(records: Seq<IntelligenceItemWithSecurity>) -> Seq<Seq<char>> {
    records.filter(community_fn()).map_values(|r: IntelligenceItemWithSecurity| r.item.summary@)
}

/// Items that are rumours: credibility `E` or a rumour source.
pub open spec fn is_rumor(x: IntelligenceItem) -> bool {
    x.credibility_level@ == "E"@ || x.source_type@ == "RUMOR"@
}

pub open spec fn rumor_fn() -> spec_fn(IntelligenceItem) -> bool {
    |x: IntelligenceItem| is_rumor(x)
}

/// The deduplicated items of the records in listing order.
pub open spec fn listed_items(records: Seq<IntelligenceItemWithSecurity>) -> Seq<IntelligenceItem> {
    sort_ranked(dedup_items(records))
}

pub open spec fn views_of(vs: Seq<IntelligenceItemView>, xs: Seq<IntelligenceItem>) -> bool {
    &&& vs.len() == xs.len()
    &&& forall|k: int| 0 <= k < vs.len() ==> item_view_of(#[trigger] vs[k], xs[k])
}

pub open spec fn topic_titles(ts: Seq<IntelligenceTopicView>) -> Seq<Seq<char>> {
    ts.map_values(|t: IntelligenceTopicView| t.title@)
}

/// The one-line summary of a security's intelligence.
pub open spec fn summary_text(n: nat, topics: Seq<char>, direction: Seq<char>) -> Seq<char> {
    if n == 0 {
        "当前暂无值得关注的新情报。"@
    } else {
        "当前已聚合 "@ + nat_text(n) + " 条可追溯情报，核心主题为"@ + (if topics.len() == 0 {
            "暂无主题"@
        } else {
            topics
        }) + "；舆情方向为"@ + direction + "。"@
    }
}

/// `v` is the intelligence view of one security's records: identity from the first record, heat
/// and direction of the discussion, the first five topics, the eight most important items, the
/// first three community opinions, every rumour, and the summary line.
pub open spec fn security_view_of(v: SecurityIntelligenceView, records: Seq<IntelligenceItemWithSecurity>) -> bool {
    let items = listed_items(records);
    &&& v.security_id == (if records.len() > 0 {
        records[0].security_id
    } else {
        0
    })
    &&& v.security_name@ == (if records.len() > 0 {
        records[0].security_name@
    } else {
        "未确认标的"@
    })
    &&& v.security_symbol@ == (if records.len() > 0 {
        records[0].security_symbol@
    } else {
        Seq::empty()
    })
    &&& v.discussion_heat@ == heat_label(records.len() as int)
    &&& v.sentiment@ == sentiment_label(records)
    &&& views_of(v.important_items@, first_n(items, 8))
    &&& views(v.community_opinions@) == first_n(community_summaries(records), 3)
    &&& views_of(v.rumors@, items.filter(rumor_fn()))
    &&& exists|ts: Seq<IntelligenceTopicView>|
        topics_of(ts, records) && v.topics@ == first_n(ts, 5) && v.summary@ == summary_text(
            records.len(),
            join_spec(topic_titles(first_n(ts, 3)), "、"@),
            sentiment_label(records),
        )
}

/// The view of a followed security that has no intelligence.
pub open spec fn empty_view_of(v: SecurityIntelligenceView, id: i64, name: String, symbol: String) -> bool {
    &&& v.security_id == id
    &&& v.security_name == name
    &&& v.security_symbol == symbol
    &&& v.discussion_heat@ == "NO_DATA"@
    &&& v.sentiment@ == "暂无趋势判断"@
    &&& v.topics@.len() == 0
    &&& v.important_items@.len() == 0
    &&& v.community_opinions@.len() == 0
    &&& v.rumors@.len() == 0
    &&& v.summary@ == "当前暂无值得关注的新情报。"@
}

fn community_opinions(records: &Vec<IntelligenceItemWithSecurity>) -> (r: Vec<String>)
    ensures
        views(r@) == first_n(community_summaries(records@), 3),
{
    let ghost f = community_fn();
    let mut out: Vec<String> = Vec::new();
    let mut i: usize = 0;
    while i < records.len()
        invariant
            0 <= i <= records@.len(),
            f == community_fn(),
            views(out@) == first_n(community_summaries(records@.take(i as int)), 3),
        decreases records@.len() - i,
    {
        let ghost before = community_summaries(records@.take(i as int));
        proof {
            assert(records@.take(i as int + 1) =~= records@.take(i as int).push(records@[i as int]));
            lemma_filter_push(records@.take(i as int), records@[i as int], f);
            let fl = records@.take(i as int).filter(f);
            assert(fl.push(records@[i as int]).map_values(|r: IntelligenceItemWithSecurity| r.item.summary@)
                =~= fl.map_values(|r: IntelligenceItemWithSecurity| r.item.summary@).push(records@[i as int].item.summary@));
        }
        if is_community_exec(&records[i].item) {
            if out.len() < 3 {
                let ghost vo = views(out@);
                out.push(records[i].item.summary.clone());
                proof {
                    assert(views(out@) =~= vo.push(records@[i as int].item.summary@));
                }
            }
        }
        i = i + 1;
    }
    proof {
        assert(records@.take(records@.len() as int) =~= records@);
    }
    out
}

fn rumor_views(items: &Vec<IntelligenceItem>) -> (r: Vec<IntelligenceItemView>)
    ensures
        views_of(r@, items@.filter(rumor_fn())),
{
    let ghost f = rumor_fn();
    let mut out: Vec<IntelligenceItemView> = Vec::new();
    let mut i: usize = 0;
    while i < items.len()
        invariant
            0 <= i <= items@.len(),
            f == rumor_fn(),
            views_of(out@, items@.take(i as int).filter(f)),
        decreases items@.len() - i,
    {
        proof {
            assert(items@.take(i as int + 1) =~= items@.take(i as int).push(items@[i as int]));
            lemma_filter_push(items@.take(i as int), items@[i as int], f);
        }
        let x = &items[i];
        if str_eq(x.credibility_level.as_str(), "E") || str_eq(x.source_type.as_str(), "RUMOR") {
            let ghost before = out@;
            let ghost fl = items@.take(i as int).filter(f);
            out.push(item_view(x));
            proof {
                let nf = fl.push(items@[i as int]);
                assert forall|k: int| 0 <= k < out@.len() implies item_view_of(#[trigger] out@[k], nf[k]) by {
                    if k < before.len() {
                        assert(out@[k] == before[k]);
                        assert(nf[k] == fl[k]);
                    }
                }
            }
        }
        i = i + 1;
    }
    proof {
        assert(items@.take(items@.len() as int) =~= items@);
    }
    out
}

fn first_item_views(items: &Vec<IntelligenceItem>, n: usize) -> (r: Vec<IntelligenceItemView>)
    ensures
        views_of(r@, first_n(items@, n as int)),
{
    let mut out: Vec<IntelligenceItemView> = Vec::new();
    let mut i: usize = 0;
    while i < items.len() && i < n
        invariant
            0 <= i <= items@.len(),
            i <= n,
            out@.len() == i,
            forall|k: int| 0 <= k < i ==> item_view_of(#[trigger] out@[k], items@[k]),
        decreases items@.len() - i,
    {
        out.push(item_view(&items[i]));
        i = i + 1;
    }
    out
}

/// The titles of the first `n` topics.
fn first_titles(ts: &Vec<IntelligenceTopicView>, n: usize) -> (r: Vec<String>)
    ensures
        r@.map_values(|x: String| x@) == topic_titles(first_n(ts@, n as int)),
{
    let mut out: Vec<String> = Vec::new();
    let mut i: usize = 0;
    while i < ts.len() && i < n
        invariant
            0 <= i <= ts@.len(),
            i <= n,
            out@.len() == i,
            forall|k: int| 0 <= k < i ==> (#[trigger] out@[k])@ == ts@[k].title@,
        decreases ts@.len() - i,
    {
        out.push(ts[i].title.clone());
        i = i + 1;
    }
    proof {
        assert(out@.map_values(|x: String| x@) =~= topic_titles(first_n(ts@, n as int)));
    }
    out
}

fn summary_line(count: usize, topic_names: &str, direction: &str) -> (r: String)
    ensures
        r@ == summary_text(count as nat, topic_names@, direction@),
{
    if count == 0 {
        return String::from_str("当前暂无值得关注的新情报。");
    }
    let n = u64_text(count as u64);
    let mut out = String::from_str("当前已聚合 ");
    out.append(n.as_str());
    out.append(" 条可追溯情报，核心主题为");
    if chars_of(topic_names).len() == 0 {
        out.append("暂无主题");
    } else {
        out.append(topic_names);
    }
    out.append("；舆情方向为");
    out.append(direction);
    out.append("。");
    out
}

/// What a research run is told about one security: its topics, direction and heat, the
/// first-party facts (credibility `A` or `B`, at most five), community opinion and rumours, each
/// labelled for what it is.
#[derive(Debug)]
pub struct IntelligenceRunSummary {
    pub security_symbol: String,
    pub security_name: String,
    pub core_topics: Vec<IntelligenceTopicView>,
    pub market_sentiment: String,
    pub discussion_heat: String,
    pub verified_intelligence: Vec<IntelligenceItemView>,
    pub community_opinion: Vec<String>,
    pub rumors: Vec<IntelligenceItemView>,
}

pub open spec fn is_verified_view(v: IntelligenceItemView) -> bool {
    v.credibility_level@ == "A"@ || v.credibility_level@ == "B"@
}

pub open spec fn verified_fn() -> spec_fn(IntelligenceItemView) -> bool {
    |v: IntelligenceItemView| is_verified_view(v)
}

/// `r` summarizes the security view `v`.
pub open spec fn run_summary_of(r: IntelligenceRunSummary, v: SecurityIntelligenceView) -> bool {
    &&& r.security_symbol == v.security_symbol
    &&& r.security_name == v.security_name
    &&& r.core_topics == v.topics
    &&& r.market_sentiment == v.sentiment
    &&& r.discussion_heat == v.discussion_heat
    &&& r.verified_intelligence@ == first_n(v.important_items@.filter(verified_fn()), 5)
    &&& r.community_opinion == v.community_opinions
    &&& r.rumors == v.rumors
}

pub open spec fn security_fn(id: i64) -> spec_fn(IntelligenceItemWithSecurity) -> bool {
    |r: IntelligenceItemWithSecurity| r.security_id == id
}

/// The records linked to one security, in record order.
pub open spec fn group_of(records: Seq<IntelligenceItemWithSecurity>, id: i64) -> Seq<IntelligenceItemWithSecurity> {
    records.filter(security_fn(id))
}

/// An earlier watchlist entry has the same security.
pub open spec fn listed_earlier(watch: Seq<WatchlistItemData>, i: int) -> bool {
    exists|j: int| 0 <= j < i && (#[trigger] watch[j]).security_id == watch[i].security_id
}

/// `v` is the view of watchlist entry `i`: the records of its security (taken by its first entry
/// only), or the explicit empty state.
pub open spec fn watch_view_of(
    v: SecurityIntelligenceView,
    watch: Seq<WatchlistItemData>,
    i: int,
    records: Seq<IntelligenceItemWithSecurity>,
) -> bool {
    let w = watch[i];
    let g = if listed_earlier(watch, i) {
        Seq::empty()
    } else {
        group_of(records, w.security_id)
    };
    if g.len() == 0 {
        empty_view_of(v, w.security_id, w.name, w.symbol)
    } else {
        security_view_of(v, g)
    }
}

/// Hours from `now` to the event, truncated toward zero; `None` when its time cannot be read.
pub open spec fn event_hours(e: EventView, now: UtcTime) -> Option<int> {
    match rfc3339_parse(e.event_time@) {
        Some(t) => Some(whole_hours(t.instant() - now.instant())),
        None => None,
    }
}

/// `TimeDelta::num_hours` of a duration in nanoseconds: whole hours, truncated toward zero.
pub open spec fn whole_hours(d: int) -> int {
    if d >= 0 {
        d / 3_600_000_000_000
    } else {
        -((-d) / 3_600_000_000_000)
    }
}

/// The event falls in the coming week and within `limit` hours.
pub open spec fn in_window(e: EventView, now: UtcTime, limit: int) -> bool {
    match event_hours(e, now) {
        Some(h) => 0 <= h <= 168 && h <= limit,
        None => false,
    }
}

pub open spec fn window_fn(now: UtcTime, limit: int) -> spec_fn(EventView) -> bool {
    |e: EventView| in_window(e, now, limit)
}

/// First-party sources (announcements, exchanges, regulators) are `A`; other calendar sources
/// stay traceable at `C`.
pub open spec fn radar_credibility(source: Seq<char>) -> Seq<char> {
    if contains(source, "公告"@) || contains(source, "交易所"@) || contains(source, "监管"@) {
        "A"@
    } else {
        "C"@
    }
}

pub open spec fn radar_view_of(v: RadarEventView, e: EventView) -> bool {
    &&& v.id == e.id
    &&& v.event_type == e.event_type
    &&& v.title == e.title
    &&& v.event_time == e.event_time
    &&& v.timezone == e.timezone
    &&& v.source == e.source
    &&& v.source_url == e.source_url
    &&& v.related_security == e.related_security
    &&& v.credibility_level@ == radar_credibility(e.source@)
    &&& v.potential_impact@ == "UNCERTAIN"@
}

pub open spec fn radar_views(vs: Seq<RadarEventView>, es: Seq<EventView>) -> bool {
    &&& vs.len() == es.len()
    &&& forall|k: int| 0 <= k < vs.len() ==> radar_view_of(#[trigger] vs[k], es[k])
}

/// The radar at `now`: the events of the next day, three days and week, in input order.
pub open spec fn radar_of(r: MarketRadarView, events: Seq<EventView>, now: UtcTime) -> bool {
    &&& radar_views(r.next_24_hours@, events.filter(window_fn(now, 24)))
    &&& radar_views(r.next_3_days@, events.filter(window_fn(now, 72)))
    &&& radar_views(r.next_7_days@, events.filter(window_fn(now, 168)))
}

fn radar_view(e: &EventView) -> (r: RadarEventView)
    ensures
        radar_view_of(r, *e),
{
    let first_party = str_contains(e.source.as_str(), "公告") || str_contains(e.source.as_str(), "交易所")
        || str_contains(e.source.as_str(), "监管");
    RadarEventView {
        id: e.id,
        event_type: e.event_type.clone(),
        title: e.title.clone(),
        event_time: e.event_time.clone(),
        timezone: e.timezone.clone(),
        source: e.source.clone(),
        source_url: e.source_url.clone(),
        related_security: e.related_security.clone(),
        credibility_level: if first_party {
            String::from_str("A")
        } else {
            String::from_str("C")
        },
        potential_impact: String::from_str("UNCERTAIN"),
    }
}

fn hours_between(t: &UtcTime, now: &UtcTime) -> (r: i128)
    ensures
        r == whole_hours(t.instant() - now.instant()),
{
    let d = t.nanos_since(now);
    if d >= 0 {
        d / 3_600_000_000_000
    } else {
        -((-d) / 3_600_000_000_000)
    }
}

fn push_radar(out: &mut Vec<RadarEventView>, e: &EventView, keep: bool, es: Ghost<Seq<EventView>>)
    requires
        radar_views(old(out)@, es@),
    ensures
        radar_views(final(out)@, if keep {
            es@.push(*e)
        } else {
            es@
        }),
{
    if keep {
        let ghost before = out@;
        out.push(radar_view(e));
        proof {
            let ne = es@.push(*e);
            assert forall|k: int| 0 <= k < out@.len() implies radar_view_of(#[trigger] out@[k], ne[k]) by {
                if k < before.len() {
                    assert(out@[k] == before[k]);
                    assert(ne[k] == es@[k]);
                }
            }
        }
    }
}

proof fn lemma_merge_keeps_keys(d: Seq<IntelligenceItem>, x: IntelligenceItem, k: Seq<char>)
    requires
        has_key(d, k) || k == item_key(x),
    ensures
        has_key(merge_item(d, x), k),
{
    let m = merge_item(d, x);
    if has_key(d, item_key(x)) {
        let j = key_index(d, item_key(x));
        if x.importance_score > d[j].importance_score {
            if k == item_key(x) {
                assert(m[j] == x);
            } else {
                let i = choose|i: int| 0 <= i < d.len() && item_key(#[trigger] d[i]) == k;
                assert(i != j);
                assert(m[i] == d[i]);
            }
        } else if k == item_key(x) {
            assert(item_key(d[j]) == k);
        }
    } else {
        if k == item_key(x) {
            assert(m[d.len() as int] == x);
        } else {
            let i = choose|i: int| 0 <= i < d.len() && item_key(#[trigger] d[i]) == k;
            assert(m[i] == d[i]);
        }
    }
}

proof fn lemma_dedup_has_all_keys(s: Seq<IntelligenceItemWithSecurity>)
    ensures
        forall|k: int| 0 <= k < s.len() ==> has_key(dedup_items(s), item_key((#[trigger] s[k]).item)),
    decreases s.len(),
{
    if s.len() > 0 {
        let p = s.drop_last();
        lemma_dedup_has_all_keys(p);
        assert forall|k: int| 0 <= k < s.len() implies has_key(dedup_items(s), item_key((#[trigger] s[k]).item)) by {
            if k < p.len() {
                assert(s[k] == p[k]);
            }
            lemma_merge_keeps_keys(dedup_items(p), s.last().item, item_key(s[k].item));
        }
    }
}

proof fn lemma_insert_ranked_contains(x: IntelligenceItem, s: Seq<IntelligenceItem>)
    ensures
        forall|y: IntelligenceItem| #[trigger] insert_ranked(x, s).contains(y) <==> (s.contains(y) || y == x),
    decreases s.len(),
{
    if s.len() == 0 {
        assert(insert_ranked(x, s) =~= seq![x]);
        assert(insert_ranked(x, s)[0] == x);
    } else if ranks_before(x, s.last()) {
        let p = s.drop_last();
        lemma_insert_ranked_contains(x, p);
        let t = insert_ranked(x, p);
        assert forall|y: IntelligenceItem| #[trigger] insert_ranked(x, s).contains(y) <==> (s.contains(y) || y == x) by {
            if t.push(s.last()).contains(y) {
                let i = choose|i: int| 0 <= i < t.push(s.last()).len() && t.push(s.last())[i] == y;
                if i < t.len() {
                    assert(t.contains(y));
                    if p.contains(y) {
                        let q = choose|q: int| 0 <= q < p.len() && p[q] == y;
                        assert(s[q] == y);
                    }
                } else {
                    assert(s[s.len() - 1] == y);
                }
            }
            if s.contains(y) {
                let q = choose|q: int| 0 <= q < s.len() && s[q] == y;
                if q < p.len() {
                    assert(p[q] == y);
                    assert(t.contains(y));
                    let i = choose|i: int| 0 <= i < t.len() && t[i] == y;
                    assert(t.push(s.last())[i] == y);
                } else {
                    assert(t.push(s.last())[t.len() as int] == y);
                }
            }
            if y == x {
                assert(t.contains(x));
                let i = choose|i: int| 0 <= i < t.len() && t[i] == x;
                assert(t.push(s.last())[i] == x);
            }
        }
    } else {
        assert forall|y: IntelligenceItem| #[trigger] insert_ranked(x, s).contains(y) <==> (s.contains(y) || y == x) by {
            if s.push(x).contains(y) {
                let i = choose|i: int| 0 <= i < s.push(x).len() && s.push(x)[i] == y;
                if i < s.len() {
                    assert(s[i] == y);
                }
            }
            if s.contains(y) {
                let q = choose|q: int| 0 <= q < s.len() && s[q] == y;
                assert(s.push(x)[q] == y);
            }
            if y == x {
                assert(s.push(x)[s.len() as int] == x);
            }
        }
    }
}

proof fn lemma_sort_ranked_contains(s: Seq<IntelligenceItem>)
    ensures
        forall|y: IntelligenceItem| #[trigger] sort_ranked(s).contains(y) <==> s.contains(y),
    decreases s.len(),
{
    if s.len() > 0 {
        let p = s.drop_last();
        lemma_sort_ranked_contains(p);
        lemma_insert_ranked_contains(s.last(), sort_ranked(p));
        assert forall|y: IntelligenceItem| #[trigger] sort_ranked(s).contains(y) <==> s.contains(y) by {
            if p.contains(y) {
                let q = choose|q: int| 0 <= q < p.len() && p[q] == y;
                assert(s[q] == y);
            }
            if s.contains(y) {
                let q = choose|q: int| 0 <= q < s.len() && s[q] == y;
                if q < p.len() {
                    assert(p[q] == y);
                }
            }
        }
    }
}

/// Deduplication merges only items of one source with one identity: every source's item about
/// every matter stays in the listing, so a first-party confirmation never hides a rumour.
pub proof fn law_independent_sources_stay_listed(records: Seq<IntelligenceItemWithSecurity>)
    ensures
        forall|k: int|
            0 <= k < records.len() ==> has_key(listed_items(records), item_key((#[trigger] records[k]).item)),
{
    lemma_dedup_has_all_keys(records);
    let d = dedup_items(records);
    lemma_sort_ranked_contains(d);
    assert forall|k: int| 0 <= k < records.len() implies has_key(
        listed_items(records),
        item_key((#[trigger] records[k]).item),
    ) by {
        let key = item_key(records[k].item);
        let j = choose|j: int| 0 <= j < d.len() && item_key(#[trigger] d[j]) == key;
        assert(d.contains(d[j]));
        assert(listed_items(records).contains(d[j]));
        let i = choose|i: int| 0 <= i < listed_items(records).len() && listed_items(records)[i] == d[j];
        assert(item_key(listed_items(records)[i]) == key);
    }
}

/// No item of the sequence ranks before one that stands ahead of it.
pub open spec fn ranked_in_order(s: Seq<IntelligenceItem>) -> bool {
    forall|i: int, j: int| 0 <= i < j < s.len() ==> !ranks_before(#[trigger] s[j], #[trigger] s[i])
}

proof fn lemma_rank_order(a: IntelligenceItem, b: IntelligenceItem, c: IntelligenceItem)
    ensures
        ranks_before(a, b) ==> !ranks_before(b, a),
        !ranks_before(a, b) && !ranks_before(b, c) ==> !ranks_before(a, c),
{
    lemma_lex_asymmetric(a.published_at@, b.published_at@);
    if !ranks_before(a, b) && !ranks_before(b, c) && a.importance_score == c.importance_score {
        lemma_lex_total(a.published_at@, b.published_at@);
        lemma_lex_total(b.published_at@, c.published_at@);
        lemma_lex_asymmetric(a.published_at@, c.published_at@);
        if lex_lt(a.published_at@, b.published_at@) && lex_lt(b.published_at@, c.published_at@) {
            lemma_lex_transitive(a.published_at@, b.published_at@, c.published_at@);
        }
    }
}

proof fn lemma_insert_ranked_orders(x: IntelligenceItem, s: Seq<IntelligenceItem>)
    requires
        ranked_in_order(s),
    ensures
        ranked_in_order(insert_ranked(x, s)),
    decreases s.len(),
{
    if s.len() == 0 {
        assert(insert_ranked(x, s) =~= seq![x]);
    } else {
        let l = s.last();
        let d = s.drop_last();
        if ranks_before(x, l) {
            assert(ranked_in_order(d));
            lemma_insert_ranked_orders(x, d);
            lemma_insert_ranked_contains(x, d);
            let r = insert_ranked(x, d);
            assert forall|i: int, j: int| 0 <= i < j < r.push(l).len() implies !ranks_before(
                #[trigger] r.push(l)[j],
                #[trigger] r.push(l)[i],
            ) by {
                if j == r.len() {
                    let e = r[i];
                    assert(r.contains(e));
                    if e == x {
                        lemma_rank_order(x, l, x);
                    } else {
                        assert(d.contains(e));
                        let k = choose|k: int| 0 <= k < d.len() && d[k] == e;
                        assert(s[k] == e && s[s.len() - 1] == l);
                    }
                } else {
                    assert(r.push(l)[j] == r[j] && r.push(l)[i] == r[i]);
                }
            }
        } else {
            assert forall|i: int, j: int| 0 <= i < j < s.push(x).len() implies !ranks_before(
                #[trigger] s.push(x)[j],
                #[trigger] s.push(x)[i],
            ) by {
                if j == s.len() {
                    if i < s.len() - 1 {
                        assert(s[s.len() - 1] == l);
                        lemma_rank_order(x, l, s[i]);
                    }
                } else {
                    assert(s.push(x)[j] == s[j] && s.push(x)[i] == s[i]);
                }
            }
        }
    }
}

proof fn lemma_insert_ranked_unique(x: IntelligenceItem, s: Seq<IntelligenceItem>)
    requires
        keys_unique(s),
        !has_key(s, item_key(x)),
    ensures
        keys_unique(insert_ranked(x, s)),
        forall|k: Seq<char>| #[trigger] has_key(insert_ranked(x, s), k) <==> (has_key(s, k) || k == item_key(x)),
    decreases s.len(),
{
    if s.len() == 0 {
        assert(insert_ranked(x, s) =~= seq![x]);
        assert forall|k: Seq<char>| #[trigger] has_key(insert_ranked(x, s), k) <==> (has_key(s, k) || k
            == item_key(x)) by {
            if k == item_key(x) {
                assert(item_key(insert_ranked(x, s)[0]) == k);
            }
        }
    } else {
        let l = s.last();
        let d = s.drop_last();
        assert forall|i: int| 0 <= i < d.len() implies #[trigger] d[i] == s[i] by {}
        if ranks_before(x, l) {
            assert(keys_unique(d));
            assert(!has_key(d, item_key(x))) by {
                if has_key(d, item_key(x)) {
                    let j = choose|j: int| 0 <= j < d.len() && item_key(#[trigger] d[j]) == item_key(x);
                    assert(item_key(s[j]) == item_key(x));
                }
            }
            lemma_insert_ranked_unique(x, d);
            let r = insert_ranked(x, d);
            assert(item_key(s[s.len() - 1]) != item_key(x));
            assert(!has_key(d, item_key(l))) by {
                if has_key(d, item_key(l)) {
                    let j = choose|j: int| 0 <= j < d.len() && item_key(#[trigger] d[j]) == item_key(l);
                    assert(item_key(s[j]) == item_key(s[s.len() - 1]));
                }
            }
            assert(!has_key(r, item_key(l)));
            assert(insert_ranked(x, s) == r.push(l));
            assert forall|a: int, b: int| 0 <= a < b < r.push(l).len() implies item_key(
                #[trigger] r.push(l)[a],
            ) != item_key(#[trigger] r.push(l)[b]) by {
                if b == r.len() {
                    assert(r.push(l)[a] == r[a]);
                } else {
                    assert(r.push(l)[a] == r[a] && r.push(l)[b] == r[b]);
                }
            }
            assert forall|k: Seq<char>| #[trigger] has_key(r.push(l), k) <==> (has_key(s, k) || k
                == item_key(x)) by {
                if has_key(r.push(l), k) {
                    let j = choose|j: int| 0 <= j < r.push(l).len() && item_key(#[trigger] r.push(l)[j]) == k;
                    if j < r.len() {
                        assert(r.push(l)[j] == r[j]);
                        assert(has_key(r, k));
                        if has_key(d, k) {
                            let q = choose|q: int| 0 <= q < d.len() && item_key(#[trigger] d[q]) == k;
                            assert(item_key(s[q]) == k);
                        }
                    } else {
                        assert(item_key(s[s.len() - 1]) == k);
                    }
                }
                if has_key(s, k) {
                    let j = choose|j: int| 0 <= j < s.len() && item_key(#[trigger] s[j]) == k;
                    if j < d.len() {
                        assert(item_key(d[j]) == k);
                        assert(has_key(r, k));
                        let q = choose|q: int| 0 <= q < r.len() && item_key(#[trigger] r[q]) == k;
                        assert(r.push(l)[q] == r[q]);
                    } else {
                        assert(item_key(r.push(l)[r.len() as int]) == k);
                    }
                }
                if k == item_key(x) {
                    assert(has_key(r, k));
                    let q = choose|q: int| 0 <= q < r.len() && item_key(#[trigger] r[q]) == k;
                    assert(r.push(l)[q] == r[q]);
                }
            }
        } else {
            assert(insert_ranked(x, s) == s.push(x));
            assert forall|a: int, b: int| 0 <= a < b < s.push(x).len() implies item_key(
                #[trigger] s.push(x)[a],
            ) != item_key(#[trigger] s.push(x)[b]) by {
                if b == s.len() {
                    assert(s.push(x)[a] == s[a]);
                } else {
                    assert(s.push(x)[a] == s[a] && s.push(x)[b] == s[b]);
                }
            }
            assert forall|k: Seq<char>| #[trigger] has_key(s.push(x), k) <==> (has_key(s, k) || k
                == item_key(x)) by {
                if has_key(s.push(x), k) {
                    let j = choose|j: int| 0 <= j < s.push(x).len() && item_key(#[trigger] s.push(x)[j]) == k;
                    if j < s.len() {
                        assert(s.push(x)[j] == s[j]);
                    }
                }
                if has_key(s, k) {
                    let j = choose|j: int| 0 <= j < s.len() && item_key(#[trigger] s[j]) == k;
                    assert(s.push(x)[j] == s[j]);
                }
                if k == item_key(x) {
                    assert(item_key(s.push(x)[s.len() as int]) == k);
                }
            }
        }
    }
}

proof fn lemma_sort_ranked_unique_and_ordered(s: Seq<IntelligenceItem>)
    requires
        keys_unique(s),
    ensures
        keys_unique(sort_ranked(s)),
        ranked_in_order(sort_ranked(s)),
        forall|k: Seq<char>| #[trigger] has_key(sort_ranked(s), k) <==> has_key(s, k),
    decreases s.len(),
{
    if s.len() > 0 {
        let d = s.drop_last();
        let l = s.last();
        assert forall|i: int| 0 <= i < d.len() implies #[trigger] d[i] == s[i] by {}
        assert(keys_unique(d));
        lemma_sort_ranked_unique_and_ordered(d);
        assert(!has_key(d, item_key(l))) by {
            if has_key(d, item_key(l)) {
                let j = choose|j: int| 0 <= j < d.len() && item_key(#[trigger] d[j]) == item_key(l);
                assert(item_key(s[j]) == item_key(s[s.len() - 1]));
            }
        }
        assert(!has_key(sort_ranked(d), item_key(l)));
        lemma_insert_ranked_unique(l, sort_ranked(d));
        lemma_insert_ranked_orders(l, sort_ranked(d));
        assert forall|k: Seq<char>| #[trigger] has_key(sort_ranked(s), k) <==> has_key(s, k) by {
            assert(has_key(sort_ranked(s), k) <==> (has_key(sort_ranked(d), k) || k == item_key(l)));
            if has_key(d, k) {
                let j = choose|j: int| 0 <= j < d.len() && item_key(#[trigger] d[j]) == k;
                assert(item_key(s[j]) == k);
            }
            if has_key(s, k) {
                let j = choose|j: int| 0 <= j < s.len() && item_key(#[trigger] s[j]) == k;
                if j < d.len() {
                    assert(item_key(d[j]) == k);
                }
            }
            if k == item_key(l) {
                assert(item_key(s[s.len() - 1]) == k);
            }
        }
    } else {
        assert(sort_ranked(s) == s);
    }
}

proof fn lemma_dedup_keys_unique(s: Seq<IntelligenceItemWithSecurity>)
    ensures
        keys_unique(dedup_items(s)),
    decreases s.len(),
{
    if s.len() > 0 {
        let p = s.drop_last();
        lemma_dedup_keys_unique(p);
        let d0 = dedup_items(p);
        let x = s.last().item;
        let d = dedup_items(s);
        assert(d == merge_item(d0, x));
        if has_key(d0, item_key(x)) {
            let j = key_index(d0, item_key(x));
            if x.importance_score > d0[j].importance_score {
                assert forall|a: int, b: int| 0 <= a < b < d.len() implies item_key(#[trigger] d[a]) != item_key(
                    #[trigger] d[b],
                ) by {
                    if a != j && b != j {
                        assert(d[a] == d0[a] && d[b] == d0[b]);
                    } else if a == j {
                        assert(d[b] == d0[b]);
                        assert(item_key(d0[j]) != item_key(d0[b]));
                    } else {
                        assert(d[a] == d0[a]);
                        assert(item_key(d0[a]) != item_key(d0[j]));
                    }
                }
            }
        } else {
            assert forall|a: int, b: int| 0 <= a < b < d.len() implies item_key(#[trigger] d[a]) != item_key(
                #[trigger] d[b],
            ) by {
                assert(d[a] == d0[a]);
                if b < d0.len() {
                    assert(d[b] == d0[b]);
                } else {
                    assert(d[b] == x);
                    assert(!(0 <= a < d0.len() && item_key(d0[a]) == item_key(x)));
                }
            }
        }
    }
}

/// The intelligence listing holds exactly one item for each identity (the matter's key and its
/// source) found among the records, more important items first, and of equal importance the
/// later publication first.
pub proof fn law_listing_has_one_ranked_item_per_identity(records: Seq<IntelligenceItemWithSecurity>)
    ensures
        keys_unique(listed_items(records)),
        ranked_in_order(listed_items(records)),
        forall|k: int|
            0 <= k < records.len() ==> has_key(listed_items(records), item_key((#[trigger] records[k]).item)),
{
    lemma_dedup_keys_unique(records);
    lemma_sort_ranked_unique_and_ordered(dedup_items(records));
    law_independent_sources_stay_listed(records);
}

/// The facts handed to a research run are first-party only: community posts and rumours never
/// appear among them.
pub proof fn law_run_facts_are_first_party(r: IntelligenceRunSummary, v: SecurityIntelligenceView)
    requires
        run_summary_of(r, v),
    ensures
        forall|k: int| 0 <= k < r.verified_intelligence@.len() ==> is_verified_view(
            #[trigger] r.verified_intelligence@[k],
        ),
{
    let f = v.important_items@.filter(verified_fn());
    assert forall|k: int| 0 <= k < r.verified_intelligence@.len() implies is_verified_view(
        #[trigger] r.verified_intelligence@[k],
    ) by {
        assert(r.verified_intelligence@[k] == f[k]);
        v.important_items@.lemma_filter_pred(verified_fn(), k);
    }
}

pub struct IntelligenceService;

impl IntelligenceService {
    /// What storing `input` takes: refused without a title, a summary or a linked security;
    /// otherwise the record with its identity, topic and importance, the securities to link, and
    /// whether matching rumours become partially confirmed.
    pub fn plan_ingest(input: IntelligenceInput) -> (r: Result<IngestPlan, IntelligenceServiceError>)
        ensures
            ingest_refused(input) ==> r == Err::<IngestPlan, IntelligenceServiceError>(
                IntelligenceServiceError::Validation("情报缺少标题、摘要或关联证券"),
            ),
            !ingest_refused(input) ==> (r matches Ok(p) && new_item_of(p.item, input)
                && p.security_ids@ == input.security_ids@ && p.confirms_rumors
                == confirms_rumors_spec(input.source_type, input.credibility_level)),
    {
        if is_blank(input.title.as_str()) || is_blank(input.summary.as_str())
            || input.security_ids.len() == 0 {
            return Err(IntelligenceServiceError::Validation("情报缺少标题、摘要或关联证券"));
        }
        let key = dedup_key(&input);
        let topic = topic_key(input.title.as_str());
        let confirms = match input.source_type {
            IntelligenceSourceType::Official | IntelligenceSourceType::News => match input.credibility_level {
                CredibilityLevel::A | CredibilityLevel::B => true,
                _ => false,
            },
            _ => false,
        };
        let source_type = String::from_str(input.source_type.as_str());
        let credibility = String::from_str(input.credibility_level.as_str());
        let score = input.credibility_level.score();
        let security_ids = input.security_ids;
        Ok(
            IngestPlan {
                item: NewIntelligenceItem {
                    title: input.title,
                    summary: input.summary,
                    source: input.source,
                    source_type,
                    source_url: input.source_url,
                    published_at: input.published_at,
                    fetched_at: input.fetched_at,
                    credibility_level: credibility,
                    intelligence_type: input.intelligence_type,
                    dedup_key: key,
                    topic_key: topic,
                    importance_score: score,
                    heat_score: 1,
                    status: input.status,
                },
                security_ids,
                confirms_rumors: confirms,
            },
        )
    }

    /// The explicit empty state of a followed security without intelligence.
    pub fn empty_security_view(security_id: i64, security_name: String, security_symbol: String) -> (r:
        SecurityIntelligenceView)
        ensures
            empty_view_of(r, security_id, security_name, security_symbol),
    {
        SecurityIntelligenceView {
            security_id,
            security_name,
            security_symbol,
            discussion_heat: String::from_str("NO_DATA"),
            sentiment: String::from_str("暂无趋势判断"),
            topics: Vec::new(),
            important_items: Vec::new(),
            community_opinions: Vec::new(),
            rumors: Vec::new(),
            summary: String::from_str("当前暂无值得关注的新情报。"),
        }
    }

    /// The intelligence view of one security's records.
    pub fn build_security_view(records: Vec<IntelligenceItemWithSecurity>) -> (v: SecurityIntelligenceView)
        ensures
            security_view_of(v, records@),
    {
        let security_id = if records.len() > 0 {
            records[0].security_id
        } else {
            0
        };
        let security_name = if records.len() > 0 {
            records[0].security_name.clone()
        } else {
            String::from_str("未确认标的")
        };
        let security_symbol = if records.len() > 0 {
            records[0].security_symbol.clone()
        } else {
            String::new()
        };
        let deduped = dedup_records(&records);
        let items = sort_items(deduped);
        let mut topics = build_topics(&records);
        let opinions = community_opinions(&records);
        let rumors = rumor_views(&items);
        let direction = sentiment(&records);
        let discussion_heat = heat(records.len());
        let names = first_titles(&topics, 3);
        let joined = join_strings(&names, "、");
        let summary = summary_line(records.len(), joined.as_str(), direction.as_str());
        let important_items = first_item_views(&items, 8);
        let ghost all_topics = topics@;
        topics.truncate(5);
        proof {
            if all_topics.len() > 5 {
                assert(all_topics.subrange(0, 5) =~= all_topics.take(5));
            }
            assert(joined@ == join_spec(topic_titles(first_n(all_topics, 3)), "、"@));
            assert(topics_of(all_topics, records@) && topics@ == first_n(all_topics, 5) && summary@
                == summary_text(
                records@.len(),
                join_spec(topic_titles(first_n(all_topics, 3)), "、"@),
                sentiment_label(records@),
            ));
        }
        SecurityIntelligenceView {
            security_id,
            security_name,
            security_symbol,
            discussion_heat,
            sentiment: direction,
            topics,
            important_items,
            community_opinions: opinions,
            rumors,
            summary,
        }
    }

    /// The records of one security, in record order.
    fn group_for(records: &Vec<IntelligenceItemWithSecurity>, id: i64) -> (r: Vec<IntelligenceItemWithSecurity>)
        ensures
            r@ == group_of(records@, id),
    {
        let ghost f = security_fn(id);
        let mut out: Vec<IntelligenceItemWithSecurity> = Vec::new();
        let mut i: usize = 0;
        while i < records.len()
            invariant
                0 <= i <= records@.len(),
                f == security_fn(id),
                out@ == records@.take(i as int).filter(f),
            decreases records@.len() - i,
        {
            proof {
                assert(records@.take(i as int + 1) =~= records@.take(i as int).push(records@[i as int]));
                lemma_filter_push(records@.take(i as int), records@[i as int], f);
            }
            if records[i].security_id == id {
                out.push(records[i].clone());
            }
            i = i + 1;
        }
        proof {
            assert(records@.take(records@.len() as int) =~= records@);
        }
        out
    }

    /// The intelligence of every followed security, in watchlist order; a security without
    /// intelligence keeps its place with the explicit empty state. The optional community source
    /// is reported as unavailable.
    pub fn followed_view(watch: &Vec<WatchlistItemData>, records: &Vec<IntelligenceItemWithSecurity>) -> (r:
        MarketIntelligenceView)
        ensures
            r.securities@.len() == watch@.len(),
            forall|i: int| 0 <= i < watch@.len() ==> watch_view_of(#[trigger] r.securities@[i], watch@, i, records@),
            views(r.partial_unavailable_sources@) == seq!["社区舆情 Provider 未配置"@],
    {
        let mut out: Vec<SecurityIntelligenceView> = Vec::new();
        let mut i: usize = 0;
        while i < watch.len()
            invariant
                0 <= i <= watch@.len(),
                out@.len() == i,
                forall|k: int| 0 <= k < i ==> watch_view_of(#[trigger] out@[k], watch@, k, records@),
            decreases watch@.len() - i,
        {
            let w = &watch[i];
            let mut earlier = false;
            let mut j: usize = 0;
            while j < i
                invariant
                    0 <= j <= i < watch@.len(),
                    w == watch@[i as int],
                    earlier == (exists|m: int| 0 <= m < j && (#[trigger] watch@[m]).security_id == watch@[i as int].security_id),
                decreases i - j,
            {
                if watch[j].security_id == w.security_id {
                    earlier = true;
                }
                j = j + 1;
            }
            let group = if earlier {
                Vec::new()
            } else {
                Self::group_for(records, w.security_id)
            };
            let view = if group.len() == 0 {
                Self::empty_security_view(w.security_id, w.name.clone(), w.symbol.clone())
            } else {
                Self::build_security_view(group)
            };
            let ghost before = out@;
            out.push(view);
            proof {
                assert forall|k: int| 0 <= k < i + 1 implies watch_view_of(#[trigger] out@[k], watch@, k, records@) by {
                    if k < i {
                        assert(out@[k] == before[k]);
                    }
                }
            }
            i = i + 1;
        }
        let mut sources: Vec<String> = Vec::new();
        sources.push(String::from_str("社区舆情 Provider 未配置"));
        proof {
            assert(views(sources@) =~= seq!["社区舆情 Provider 未配置"@]);
        }
        MarketIntelligenceView { securities: out, partial_unavailable_sources: sources }
    }

    /// The run summary of a security view.
    pub fn summary_of_view(view: SecurityIntelligenceView) -> (r: IntelligenceRunSummary)
        ensures
            run_summary_of(r, view),
    {
        let ghost f = verified_fn();
        let mut verified: Vec<IntelligenceItemView> = Vec::new();
        let mut i: usize = 0;
        while i < view.important_items.len()
            invariant
                0 <= i <= view.important_items@.len(),
                f == verified_fn(),
                verified@ == first_n(view.important_items@.take(i as int).filter(f), 5),
            decreases view.important_items@.len() - i,
        {
            proof {
                assert(view.important_items@.take(i as int + 1) =~= view.important_items@.take(i as int).push(
                    view.important_items@[i as int],
                ));
                lemma_filter_push(view.important_items@.take(i as int), view.important_items@[i as int], f);
            }
            let x = &view.important_items[i];
            if str_eq(x.credibility_level.as_str(), "A") || str_eq(x.credibility_level.as_str(), "B") {
                if verified.len() < 5 {
                    verified.push(x.clone());
                }
            }
            i = i + 1;
        }
        proof {
            assert(view.important_items@.take(view.important_items@.len() as int) =~= view.important_items@);
        }
        IntelligenceRunSummary {
            security_symbol: view.security_symbol,
            security_name: view.security_name,
            core_topics: view.topics,
            market_sentiment: view.sentiment,
            discussion_heat: view.discussion_heat,
            verified_intelligence: verified,
            community_opinion: view.community_opinions,
            rumors: view.rumors,
        }
    }

    /// The run summary of one security's records.
    pub fn summary_for_records(records: Vec<IntelligenceItemWithSecurity>) -> (r: IntelligenceRunSummary)
        ensures
            exists|v: SecurityIntelligenceView| security_view_of(v, records@) && run_summary_of(r, v),
    {
        let view = Self::build_security_view(records);
        let ghost v = view;
        let r = Self::summary_of_view(view);
        proof {
            assert(security_view_of(v, records@) && run_summary_of(r, v));
        }
        r
    }

    /// The market radar at `now`.
    pub fn market_radar_at(events: Vec<EventView>, now: UtcTime) -> (r: MarketRadarView)
        ensures
            radar_of(r, events@, now),
    {
        let ghost f1 = window_fn(now, 24);
        let ghost f3 = window_fn(now, 72);
        let ghost f7 = window_fn(now, 168);
        let mut day1: Vec<RadarEventView> = Vec::new();
        let mut day3: Vec<RadarEventView> = Vec::new();
        let mut day7: Vec<RadarEventView> = Vec::new();
        let mut i: usize = 0;
        while i < events.len()
            invariant
                0 <= i <= events@.len(),
                f1 == window_fn(now, 24),
                f3 == window_fn(now, 72),
                f7 == window_fn(now, 168),
                radar_views(day1@, events@.take(i as int).filter(f1)),
                radar_views(day3@, events@.take(i as int).filter(f3)),
                radar_views(day7@, events@.take(i as int).filter(f7)),
            decreases events@.len() - i,
        {
            let e = &events[i];
            proof {
                assert(events@.take(i as int + 1) =~= events@.take(i as int).push(events@[i as int]));
                lemma_filter_push(events@.take(i as int), events@[i as int], f1);
                lemma_filter_push(events@.take(i as int), events@[i as int], f3);
                lemma_filter_push(events@.take(i as int), events@[i as int], f7);
            }
            let (k1, k3, k7) = match parse_rfc3339(e.event_time.as_str()) {
                Some(t) => {
                    let h = hours_between(&t, &now);
                    let week = 0 <= h && h <= 168;
                    (week && h <= 24, week && h <= 72, week)
                },
                None => (false, false, false),
            };
            push_radar(&mut day1, e, k1, Ghost(events@.take(i as int).filter(f1)));
            push_radar(&mut day3, e, k3, Ghost(events@.take(i as int).filter(f3)));
            push_radar(&mut day7, e, k7, Ghost(events@.take(i as int).filter(f7)));
            i = i + 1;
        }
        proof {
            assert(events@.take(events@.len() as int) =~= events@);
        }
        MarketRadarView { next_24_hours: day1, next_3_days: day3, next_7_days: day7 }
    }

    /// The market radar now: what `market_radar_at` gives for the current time.
    pub fn market_radar(events: Vec<EventView>) -> (r: MarketRadarView)
        ensures
            exists|now: UtcTime| now.valid() && radar_of(r, events@, now),
    {
        let now = now_utc();
        Self::market_radar_at(events, now)
    }

    /// The intelligence input of a news article linked to a security; `None` when it is linked to
    /// none.
    pub fn from_news_input(input: &NewsArticleInput) -> (r: Option<IntelligenceInput>)
        ensures
            match input.related_security_id {
                None => r is None,
                Some(id) => r matches Some(v) && news_intelligence_of(v, *input, id),
            },
    {
        let security_id = match input.related_security_id {
            Some(id) => id,
            None => return None,
        };
        let mut ids: Vec<i64> = Vec::new();
        ids.push(security_id);
        proof {
            assert(ids@ =~= seq![security_id]);
        }
        let (source_type, credibility) = match input.source_type {
            NewsSourceType::Official => (IntelligenceSourceType::Official, CredibilityLevel::A),
            NewsSourceType::Media => (IntelligenceSourceType::News, CredibilityLevel::B),
            NewsSourceType::Community => (IntelligenceSourceType::Community, CredibilityLevel::D),
        };
        Some(
            IntelligenceInput {
                title: input.title.clone(),
                summary: input.summary.clone(),
                source: input.source.clone(),
                source_type,
                source_url: Some(input.url.clone()),
                published_at: input.published_at.clone(),
                fetched_at: input.fetch_time.clone(),
                credibility_level: credibility,
                intelligence_type: String::from_str("DISCLOSURE"),
                security_ids: ids,
                status: String::from_str("ACTIVE"),
            },
        )
    }
}

} // verus!
