//! Public Eastmoney announcements, read during an explicit manual refresh.
//!
//! The source's disclosure title, display time and canonical detail link are preserved. A failed
//! request is an adapter error; callers then show `NO_DATA` instead of manufacturing news.
use vstd::prelude::*;

use crate::events::{EventInput, EventStatus, EventType};
use crate::market::MarketSecurity;
use crate::news::{NewsArticleInput, NewsSourceType};
use crate::text::{all_ascii_digits, all_digits, chars_of, nat_text, parse_u16, u16_value, concat2, contains, is_blank, str_contains, str_eq, trim, trim_str};
use crate::time::{parse_rfc3339, rfc3339_millis_text, rfc3339_parse, UtcTime};

verus! {

#[derive(Debug, Clone)]
pub struct DisclosureSecurity {
    pub id: i64,
    pub symbol: String,
    pub name: String,
}

impl DisclosureSecurity {
    /// The disclosure view of a market security.
    pub fn from_market(value: &MarketSecurity) -> (r: Self)
        ensures
            r.id == value.security_id,
            r.symbol == value.symbol,
            r.name == value.name,
    {
        DisclosureSecurity {
            id: value.security_id,
            symbol: value.symbol.clone(),
            name: value.name.clone(),
        }
    }
}

#[derive(Debug)]
pub struct DisclosureAdapterError {
    pub message: String,
}

/// One announcement of the list response, as the source wrote it.
#[derive(Debug, Clone)]
pub struct Announcement {
    pub art_code: String,
    pub codes: Vec<String>,
    pub display_time: String,
    pub title: String,
}

/// The announcement list response: its success flag and its items.
#[derive(Debug, Clone)]
pub struct AnnouncementResponse {
    pub success: i64,
    pub list: Vec<Announcement>,
}

/// The transport that fetches and reads one announcement list; a body that is not an
/// announcement list is its error.
pub trait AnnouncementTransport {
    fn fetch(&self, url: &str) -> Result<AnnouncementResponse, DisclosureAdapterError>;
}

#[derive(Debug)]
pub struct Disclosure {
    pub security: DisclosureSecurity,
    pub title: String,
    pub published_at: UtcTime,
    pub fetched_at: UtcTime,
    pub url: String,
}

/// The first position of `c`, if any.
pub open spec fn first_index(s: Seq<char>, c: char) -> Option<int>
    decreases s.len(),
{
    if s.len() == 0 {
        None
    } else {
        match first_index(s.drop_last(), c) {
            Some(i) => Some(i),
            None => if s.last() == c {
                Some(s.len() - 1)
            } else {
                None
            },
        }
    }
}

/// The last position of `c`, if any.
pub open spec fn last_index(s: Seq<char>, c: char) -> Option<int>
    decreases s.len(),
{
    if s.len() == 0 {
        None
    } else if s.last() == c {
        Some(s.len() - 1)
    } else {
        last_index(s.drop_last(), c)
    }
}

proof fn lemma_first_index_bound(s: Seq<char>, c: char)
    ensures
        first_index(s, c) matches Some(i) ==> 0 <= i < s.len(),
    decreases s.len(),
{
    if s.len() > 0 {
        lemma_first_index_bound(s.drop_last(), c);
    }
}

proof fn lemma_last_index_bound(s: Seq<char>, c: char)
    ensures
        last_index(s, c) matches Some(i) ==> 0 <= i < s.len(),
    decreases s.len(),
{
    if s.len() > 0 {
        lemma_last_index_bound(s.drop_last(), c);
    }
}

/// The code of a symbol: the trimmed symbol up to its first `.`, which must be six ASCII
/// digits.
pub open spec fn stock_code_spec(symbol: Seq<char>) -> Option<Seq<char>> {
    let t = trim(symbol);
    let code = match first_index(t, '.') {
        Some(i) => t.take(i),
        None => t,
    };
    if code.len() == 6 && all_digits(code) {
        Some(code)
    } else {
        None
    }
}

fn find_first(v: &Vec<char>, c: char) -> (r: Option<usize>)
    ensures
        match (r, first_index(v@, c)) {
            (Some(i), Some(j)) => i == j && i < v@.len(),
            (None, None) => true,
            _ => false,
        },
{
    let mut i: usize = 0;
    while i < v.len()
        invariant
            0 <= i <= v.len(),
            first_index(v@.take(i as int), c) is None,
        decreases v.len() - i,
    {
        proof {
            assert(v@.take(i as int + 1).drop_last() =~= v@.take(i as int));
            assert(v@.take(i as int + 1).last() == v@[i as int]);
        }
        if v[i] == c {
            proof {
                lemma_first_index_prefix(v@, c, i as int + 1);
            }
            return Some(i);
        }
        i = i + 1;
    }
    proof {
        assert(v@.take(v@.len() as int) =~= v@);
    }
    None
}

proof fn lemma_first_index_prefix(s: Seq<char>, c: char, i: int)
    requires
        0 < i <= s.len(),
        first_index(s.take(i), c) is Some,
    ensures
        first_index(s, c) == first_index(s.take(i), c),
    decreases s.len() - i,
{
    if i < s.len() {
        assert(s.take(i + 1).drop_last() =~= s.take(i));
        lemma_first_index_prefix(s, c, i + 1);
    } else {
        assert(s.take(i) =~= s);
    }
}

fn find_last(v: &Vec<char>, c: char) -> (r: Option<usize>)
    ensures
        match (r, last_index(v@, c)) {
            (Some(i), Some(j)) => i == j && i < v@.len(),
            (None, None) => true,
            _ => false,
        },
{
    let mut i: usize = v.len();
    proof {
        assert(v@.take(i as int) =~= v@);
    }
    while i > 0
        invariant
            0 <= i <= v.len(),
            last_index(v@, c) == last_index(v@.take(i as int), c),
        decreases i,
    {
        proof {
            assert(v@.take(i as int).drop_last() =~= v@.take(i - 1));
            assert(v@.take(i as int).last() == v@[i - 1]);
        }
        if v[i - 1] == c {
            return Some(i - 1);
        }
        i = i - 1;
    }
    None
}

/// The six-digit code Eastmoney uses for a symbol such as `300209` or `300209.SZ`.
pub fn eastmoney_stock_code(symbol: &str) -> (r: Option<String>)
    ensures
        match (r, stock_code_spec(symbol@)) {
            (Some(c), Some(d)) => c@ == d,
            (None, None) => true,
            _ => false,
        },
{
    let trimmed = trim_str(symbol);
    let t = chars_of(trimmed.as_str());
    let code: Vec<char> = match find_first(&t, '.') {
        Some(i) => {
            let mut c: Vec<char> = Vec::new();
            let mut k: usize = 0;
            while k < i
                invariant
                    0 <= k <= i <= t.len(),
                    c@ == t@.take(k as int),
                decreases i - k,
            {
                c.push(t[k]);
                proof {
                    assert(t@.take(k as int + 1) =~= t@.take(k as int).push(t@[k as int]));
                }
                k = k + 1;
            }
            c
        },
        None => t,
    };
    if code.len() == 6 && all_ascii_digits(&code) {
        Some(crate::text::string_of(&code))
    } else {
        None
    }
}

/// Earnings reports, then major matters, else an ordinary company announcement.
pub open spec fn classify_spec(title: Seq<char>) -> EventType {
    if contains(title, "年度报告"@) || contains(title, "半年度报告"@) || contains(title, "季度报告"@)
        || contains(title, "业绩预告"@) || contains(title, "业绩快报"@) {
        EventType::Earnings
    } else if contains(title, "重大"@) || contains(title, "重组"@) || contains(title, "收购"@)
        || contains(title, "立案"@) || contains(title, "诉讼"@) || contains(title, "处罚"@)
        || contains(title, "停牌"@) || contains(title, "终止"@) || contains(title, "风险"@) {
        EventType::MajorMatter
    } else {
        EventType::CompanyAnnouncement
    }
}

/// Reports are earnings events: a title naming an annual, half-year or quarterly report, a
/// results forecast or a results flash is `Earnings`; otherwise a title naming a major matter,
/// restructuring, acquisition, investigation, lawsuit, penalty, suspension, termination or risk
/// is `MajorMatter`; every other title is a plain company announcement.
pub proof fn law_announcement_titles_classify_by_their_terms(title: Seq<char>)
    ensures
        contains(title, "年度报告"@) ==> classify_spec(title) == EventType::Earnings,
        contains(title, "半年度报告"@) ==> classify_spec(title) == EventType::Earnings,
        contains(title, "季度报告"@) ==> classify_spec(title) == EventType::Earnings,
        contains(title, "业绩预告"@) ==> classify_spec(title) == EventType::Earnings,
        contains(title, "业绩快报"@) ==> classify_spec(title) == EventType::Earnings,
        classify_spec(title) == EventType::Earnings ==> contains(title, "年度报告"@) || contains(
            title,
            "半年度报告"@,
        ) || contains(title, "季度报告"@) || contains(title, "业绩预告"@) || contains(title, "业绩快报"@),
        classify_spec(title) == EventType::MajorMatter <==> !(contains(title, "年度报告"@) || contains(
            title,
            "半年度报告"@,
        ) || contains(title, "季度报告"@) || contains(title, "业绩预告"@) || contains(title, "业绩快报"@))
            && (contains(title, "重大"@) || contains(title, "重组"@) || contains(title, "收购"@)
            || contains(title, "立案"@) || contains(title, "诉讼"@) || contains(title, "处罚"@)
            || contains(title, "停牌"@) || contains(title, "终止"@) || contains(title, "风险"@)),
        classify_spec(title) == EventType::Earnings || classify_spec(title) == EventType::MajorMatter
            || classify_spec(title) == EventType::CompanyAnnouncement,
{
}

pub fn classify_event(title: &str) -> (r: EventType)
    ensures
        r == classify_spec(title@),
{
    if str_contains(title, "年度报告") || str_contains(title, "半年度报告") || str_contains(
        title,
        "季度报告",
    ) || str_contains(title, "业绩预告") || str_contains(title, "业绩快报") {
        EventType::Earnings
    } else if str_contains(title, "重大") || str_contains(title, "重组") || str_contains(title, "收购")
        || str_contains(title, "立案") || str_contains(title, "诉讼") || str_contains(title, "处罚")
        || str_contains(title, "停牌") || str_contains(title, "终止") || str_contains(title, "风险") {
        EventType::MajorMatter
    } else {
        EventType::CompanyAnnouncement
    }
}

/// A display time `YYYY-MM-DD HH:MM:SS:mmm` in Beijing time: the last `:` becomes the decimal
/// point and `+08:00` the offset.
pub open spec fn source_time_spec(value: Seq<char>) -> Option<UtcTime> {
    let t = trim(value);
    match last_index(t, ':') {
        None => None,
        Some(i) => rfc3339_parse(t.take(i) + "."@ + t.skip(i + 1) + "+08:00"@),
    }
}

pub fn parse_source_time(value: &str) -> (r: Option<UtcTime>)
    ensures
        r == source_time_spec(value@),
        r matches Some(t) ==> t.valid(),
{
    let trimmed = trim_str(value);
    let t = chars_of(trimmed.as_str());
    match find_last(&t, ':') {
        None => None,
        Some(i) => {
            let prefix = crate::text::sub_vec(&t, 0, i);
            let millis = crate::text::sub_vec(&t, i + 1, t.len());
            let mut canonical = crate::text::string_of(&prefix);
            canonical.append(".");
            let m = crate::text::string_of(&millis);
            canonical.append(m.as_str());
            canonical.append("+08:00");
            proof {
                assert(prefix@ =~= t@.take(i as int));
                assert(millis@ =~= t@.skip(i + 1));
            }
            parse_rfc3339(canonical.as_str())
        },
    }
}

pub open spec fn detail_url(symbol: Seq<char>, art_code: Seq<char>) -> Seq<char> {
    "https://data.eastmoney.com/notices/detail/"@ + symbol + "/"@ + art_code + ".html"@
}

pub open spec fn list_url(stock_code: Seq<char>) -> Seq<char> {
    "https://np-anotice-stock.eastmoney.com/api/security/ann?sr=-1&page_size=20&page_index=1&ann_type=A&stock_list="@
        + stock_code
}

impl Disclosure {
    /// The news input of a disclosure: the verbatim title stands as its summary too.
    pub fn as_news(self) -> (r: NewsArticleInput)
        requires
            self.published_at.valid(),
            self.fetched_at.valid(),
        ensures
            r.title == self.title,
            r.source@ == "东方财富公告"@,
            r.source_type == NewsSourceType::Media,
            r.published_at@ == rfc3339_millis_text(self.published_at),
            r.fetch_time@ == rfc3339_millis_text(self.fetched_at),
            r.summary == self.title,
            r.url == self.url,
            r.related_security_id == Some(self.security.id),
    {
        let title = self.title.clone();
        NewsArticleInput {
            title,
            source: String::from_str("东方财富公告"),
            source_type: NewsSourceType::Media,
            published_at: self.published_at.to_rfc3339_millis(),
            fetch_time: self.fetched_at.to_rfc3339_millis(),
            summary: self.title,
            url: self.url,
            related_security_id: Some(self.security.id),
        }
    }

    /// The confirmed event of a disclosure, classified by its title.
    pub fn as_event(self) -> (r: EventInput)
        requires
            self.published_at.valid(),
        ensures
            r.event_type == classify_spec(self.title@),
            r.title == self.title,
            r.security_id == Some(self.security.id),
            r.event_time@ == rfc3339_millis_text(self.published_at),
            r.timezone@ == "Asia/Shanghai"@,
            r.source@ == "东方财富公告"@,
            r.source_url == Some(self.url),
            r.status == EventStatus::Confirmed,
    {
        let event_type = classify_event(self.title.as_str());
        EventInput {
            event_type,
            title: self.title,
            security_id: Some(self.security.id),
            event_time: self.published_at.to_rfc3339_millis(),
            timezone: String::from_str("Asia/Shanghai"),
            source: String::from_str("东方财富公告"),
            source_url: Some(self.url),
            status: EventStatus::Confirmed,
        }
    }
}

/// `d` is the disclosure of an accepted announcement of the list.
pub open spec fn from_list(
    d: Disclosure,
    list: Seq<Announcement>,
    code: Seq<char>,
    security: DisclosureSecurity,
    fetched_at: UtcTime,
) -> bool {
    exists|m: int|
        0 <= m < list.len() && #[trigger] announcement_outcome(list[m], code) == Ok::<
            bool,
            Seq<char>,
        >(true) && disclosure_of(d, list[m], security, fetched_at)
}

/// The announcement names the code among its codes.
pub open spec fn names_code(a: Announcement, code: Seq<char>) -> bool {
    exists|k: int| 0 <= k < a.codes@.len() && #[trigger] a.codes@[k]@ == code
}

/// What one announcement contributes: nothing when it does not name the code or lacks a title
/// or article code; an error when its time cannot be read.
pub open spec fn announcement_outcome(a: Announcement, code: Seq<char>) -> Result<bool, Seq<char>> {
    if !names_code(a, code) {
        Ok(false)
    } else if source_time_spec(a.display_time@) is None {
        Err("东方财富公告缺少可确认披露时间"@)
    } else if trim(a.title@).len() == 0 || trim(a.art_code@).len() == 0 {
        Ok(false)
    } else {
        Ok(true)
    }
}

/// `d` is the disclosure of announcement `a` for `security`.
pub open spec fn disclosure_of(d: Disclosure, a: Announcement, security: DisclosureSecurity, fetched_at: UtcTime) -> bool {
    &&& d.security.id == security.id
    &&& d.security.symbol == security.symbol
    &&& d.security.name == security.name
    &&& d.title@ == trim(a.title@)
    &&& Some(d.published_at) == source_time_spec(a.display_time@)
    &&& d.fetched_at == fetched_at
    &&& d.url@ == detail_url(security.symbol@, a.art_code@)
}

fn names_code_exec(a: &Announcement, code: &str) -> (r: bool)
    ensures
        r == names_code(*a, code@),
{
    let mut k: usize = 0;
    while k < a.codes.len()
        invariant
            0 <= k <= a.codes@.len(),
            forall|m: int| 0 <= m < k ==> (#[trigger] a.codes@[m])@ != code@,
        decreases a.codes@.len() - k,
    {
        if str_eq(a.codes[k].as_str(), code) {
            return true;
        }
        k = k + 1;
    }
    false
}

/// The accepted announcements of a list, in order, each with the security it is read for.
pub open spec fn pairs_of(list: Seq<Announcement>, code: Seq<char>, security: DisclosureSecurity) -> Seq<
    (Announcement, DisclosureSecurity),
>
    decreases list.len(),
{
    if list.len() == 0 {
        Seq::empty()
    } else {
        let p = pairs_of(list.drop_last(), code, security);
        if announcement_outcome(list.last(), code) == Ok::<bool, Seq<char>>(true) {
            p.push((list.last(), security))
        } else {
            p
        }
    }
}

/// Every announcement of the list can be judged: none names the code without a readable time.
pub open spec fn all_judged(list: Seq<Announcement>, code: Seq<char>) -> bool {
    forall|j: int| 0 <= j < list.len() ==> #[trigger] announcement_outcome(list[j], code) is Ok
}

/// The disclosures are those of the pairs, one for one and in order.
pub open spec fn disclosures_match(ds: Seq<Disclosure>, pairs: Seq<(Announcement, DisclosureSecurity)>, fetched_at: UtcTime) -> bool {
    &&& ds.len() == pairs.len()
    &&& forall|i: int| 0 <= i < ds.len() ==> #[trigger] disclosure_of(ds[i], pairs[i].0, pairs[i].1, fetched_at)
}

/// The disclosures of one list response for one security, in the source's order. A response
/// without the success flag is an error, and so is a matching announcement without a readable
/// time.
pub fn disclosures_from_response(
    security: &DisclosureSecurity,
    stock_code: &str,
    response: &AnnouncementResponse,
    fetched_at: UtcTime,
) -> (r: Result<Vec<Disclosure>, DisclosureAdapterError>)
    ensures
        response.success != 1 ==> (r matches Err(e) && e.message@
            == "东方财富公告数据源未返回成功状态"@),
        r matches Ok(ds) ==> response.success == 1 && forall|i: int|
            0 <= i < ds@.len() ==> from_list(
                #[trigger] ds@[i],
                response.list@,
                stock_code@,
                *security,
                fetched_at,
            ),
        r matches Ok(ds) ==> forall|j: int|
            0 <= j < response.list@.len() ==> #[trigger] announcement_outcome(
                response.list@[j],
                stock_code@,
            ) is Ok,
        response.success == 1 ==> match r {
            Ok(ds) => all_judged(response.list@, stock_code@) && disclosures_match(
                ds@,
                pairs_of(response.list@, stock_code@, *security),
                fetched_at,
            ),
            Err(e) => !all_judged(response.list@, stock_code@) && e.message@
                == "东方财富公告缺少可确认披露时间"@,
        },
{
    if response.success != 1 {
        return Err(
            DisclosureAdapterError { message: String::from_str("东方财富公告数据源未返回成功状态") },
        );
    }
    let mut out: Vec<Disclosure> = Vec::new();
    let mut j: usize = 0;
    while j < response.list.len()
        invariant
            0 <= j <= response.list@.len(),
            response.success == 1,
            forall|i: int|
                0 <= i < out@.len() ==> from_list(
                    #[trigger] out@[i],
                    response.list@,
                    stock_code@,
                    *security,
                    fetched_at,
                ),
            forall|m: int| 0 <= m < j ==> #[trigger] announcement_outcome(
                response.list@[m],
                stock_code@,
            ) is Ok,
            disclosures_match(out@, pairs_of(response.list@.take(j as int), stock_code@, *security), fetched_at),
        decreases response.list@.len() - j,
    {
        proof {
            let t = response.list@.take(j as int + 1);
            assert(t.drop_last() =~= response.list@.take(j as int));
            assert(t.last() == response.list@[j as int]);
        }
        let item = &response.list[j];
        if !names_code_exec(item, stock_code) {
            j = j + 1;
            continue;
        }
        let published_at = match parse_source_time(item.display_time.as_str()) {
            Some(t) => t,
            None => {
                proof {
                    assert(announcement_outcome(response.list@[j as int], stock_code@) is Err);
                }
                return Err(
                    DisclosureAdapterError { message: String::from_str("东方财富公告缺少可确认披露时间") },
                );
            },
        };
        let title = trim_str(item.title.as_str());
        if is_blank(item.title.as_str()) || is_blank(item.art_code.as_str()) {
            j = j + 1;
            continue;
        }
        let mut url = concat2("https://data.eastmoney.com/notices/detail/", security.symbol.as_str());
        url.append("/");
        url.append(item.art_code.as_str());
        url.append(".html");
        let d = Disclosure {
            security: DisclosureSecurity {
                id: security.id,
                symbol: security.symbol.clone(),
                name: security.name.clone(),
            },
            title,
            published_at,
            fetched_at,
            url,
        };
        proof {
            assert(announcement_outcome(response.list@[j as int], stock_code@) == Ok::<
                bool,
                Seq<char>,
            >(true));
            assert(disclosure_of(d, response.list@[j as int], *security, fetched_at));
        }
        let ghost before = out@;
        out.push(d);
        proof {
            assert forall|i: int| 0 <= i < out@.len() implies from_list(
                #[trigger] out@[i],
                response.list@,
                stock_code@,
                *security,
                fetched_at,
            ) by {
                if i < before.len() {
                    assert(out@[i] == before[i]);
                } else {
                    assert(out@[i] == d);
                }
            }
        }
        j = j + 1;
    }
    proof {
        assert(response.list@.take(j as int) =~= response.list@);
    }
    Ok(out)
}

/// The announcement list request for `security` was answered with `answer`.
pub open spec fn asked<T: AnnouncementTransport>(
    transport: &T,
    security: DisclosureSecurity,
    answer: Result<AnnouncementResponse, DisclosureAdapterError>,
) -> bool {
    exists|u: &str|
        #![trigger call_ensures(T::fetch, (transport, u), answer)]
        u@ == list_url(stock_code_spec(security.symbol@)->Some_0) && call_ensures(
            T::fetch,
            (transport, u),
            answer,
        )
}

/// What one security's answer gives: its accepted announcements, or the error text that stops
/// the fetch.
pub open spec fn answer_outcome(
    security: DisclosureSecurity,
    answer: Result<AnnouncementResponse, DisclosureAdapterError>,
) -> Result<Seq<(Announcement, DisclosureSecurity)>, Seq<char>> {
    match answer {
        Err(e) => Err(e.message@),
        Ok(response) => {
            let code = stock_code_spec(security.symbol@)->Some_0;
            if response.success != 1 {
                Err("东方财富公告数据源未返回成功状态"@)
            } else if !all_judged(response.list@, code) {
                Err("东方财富公告缺少可确认披露时间"@)
            } else {
                Ok(pairs_of(response.list@, code, security))
            }
        },
    }
}

/// A fetch over the securities with these answers, one per security asked, in order: a
/// security without a code is skipped, and the first error stops the fetch. `None` when the
/// answers do not fit the securities.
pub open spec fn fetch_run<T: AnnouncementTransport>(
    transport: &T,
    securities: Seq<DisclosureSecurity>,
    answers: Seq<Result<AnnouncementResponse, DisclosureAdapterError>>,
) -> Option<Result<Seq<(Announcement, DisclosureSecurity)>, Seq<char>>>
    decreases securities.len(),
{
    if securities.len() == 0 {
        if answers.len() == 0 {
            Some(Ok(Seq::empty()))
        } else {
            None
        }
    } else {
        let s = securities.last();
        let before = fetch_run(transport, securities.drop_last(), answers);
        if before matches Some(Err(_)) {
            before
        } else if stock_code_spec(s.symbol@) is None {
            before
        } else if answers.len() == 0 {
            None
        } else {
            match fetch_run(transport, securities.drop_last(), answers.drop_last()) {
                Some(Ok(pairs)) => if asked(transport, s, answers.last()) {
                    match answer_outcome(s, answers.last()) {
                        Ok(more) => Some(Ok(pairs + more)),
                        Err(t) => Some(Err(t)),
                    }
                } else {
                    None
                },
                _ => None,
            }
        }
    }
}

/// Eastmoney's public announcement list.
#[derive(Debug, Clone)]
pub struct EastmoneyAnnouncementAdapter;

impl EastmoneyAnnouncementAdapter {
    pub fn source_name(&self) -> (r: &'static str)
        ensures
            r@ == "东方财富公告"@,
    {
        "东方财富公告"
    }

    /// The list request for one stock code.
    pub fn list_url(stock_code: &str) -> (r: String)
        ensures
            r@ == list_url(stock_code@),
    {
        concat2(
            "https://np-anotice-stock.eastmoney.com/api/security/ann?sr=-1&page_size=20&page_index=1&ann_type=A&stock_list=",
            stock_code,
        )
    }

    /// No security of the list has a symbol with an announcement code.
    pub open spec fn none_coded(securities: Seq<DisclosureSecurity>, n: int) -> bool {
        forall|m: int| 0 <= m < n ==> #[trigger] stock_code_spec(securities[m].symbol@) is None
    }

    /// The disclosures of every security whose symbol has a code, in order; a security without
    /// one is skipped without a request. The first failure stops the fetch.
    pub fn fetch_for_securities<T: AnnouncementTransport>(
        &self,
        securities: &[DisclosureSecurity],
        fetched_at: UtcTime,
        transport: &T,
    ) -> (r: Result<Vec<Disclosure>, DisclosureAdapterError>)
        ensures
            Self::none_coded(securities@, securities@.len() as int) ==> (r matches Ok(ds)
                && ds@.len() == 0),
            exists|answers: Seq<Result<AnnouncementResponse, DisclosureAdapterError>>|
                #[trigger] fetch_run(transport, securities@, answers) matches Some(outcome) && match outcome {
                    Ok(pairs) => r matches Ok(ds) && disclosures_match(ds@, pairs, fetched_at),
                    Err(t) => r matches Err(e) && e.message@ == t,
                },
    {
        let mut all: Vec<Disclosure> = Vec::new();
        let ghost mut answers: Seq<Result<AnnouncementResponse, DisclosureAdapterError>> = Seq::empty();
        let ghost mut pairs: Seq<(Announcement, DisclosureSecurity)> = Seq::empty();
        let mut k: usize = 0;
        proof {
            assert(securities@.take(0) =~= Seq::<DisclosureSecurity>::empty());
        }
        while k < securities.len()
            invariant
                0 <= k <= securities@.len(),
                fetch_run(transport, securities@.take(k as int), answers) == Some(
                    Ok::<Seq<(Announcement, DisclosureSecurity)>, Seq<char>>(pairs),
                ),
                disclosures_match(all@, pairs, fetched_at),
                Self::none_coded(securities@, k as int) ==> all@.len() == 0,
            decreases securities@.len() - k,
        {
            proof {
                let t = securities@.take(k as int + 1);
                assert(t.drop_last() =~= securities@.take(k as int));
                assert(t.last() == securities@[k as int]);
            }
            let security = &securities[k];
            let code = match eastmoney_stock_code(security.symbol.as_str()) {
                Some(c) => c,
                None => {
                    k = k + 1;
                    continue;
                },
            };
            proof {
                assert(!Self::none_coded(securities@, securities@.len() as int));
            }
            let url = Self::list_url(code.as_str());
            let u = url.as_str();
            let answer = transport.fetch(u);
            let ghost given = answer;
            proof {
                assert(answers.push(given) =~= answers + seq![given]);
                lemma_run_extra(transport, securities@.take(k as int), answers, seq![given]);
                assert(answers.push(given).drop_last() =~= answers);
                assert(asked(transport, *security, given));
            }
            let response = match answer {
                Ok(r) => r,
                Err(e) => {
                    proof {
                        lemma_run_error_persists(transport, securities@, k as int + 1, answers.push(given));
                    }
                    return Err(e);
                },
            };
            let found = match disclosures_from_response(security, code.as_str(), &response, fetched_at) {
                Ok(ds) => ds,
                Err(e) => {
                    proof {
                        lemma_run_error_persists(transport, securities@, k as int + 1, answers.push(given));
                    }
                    return Err(e);
                },
            };
            let mut found = found;
            let ghost more = pairs_of(response.list@, code@, *security);
            let ghost before = all@;
            all.append(&mut found);
            proof {
                answers = answers.push(given);
                assert forall|i: int| 0 <= i < all@.len() implies #[trigger] disclosure_of(
                    all@[i],
                    (pairs + more)[i].0,
                    (pairs + more)[i].1,
                    fetched_at,
                ) by {
                    if i < before.len() {
                        assert(all@[i] == before[i]);
                    }
                }
                pairs = pairs + more;
                assert(!Self::none_coded(securities@, k + 1));
            }
            k = k + 1;
        }
        proof {
            assert(securities@.take(k as int) =~= securities@);
        }
        Ok(all)
    }
}


// ---------------------------------------------------------------------------------------------
// The HTTP status written after the announcement body
// ---------------------------------------------------------------------------------------------
/// The line the transport writes after the body, followed by the three-digit HTTP status.
pub open spec fn status_marker() -> Seq<u8> {
    seq![10u8, 95u8, 95u8, 72u8, 69u8, 82u8, 79u8, 95u8, 67u8, 65u8, 76u8, 76u8, 95u8, 72u8, 84u8, 84u8, 80u8, 95u8, 83u8, 84u8, 65u8, 84u8, 85u8, 83u8, 95u8, 95u8, 58u8]
}

fn status_marker_bytes() -> (r: Vec<u8>)
    ensures
        r@ == status_marker(),
{
    let r: Vec<u8> = vec![10u8, 95u8, 95u8, 72u8, 69u8, 82u8, 79u8, 95u8, 67u8, 65u8, 76u8, 76u8, 95u8, 72u8, 84u8, 84u8, 80u8, 95u8, 83u8, 84u8, 65u8, 84u8, 85u8, 83u8, 95u8, 95u8, 58u8];
    proof {
        assert(r@ =~= status_marker());
    }
    r
}

pub open spec fn marker_at(out: Seq<u8>, p: int) -> bool {
    0 <= p && p + status_marker().len() <= out.len() && out.subrange(
        p,
        p + status_marker().len(),
    ) == status_marker()
}

/// The last position before `end` where the marker starts.
pub open spec fn last_marker_before(out: Seq<u8>, end: int) -> Option<int>
    decreases end,
{
    if end <= 0 {
        None
    } else if marker_at(out, end - 1) {
        Some(end - 1)
    } else {
        last_marker_before(out, end - 1)
    }
}

/// The status after the marker. Bytes that are not UTF-8 give no status: the lossy text then
/// holds a replacement character, which is neither whitespace nor a digit.
pub open spec fn written_status(tail: Seq<u8>) -> Option<u16> {
    u16_value(trim(crate::ai::utf8_lossy(tail)))
}

pub open spec fn http_body_outcome(out: Seq<u8>) -> Result<int, Seq<char>> {
    match last_marker_before(out, out.len() as int) {
        None => Err("东方财富公告请求未返回 HTTP 状态"@),
        Some(p) => match written_status(out.subrange(p + status_marker().len(), out.len() as int)) {
            None => Err("东方财富公告请求 HTTP 状态异常"@),
            Some(s) => if 200 <= s < 300 {
                Ok(p)
            } else {
                Err("东方财富公告请求失败（HTTP "@ + nat_text(s as nat) + "）"@)
            },
        },
    }
}

/// Where the body ends in the transport's output: before the last status marker, when the
/// status after it is a 2xx code; otherwise the error for a missing, unreadable or failed
/// status.
pub fn http_body_length(output: &[u8]) -> (r: Result<usize, DisclosureAdapterError>)
    ensures
        match (r, http_body_outcome(output@)) {
            (Ok(n), Ok(p)) => n == p,
            (Err(e), Err(t)) => e.message@ == t,
            _ => false,
        },
{
    let marker = status_marker_bytes();
    let m = marker.len();
    let n = output.len();
    let mut end: usize = n;
    let mut found: Option<usize> = None;
    while end > 0 && found.is_none()
        invariant
            end <= output@.len(),
            n == output@.len(),
            marker@ == status_marker(),
            m == marker@.len(),
            found is None ==> last_marker_before(output@, output@.len() as int) == last_marker_before(
                output@,
                end as int,
            ),
            found matches Some(p) ==> last_marker_before(output@, output@.len() as int) == Some(
                p as int,
            ),
            found matches Some(p) ==> marker_at(output@, p as int),
        decreases end,
    {
        let p = end - 1;
        let mut same = m <= output.len() && p <= output.len() - m;
        let mut j: usize = 0;
        while same && j < m
            invariant
                j <= m,
                n == output@.len(),
                m == marker@.len(),
                marker@ == status_marker(),
                same ==> p + m <= output@.len(),
                same ==> forall|k: int| 0 <= k < j ==> output@[p + k] == marker@[k],
                !same ==> !marker_at(output@, p as int),
            decreases m - j,
        {
            if output[p + j] != marker[j] {
                proof {
                    assert(output@.subrange(p as int, p + m)[j as int] != status_marker()[j as int]);
                }
                same = false;
            }
            j = j + 1;
        }
        if same {
            proof {
                assert(output@.subrange(p as int, p + m) =~= status_marker());
            }
            found = Some(p);
        }
        end = p;
    }
    match found {
        None => Err(DisclosureAdapterError { message: String::from_str("东方财富公告请求未返回 HTTP 状态") }),
        Some(p) => {
            let tail = vstd::slice::slice_subrange(output, p + m, output.len());
            let text = crate::ai::lossy_text(tail);
            let trimmed = crate::text::trim_vec(&chars_of(text.as_str()));
            match parse_u16(&trimmed) {
                None => Err(DisclosureAdapterError { message: String::from_str("东方财富公告请求 HTTP 状态异常") }),
                Some(s) => if 200 <= s && s < 300 {
                    Ok(p)
                } else {
                    let code = crate::text::u64_text(s as u64);
                    let t = concat2("东方财富公告请求失败（HTTP ", code.as_str());
                    Err(DisclosureAdapterError { message: concat2(t.as_str(), "）") })
                },
            }
        },
    }
}


/// A fetch that succeeded used every answer: with more answers the run does not fit.
proof fn lemma_run_extra<T: AnnouncementTransport>(
    transport: &T,
    securities: Seq<DisclosureSecurity>,
    answers: Seq<Result<AnnouncementResponse, DisclosureAdapterError>>,
    extra: Seq<Result<AnnouncementResponse, DisclosureAdapterError>>,
)
    requires
        fetch_run(transport, securities, answers) matches Some(Ok(_)),
        extra.len() > 0,
    ensures
        fetch_run(transport, securities, answers + extra) is None,
    decreases securities.len(),
{
    if securities.len() > 0 {
        let s = securities.last();
        let dl = securities.drop_last();
        if stock_code_spec(s.symbol@) is None {
            lemma_run_extra(transport, dl, answers, extra);
        } else {
            let a = answers;
            assert(a.len() > 0);
            let rest = seq![a.last()] + extra;
            assert(a + extra =~= a.drop_last() + rest);
            lemma_run_extra(transport, dl, a.drop_last(), rest);
            let rest2 = seq![a.last()] + extra.drop_last();
            assert((a + extra).drop_last() =~= a.drop_last() + rest2);
            lemma_run_extra(transport, dl, a.drop_last(), rest2);
        }
    }
}

/// Once the fetch of a prefix has stopped on an error, the fetch of the whole list stops on it.
proof fn lemma_run_error_persists<T: AnnouncementTransport>(
    transport: &T,
    securities: Seq<DisclosureSecurity>,
    k: int,
    answers: Seq<Result<AnnouncementResponse, DisclosureAdapterError>>,
)
    requires
        0 <= k <= securities.len(),
        fetch_run(transport, securities.take(k), answers) matches Some(Err(_)),
    ensures
        fetch_run(transport, securities, answers) == fetch_run(transport, securities.take(k), answers),
    decreases securities.len() - k,
{
    if k < securities.len() {
        let t = securities.take(k + 1);
        assert(t.drop_last() =~= securities.take(k));
        lemma_run_error_persists(transport, securities, k + 1, answers);
    } else {
        assert(securities.take(k) =~= securities);
    }
}

} // verus!
