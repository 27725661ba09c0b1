//! Source-backed local investment event calendar.
//!
//! Only explicit event records are stored; dates, securities and confirmation states are never
//! inferred. Listings put events of held securities first, then order by time and id.
use vstd::prelude::*;

use crate::disclosure::DisclosureSecurity;
use crate::news::{label_of, security_label};
use crate::records::{EventWithSecurity, NewEventRecord};
use crate::text::{chars_of, concat2, is_blank, starts_with, str_eq, str_starts_with, trim, trim_str};
use crate::time::{parse_rfc3339, rfc3339_parse, UtcTime};

verus! {

#[derive(Debug, Clone, Copy, PartialEq, Eq, Structural)]
pub enum EventType {
    Earnings,
    Dividend,
    ExDividend,
    ShareholderMeeting,
    MacroData,
    FedMeeting,
    CompanyAnnouncement,
    MajorMatter,
}

pub open spec fn event_type_code(t: EventType) -> Seq<char> {
    match t {
        EventType::Earnings => "EARNINGS"@,
        EventType::Dividend => "DIVIDEND"@,
        EventType::ExDividend => "EX_DIVIDEND"@,
        EventType::ShareholderMeeting => "SHAREHOLDER_MEETING"@,
        EventType::MacroData => "MACRO_DATA"@,
        EventType::FedMeeting => "FED_MEETING"@,
        EventType::CompanyAnnouncement => "COMPANY_ANNOUNCEMENT"@,
        EventType::MajorMatter => "MAJOR_MATTER"@,
    }
}

impl EventType {
    pub fn as_str(self) -> (r: &'static str)
        ensures
            r@ == event_type_code(self),
    {
        match self {
            EventType::Earnings => "EARNINGS",
            EventType::Dividend => "DIVIDEND",
            EventType::ExDividend => "EX_DIVIDEND",
            EventType::ShareholderMeeting => "SHAREHOLDER_MEETING",
            EventType::MacroData => "MACRO_DATA",
            EventType::FedMeeting => "FED_MEETING",
            EventType::CompanyAnnouncement => "COMPANY_ANNOUNCEMENT",
            EventType::MajorMatter => "MAJOR_MATTER",
        }
    }

    pub fn parse(value: &str) -> (r: Result<Self, EventServiceError>)
        ensures
            match r {
                Ok(t) => event_type_code(t) == value@,
                Err(e) => (forall|t: EventType| event_type_code(t) != value@) && e
                    == EventServiceError::Validation("事件类型未确认"),
            },
    {
        if str_eq(value, "EARNINGS") {
            Ok(EventType::Earnings)
        } else if str_eq(value, "DIVIDEND") {
            Ok(EventType::Dividend)
        } else if str_eq(value, "EX_DIVIDEND") {
            Ok(EventType::ExDividend)
        } else if str_eq(value, "SHAREHOLDER_MEETING") {
            Ok(EventType::ShareholderMeeting)
        } else if str_eq(value, "MACRO_DATA") {
            Ok(EventType::MacroData)
        } else if str_eq(value, "FED_MEETING") {
            Ok(EventType::FedMeeting)
        } else if str_eq(value, "COMPANY_ANNOUNCEMENT") {
            Ok(EventType::CompanyAnnouncement)
        } else if str_eq(value, "MAJOR_MATTER") {
            Ok(EventType::MajorMatter)
        } else {
            Err(EventServiceError::Validation("事件类型未确认"))
        }
    }
}

#[derive(Debug, Clone, Copy, PartialEq, Eq, Structural)]
pub enum EventStatus {
    Confirmed,
    Unconfirmed,
    Archived,
}

pub open spec fn event_status_code(s: EventStatus) -> Seq<char> {
    match s {
        EventStatus::Confirmed => "CONFIRMED"@,
        EventStatus::Unconfirmed => "UNCONFIRMED"@,
        EventStatus::Archived => "ARCHIVED"@,
    }
}

impl EventStatus {
    pub fn as_str(self) -> (r: &'static str)
        ensures
            r@ == event_status_code(self),
    {
        match self {
            EventStatus::Confirmed => "CONFIRMED",
            EventStatus::Unconfirmed => "UNCONFIRMED",
            EventStatus::Archived => "ARCHIVED",
        }
    }

    pub fn parse(value: &str) -> (r: Result<Self, EventServiceError>)
        ensures
            match r {
                Ok(s) => event_status_code(s) == value@,
                Err(e) => (forall|s: EventStatus| event_status_code(s) != value@) && e
                    == EventServiceError::Validation("事件状态未确认"),
            },
    {
        if str_eq(value, "CONFIRMED") {
            Ok(EventStatus::Confirmed)
        } else if str_eq(value, "UNCONFIRMED") {
            Ok(EventStatus::Unconfirmed)
        } else if str_eq(value, "ARCHIVED") {
            Ok(EventStatus::Archived)
        } else {
            Err(EventServiceError::Validation("事件状态未确认"))
        }
    }
}

#[derive(Debug)]
pub struct EventSource {
    pub name: String,
}

#[derive(Debug, Clone)]
pub struct EventInput {
    pub event_type: EventType,
    pub title: String,
    pub security_id: Option<i64>,
    pub event_time: String,
    pub timezone: String,
    pub source: String,
    pub source_url: Option<String>,
    pub status: EventStatus,
}

/// Official, media or macro-calendar adapters return complete source-backed inputs.
pub trait EventDataAdapter {
    fn source(&self) -> EventSource;

    fn fetch_events(&self, securities: &[DisclosureSecurity]) -> Result<
        Vec<EventInput>,
        EventAdapterError,
    >;
}

#[derive(Debug)]
pub struct EventAdapterError {
    pub message: String,
}

#[derive(Debug)]
pub struct EventView {
    pub id: i64,
    pub event_type: String,
    pub title: String,
    pub event_time: String,
    pub timezone: String,
    pub source: String,
    pub source_url: Option<String>,
    pub status: String,
    pub related_security: Option<String>,
    pub holding_related: bool,
}

impl Clone for EventView {
    fn clone(&self) -> (r: Self)
        ensures
            r == *self,
    {
        EventView {
            id: self.id,
            event_type: self.event_type.clone(),
            title: self.title.clone(),
            event_time: self.event_time.clone(),
            timezone: self.timezone.clone(),
            source: self.source.clone(),
            source_url: self.source_url.clone(),
            status: self.status.clone(),
            related_security: self.related_security.clone(),
            holding_related: self.holding_related,
        }
    }
}

#[derive(Debug, PartialEq, Eq)]
pub enum EventServiceError {
    Database(String),
    Validation(&'static str),
    MissingSecurity,
    MissingEvent,
}

impl EventServiceError {
    /// The text the error displays.
    pub fn message(&self) -> (r: String)
        ensures
            r@ == match *self {
                EventServiceError::Database(m) => "database error: "@ + m@,
                EventServiceError::Validation(m) => m@,
                EventServiceError::MissingSecurity => "未找到关联证券"@,
                EventServiceError::MissingEvent => "未找到事件"@,
            },
    {
        match self {
            EventServiceError::Database(m) => concat2("database error: ", m.as_str()),
            EventServiceError::Validation(m) => String::from_str(m),
            EventServiceError::MissingSecurity => String::from_str("未找到关联证券"),
            EventServiceError::MissingEvent => String::from_str("未找到事件"),
        }
    }
}

/// What the lookup of an input's security found.
#[derive(Debug)]
pub enum SecurityLookup {
    Found,
    Missing,
    Failed(String),
}

/// `char::is_control`: the Unicode control characters.
pub open spec fn is_control(c: char) -> bool {
    c <= '\u{1f}' || ('\u{7f}' <= c && c <= '\u{9f}')
}

pub open spec fn has_control(s: Seq<char>) -> bool {
    exists|i: int| 0 <= i < s.len() && #[trigger] is_control(s[i])
}

pub open spec fn http_url(url: Seq<char>) -> bool {
    starts_with(url, "https://"@) || starts_with(url, "http://"@)
}

/// The first problem of an input, in the order the rules are checked.
pub open spec fn event_problem(input: EventInput, lookup: SecurityLookup) -> Option<EventServiceError> {
    if trim(input.title@).len() == 0 {
        Some(EventServiceError::Validation("事件名称不能为空"))
    } else if trim(input.timezone@).len() == 0 {
        Some(EventServiceError::Validation("事件时区不能为空"))
    } else if trim(input.source@).len() == 0 {
        Some(EventServiceError::Validation("事件来源不能为空"))
    } else if has_control(trim(input.timezone@)) {
        Some(EventServiceError::Validation("事件时区无效"))
    } else if rfc3339_parse(trim(input.event_time@)) is None {
        Some(EventServiceError::Validation("事件时间必须是带时区的 ISO 8601"))
    } else if input.security_id is Some && lookup is Missing {
        Some(EventServiceError::MissingSecurity)
    } else if input.security_id is Some && lookup is Failed {
        Some(EventServiceError::Database(lookup->Failed_0))
    } else if input.source_url matches Some(u) && trim(u@).len() > 0 && !http_url(u@) {
        Some(EventServiceError::Validation("事件原文地址必须是 HTTP(S) 地址"))
    } else {
        None
    }
}

/// The stored record of a valid input: trimmed texts, codes, and the source address kept only
/// when it is not blank.
pub open spec fn event_record_of(r: NewEventRecord, input: EventInput) -> bool {
    &&& r.event_type@ == event_type_code(input.event_type)
    &&& r.title@ == trim(input.title@)
    &&& r.security_id == input.security_id
    &&& r.event_time@ == trim(input.event_time@)
    &&& r.timezone@ == trim(input.timezone@)
    &&& r.source@ == trim(input.source@)
    &&& match input.source_url {
        Some(u) => if trim(u@).len() == 0 {
            r.source_url is None
        } else {
            r.source_url == Some(u)
        },
        None => r.source_url is None,
    }
    &&& r.status@ == event_status_code(input.status)
}

fn required_text(value: &str, message: &'static str) -> (r: Result<String, EventServiceError>)
    ensures
        match r {
            Ok(s) => trim(value@).len() > 0 && s@ == trim(value@),
            Err(e) => trim(value@).len() == 0 && e == EventServiceError::Validation(message),
        },
{
    if is_blank(value) {
        Err(EventServiceError::Validation(message))
    } else {
        Ok(trim_str(value))
    }
}

fn contains_control(s: &str) -> (r: bool)
    ensures
        r == has_control(s@),
{
    let v = chars_of(s);
    let mut i: usize = 0;
    while i < v.len()
        invariant
            0 <= i <= v.len(),
            v@ == s@,
            forall|k: int| 0 <= k < i ==> !is_control(#[trigger] v@[k]),
        decreases v.len() - i,
    {
        let c = v[i];
        if c <= '\u{1f}' || ('\u{7f}' <= c && c <= '\u{9f}') {
            proof {
                assert(is_control(v@[i as int]));
            }
            return true;
        }
        i = i + 1;
    }
    false
}

/// Strictly earlier in the listing order: events of held securities first, then by time, then
/// by id.
pub open spec fn listed_before(a: EventView, b: EventView) -> bool {
    let ta = rfc3339_parse(a.event_time@)->Some_0;
    let tb = rfc3339_parse(b.event_time@)->Some_0;
    if a.holding_related != b.holding_related {
        a.holding_related
    } else if ta.seconds != tb.seconds {
        ta.seconds < tb.seconds
    } else if ta.nanos != tb.nanos {
        ta.nanos < tb.nanos
    } else {
        a.id < b.id
    }
}

/// Inserts `x` after every element it is not listed before (a stable insertion).
pub open spec fn insert_listed(x: EventView, s: Seq<EventView>) -> Seq<EventView>
    decreases s.len(),
{
    if s.len() == 0 {
        seq![x]
    } else if listed_before(x, s.last()) {
        insert_listed(x, s.drop_last()).push(s.last())
    } else {
        s.push(x)
    }
}

/// The stable sort of `sort_by` with the listing order.
pub open spec fn sort_listed(s: Seq<EventView>) -> Seq<EventView>
    decreases s.len(),
{
    if s.len() == 0 {
        s
    } else {
        insert_listed(s.last(), sort_listed(s.drop_last()))
    }
}

/// No event of the sequence is listed before one that stands ahead of it.
pub open spec fn listed_in_order(s: Seq<EventView>) -> bool {
    forall|i: int, j: int| 0 <= i < j < s.len() ==> !listed_before(#[trigger] s[j], #[trigger] s[i])
}

proof fn lemma_listed_order(a: EventView, b: EventView, c: EventView)
    ensures
        listed_before(a, b) ==> !listed_before(b, a),
        !listed_before(a, b) && !listed_before(b, c) ==> !listed_before(a, c),
{
}

proof fn lemma_insert_listed(x: EventView, s: Seq<EventView>)
    requires
        listed_in_order(s),
    ensures
        insert_listed(x, s).to_multiset() == s.push(x).to_multiset(),
        listed_in_order(insert_listed(x, s)),
    decreases s.len(),
{
    broadcast use vstd::seq_lib::group_to_multiset_ensures;
    broadcast use vstd::multiset::group_multiset_axioms;

    if s.len() == 0 {
        assert(insert_listed(x, s) =~= s.push(x));
    } else {
        let l = s.last();
        let d = s.drop_last();
        assert(s =~= d.push(l));
        if listed_before(x, l) {
            assert(listed_in_order(d));
            lemma_insert_listed(x, d);
            let r = insert_listed(x, d);
            assert(r.push(l).to_multiset() =~= s.push(x).to_multiset());
            assert forall|i: int, j: int| 0 <= i < j < r.push(l).len() implies !listed_before(
                #[trigger] r.push(l)[j],
                #[trigger] r.push(l)[i],
            ) by {
                if j == r.len() {
                    let e = r[i];
                    assert(r.contains(e));
                    assert(r.to_multiset().count(e) > 0);
                    if e == x {
                        lemma_listed_order(x, l, x);
                    } else {
                        assert(d.to_multiset().count(e) > 0);
                        assert(d.contains(e));
                        let k = choose|k: int| 0 <= k < d.len() && d[k] == e;
                        assert(s[k] == e && s[s.len() - 1] == l);
                    }
                } else {
                    assert(r.push(l)[j] == r[j] && r.push(l)[i] == r[i]);
                }
            }
        } else {
            assert(insert_listed(x, s) == s.push(x));
            assert forall|i: int, j: int| 0 <= i < j < s.push(x).len() implies !listed_before(
                #[trigger] s.push(x)[j],
                #[trigger] s.push(x)[i],
            ) by {
                if j == s.len() {
                    if i < s.len() - 1 {
                        assert(s[s.len() - 1] == l);
                        lemma_listed_order(x, l, s[i]);
                    }
                } else {
                    assert(s.push(x)[j] == s[j] && s.push(x)[i] == s[i]);
                }
            }
        }
    }
}

/// The event listing is a reordering of the events it lists, and no listed event comes after
/// one that it is listed before.
pub proof fn law_listing_is_an_ordered_reordering(s: Seq<EventView>)
    ensures
        sort_listed(s).to_multiset() == s.to_multiset(),
        listed_in_order(sort_listed(s)),
    decreases s.len(),
{
    if s.len() > 0 {
        let d = s.drop_last();
        law_listing_is_an_ordered_reordering(d);
        lemma_insert_listed(s.last(), sort_listed(d));
        broadcast use vstd::seq_lib::group_to_multiset_ensures;

        assert(s =~= d.push(s.last()));
    }
}

/// Every event time can be read.
pub open spec fn times_readable(s: Seq<EventView>) -> bool {
    forall|i: int| 0 <= i < s.len() ==> rfc3339_parse(#[trigger] s[i].event_time@) is Some
}

pub open spec fn with_status(s: Seq<EventView>, status: Option<EventStatus>) -> Seq<EventView> {
    match status {
        Some(st) => s.filter(status_keeps(st)),
        None => s,
    }
}

pub open spec fn status_keeps(status: EventStatus) -> spec_fn(EventView) -> bool {
    |e: EventView| e.status@ == event_status_code(status)
}

proof fn lemma_status_filter_push(s: Seq<EventView>, x: EventView, st: EventStatus)
    ensures
        s.push(x).filter(status_keeps(st)) == if x.status@ == event_status_code(st) {
            s.filter(status_keeps(st)).push(x)
        } else {
            s.filter(status_keeps(st))
        },
{
    reveal(Seq::filter);
    assert(s.push(x).drop_last() == s);
}

fn listed_before_exec(a: &EventView, b: &EventView) -> (r: bool)
    requires
        rfc3339_parse(a.event_time@) is Some,
        rfc3339_parse(b.event_time@) is Some,
    ensures
        r == listed_before(*a, *b),
{
    let ta = match parse_rfc3339(a.event_time.as_str()) {
        Some(t) => t,
        None => UtcTime { seconds: 0, nanos: 0 },
    };
    let tb = match parse_rfc3339(b.event_time.as_str()) {
        Some(t) => t,
        None => UtcTime { seconds: 0, nanos: 0 },
    };
    if a.holding_related != b.holding_related {
        a.holding_related
    } else if ta.seconds != tb.seconds {
        ta.seconds < tb.seconds
    } else if ta.nanos != tb.nanos {
        ta.nanos < tb.nanos
    } else {
        a.id < b.id
    }
}

proof fn lemma_insert_readable(x: EventView, s: Seq<EventView>)
    requires
        times_readable(s),
        rfc3339_parse(x.event_time@) is Some,
    ensures
        times_readable(insert_listed(x, s)),
        insert_listed(x, s).len() == s.len() + 1,
    decreases s.len(),
{
    if s.len() > 0 && listed_before(x, s.last()) {
        assert(times_readable(s.drop_last())) by {
            assert forall|i: int| 0 <= i < s.drop_last().len() implies rfc3339_parse(
                #[trigger] s.drop_last()[i].event_time@,
            ) is Some by {
                assert(s.drop_last()[i] == s[i]);
            }
        }
        lemma_insert_readable(x, s.drop_last());
        let t = insert_listed(x, s.drop_last());
        assert forall|i: int| 0 <= i < t.push(s.last()).len() implies rfc3339_parse(
            #[trigger] t.push(s.last())[i].event_time@,
        ) is Some by {
            if i < t.len() {
                assert(t.push(s.last())[i] == t[i]);
            }
        }
    } else if s.len() > 0 {
        assert forall|i: int| 0 <= i < s.push(x).len() implies rfc3339_parse(
            #[trigger] s.push(x)[i].event_time@,
        ) is Some by {
            if i < s.len() {
                assert(s.push(x)[i] == s[i]);
            }
        }
    }
}

fn insert_event(sorted: &mut Vec<EventView>, x: EventView)
    requires
        times_readable(old(sorted)@),
        rfc3339_parse(x.event_time@) is Some,
    ensures
        final(sorted)@ == insert_listed(x, old(sorted)@),
        times_readable(final(sorted)@),
{
    let ghost original = sorted@;
    let mut p: usize = sorted.len();
    proof {
        assert(original.take(p as int) =~= original);
        assert(original.skip(p as int) =~= Seq::<EventView>::empty());
        assert(insert_listed(x, original) + Seq::<EventView>::empty() =~= insert_listed(x, original));
    }
    while p > 0 && listed_before_exec(&x, &sorted[p - 1])
        invariant
            0 <= p <= sorted@.len(),
            sorted@ == original,
            times_readable(original),
            rfc3339_parse(x.event_time@) is Some,
            insert_listed(x, original) == insert_listed(x, original.take(p as int)) + original.skip(
                p as int,
            ),
        decreases p,
    {
        proof {
            let t = original.take(p as int);
            assert(t.last() == original[p - 1]);
            assert(t.drop_last() =~= original.take(p - 1));
            assert(insert_listed(x, t) == insert_listed(x, t.drop_last()).push(t.last()));
            assert(insert_listed(x, original.take(p - 1)).push(original[p - 1]) + original.skip(
                p as int,
            ) =~= insert_listed(x, original.take(p - 1)) + original.skip(p - 1));
        }
        p = p - 1;
    }
    proof {
        let t = original.take(p as int);
        if p > 0 {
            assert(t.last() == original[p - 1]);
            assert(insert_listed(x, t) == t.push(x));
        } else {
            assert(insert_listed(x, t) =~= seq![x]);
        }
        lemma_insert_readable(x, original);
    }
    sorted.insert(p, x);
    proof {
        assert(sorted@ =~= original.take(p as int).push(x) + original.skip(p as int));
    }
}

/// Orders events for listing, keeping only the given status when one is given. Every event
/// time must be readable; stored events have validated times.
pub fn order_events(events: Vec<EventView>, status: Option<EventStatus>) -> (r: Vec<EventView>)
    requires
        times_readable(events@),
    ensures
        r@ == sort_listed(with_status(events@, status)),
{
    let ghost kept = with_status(events@, status);
    let mut filtered: Vec<EventView> = Vec::new();
    let mut i: usize = 0;
    while i < events.len()
        invariant
            0 <= i <= events@.len(),
            times_readable(events@),
            filtered@ == with_status(events@.take(i as int), status),
            times_readable(filtered@),
        decreases events@.len() - i,
    {
        let e = events[i].clone();
        let keep = match status {
            Some(st) => str_eq(e.status.as_str(), st.as_str()),
            None => true,
        };
        proof {
            assert(events@.take(i as int + 1) =~= events@.take(i as int).push(events@[i as int]));
            assert(rfc3339_parse(events@[i as int].event_time@) is Some);
            match status {
                Some(st) => {
                    lemma_status_filter_push(events@.take(i as int), events@[i as int], st);
                },
                None => {},
            }
        }
        if keep {
            let ghost before = filtered@;
            filtered.push(e);
            proof {
                assert forall|k: int| 0 <= k < filtered@.len() implies rfc3339_parse(
                    #[trigger] filtered@[k].event_time@,
                ) is Some by {
                    if k < before.len() {
                        assert(filtered@[k] == before[k]);
                    }
                }
            }
        }
        i = i + 1;
    }
    proof {
        assert(events@.take(events@.len() as int) =~= events@);
    }
    let mut sorted: Vec<EventView> = Vec::new();
    let mut j: usize = 0;
    while j < filtered.len()
        invariant
            0 <= j <= filtered@.len(),
            times_readable(filtered@),
            sorted@ == sort_listed(filtered@.take(j as int)),
            times_readable(sorted@),
        decreases filtered@.len() - j,
    {
        let e = filtered[j].clone();
        proof {
            assert(filtered@.take(j as int + 1).drop_last() =~= filtered@.take(j as int));
            assert(filtered@.take(j as int + 1).last() == filtered@[j as int]);
        }
        insert_event(&mut sorted, e);
        j = j + 1;
    }
    proof {
        assert(filtered@.take(filtered@.len() as int) =~= filtered@);
    }
    sorted
}

fn all_times_readable(events: &Vec<EventView>) -> (r: bool)
    ensures
        r == times_readable(events@),
{
    let mut i: usize = 0;
    while i < events.len()
        invariant
            0 <= i <= events.len(),
            forall|k: int| 0 <= k < i ==> rfc3339_parse(#[trigger] events@[k].event_time@) is Some,
        decreases events.len() - i,
    {
        if parse_rfc3339(events[i].event_time.as_str()).is_none() {
            return false;
        }
        i = i + 1;
    }
    true
}

pub struct EventService;

impl EventService {
    /// Reads the status filter of a listing; an unknown status is refused.
    pub fn status_filter(value: Option<&str>) -> (r: Result<Option<EventStatus>, EventServiceError>)
        ensures
            match value {
                None => r == Ok::<Option<EventStatus>, EventServiceError>(None),
                Some(v) => match r {
                    Ok(Some(s)) => event_status_code(s) == v@,
                    Ok(None) => false,
                    Err(e) => (forall|s: EventStatus| event_status_code(s) != v@) && e
                        == EventServiceError::Validation("事件状态未确认"),
                },
            },
    {
        match value {
            None => Ok(None),
            Some(v) => match EventStatus::parse(v) {
                Ok(s) => Ok(Some(s)),
                Err(e) => Err(e),
            },
        }
    }

    /// The listing when every event time can be read, `None` otherwise.
    pub fn try_order_events(events: Vec<EventView>, status: Option<EventStatus>) -> (r: Option<
        Vec<EventView>,
    >)
        ensures
            match r {
                Some(v) => times_readable(events@) && v@ == sort_listed(with_status(events@, status)),
                None => !times_readable(events@),
            },
    {
        if all_times_readable(&events) {
            Some(order_events(events, status))
        } else {
            None
        }
    }

    /// Validates an input into the record to store. `lookup` is what the database found for the
    /// input's security; it counts only when the input names one.
    pub fn validate_input(input: EventInput, lookup: SecurityLookup) -> (r: Result<
        NewEventRecord,
        EventServiceError,
    >)
        ensures
            match (r, event_problem(input, lookup)) {
                (Ok(rec), None) => event_record_of(rec, input),
                (Err(e), Some(p)) => e == p,
                _ => false,
            },
    {
        let title = match required_text(input.title.as_str(), "事件名称不能为空") {
            Ok(t) => t,
            Err(e) => return Err(e),
        };
        let timezone = match required_text(input.timezone.as_str(), "事件时区不能为空") {
            Ok(t) => t,
            Err(e) => return Err(e),
        };
        let source = match required_text(input.source.as_str(), "事件来源不能为空") {
            Ok(t) => t,
            Err(e) => return Err(e),
        };
        if contains_control(timezone.as_str()) {
            return Err(EventServiceError::Validation("事件时区无效"));
        }
        let event_time = trim_str(input.event_time.as_str());
        if parse_rfc3339(event_time.as_str()).is_none() {
            return Err(EventServiceError::Validation("事件时间必须是带时区的 ISO 8601"));
        }
        if input.security_id.is_some() {
            match lookup {
                SecurityLookup::Found => {},
                SecurityLookup::Missing => return Err(EventServiceError::MissingSecurity),
                SecurityLookup::Failed(m) => return Err(EventServiceError::Database(m)),
            }
        }
        let source_url = match input.source_url {
            Some(url) => if is_blank(url.as_str()) {
                None
            } else if str_starts_with(url.as_str(), "https://") || str_starts_with(
                url.as_str(),
                "http://",
            ) {
                Some(url)
            } else {
                return Err(EventServiceError::Validation("事件原文地址必须是 HTTP(S) 地址"));
            },
            None => None,
        };
        Ok(
            NewEventRecord {
                event_type: String::from_str(input.event_type.as_str()),
                title,
                security_id: input.security_id,
                event_time,
                timezone,
                source,
                source_url,
                status: String::from_str(input.status.as_str()),
            },
        )
    }

    /// The view of a stored event; the related security reads `name (symbol)`.
    pub fn view_from_record(record: EventWithSecurity) -> (r: Result<EventView, EventServiceError>)
        ensures
            match r {
                Ok(v) => {
                    &&& v.id == record.event.id
                    &&& v.event_type@ == record.event.event_type@
                    &&& (exists|t: EventType| event_type_code(t) == v.event_type@)
                    &&& v.title == record.event.title
                    &&& v.event_time == record.event.event_time
                    &&& v.timezone == record.event.timezone
                    &&& v.source == record.event.source
                    &&& v.source_url == record.event.source_url
                    &&& v.status@ == record.event.status@
                    &&& (exists|s: EventStatus| event_status_code(s) == v.status@)
                    &&& label_of(v.related_security, record.security_name, record.security_symbol)
                    &&& v.holding_related == record.holding_related
                },
                Err(e) => {
                    ||| ((forall|t: EventType| event_type_code(t) != record.event.event_type@) && e
                        == EventServiceError::Validation("事件类型未确认"))
                    ||| ((exists|t: EventType| event_type_code(t) == record.event.event_type@)
                        && (forall|s: EventStatus| event_status_code(s) != record.event.status@)
                        && e == EventServiceError::Validation("事件状态未确认"))
                },
            },
    {
        let event_type = match EventType::parse(record.event.event_type.as_str()) {
            Ok(t) => t,
            Err(e) => return Err(e),
        };
        let status = match EventStatus::parse(record.event.status.as_str()) {
            Ok(s) => s,
            Err(e) => return Err(e),
        };
        let related_security = security_label(record.security_name, record.security_symbol);
        Ok(
            EventView {
                id: record.event.id,
                event_type: String::from_str(event_type.as_str()),
                title: record.event.title,
                event_time: record.event.event_time,
                timezone: record.event.timezone,
                source: record.event.source,
                source_url: record.event.source_url,
                status: String::from_str(status.as_str()),
                related_security,
                holding_related: record.holding_related,
            },
        )
    }
}

} // verus!
