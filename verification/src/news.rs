//! Traceable local news.
//!
//! Articles come only from an adapter or an explicit import, complete with their source; this
//! module never fabricates one. It validates inputs and shapes stored records into views.
use vstd::prelude::*;

use crate::disclosure::DisclosureSecurity;
use crate::records::{NewNewsArticle, NewsArticleWithSecurity};
use crate::text::{concat2, is_blank, starts_with, str_eq, str_starts_with, trim, trim_str};
use crate::time::{parse_rfc3339, rfc3339_millis_text, rfc3339_parse};

verus! {

#[derive(Debug, Clone, Copy, PartialEq, Eq, Structural)]
pub enum NewsSourceType {
    Official,
    Media,
    Community,
}

pub open spec fn news_source_code(t: NewsSourceType) -> Seq<char> {
    match t {
        NewsSourceType::Official => "OFFICIAL"@,
        NewsSourceType::Media => "MEDIA"@,
        NewsSourceType::Community => "COMMUNITY"@,
    }
}

impl NewsSourceType {
    pub fn as_str(self) -> (r: &'static str)
        ensures
            r@ == news_source_code(self),
    {
        match self {
            NewsSourceType::Official => "OFFICIAL",
            NewsSourceType::Media => "MEDIA",
            NewsSourceType::Community => "COMMUNITY",
        }
    }

    /// The type with this code; any other text is refused.
    pub fn parse(value: &str) -> (r: Result<Self, NewsServiceError>)
        ensures
            match r {
                Ok(t) => news_source_code(t) == value@,
                Err(e) => (forall|t: NewsSourceType| news_source_code(t) != value@) && e
                    == NewsServiceError::Validation("资讯来源类型未确认"),
            },
    {
        if str_eq(value, "OFFICIAL") {
            Ok(NewsSourceType::Official)
        } else if str_eq(value, "MEDIA") {
            Ok(NewsSourceType::Media)
        } else if str_eq(value, "COMMUNITY") {
            Ok(NewsSourceType::Community)
        } else {
            Err(NewsServiceError::Validation("资讯来源类型未确认"))
        }
    }
}

#[derive(Debug)]
pub struct NewsDataSource {
    pub name: String,
    pub source_type: NewsSourceType,
}

#[derive(Debug, Clone)]
pub struct NewsArticleInput {
    pub title: String,
    pub source: String,
    pub source_type: NewsSourceType,
    pub published_at: String,
    pub fetch_time: String,
    pub summary: String,
    pub url: String,
    pub related_security_id: Option<i64>,
}

/// Port for official announcements, professional media and community sources. An adapter
/// returns the source metadata with every article and never creates fallback news.
pub trait NewsDataAdapter {
    fn source(&self) -> NewsDataSource;

    fn fetch_articles(&self, securities: &[DisclosureSecurity]) -> Result<
        Vec<NewsArticleInput>,
        NewsAdapterError,
    >;
}

#[derive(Debug)]
pub struct NewsAdapterError {
    pub message: String,
}

#[derive(Debug)]
pub struct NewsArticleView {
    pub id: i64,
    pub title: String,
    pub source: String,
    pub source_type: String,
    pub published_at: String,
    pub fetch_time: String,
    pub summary: String,
    pub url: String,
    pub related_security: Option<String>,
}

impl Clone for NewsArticleView {
    fn clone(&self) -> (r: Self)
        ensures
            r == *self,
    {
        NewsArticleView {
            id: self.id,
            title: self.title.clone(),
            source: self.source.clone(),
            source_type: self.source_type.clone(),
            published_at: self.published_at.clone(),
            fetch_time: self.fetch_time.clone(),
            summary: self.summary.clone(),
            url: self.url.clone(),
            related_security: self.related_security.clone(),
        }
    }
}

#[derive(Debug, PartialEq, Eq)]
pub enum NewsServiceError {
    Database(String),
    Validation(&'static str),
    MissingRelatedSecurity,
    MissingArticle,
}

/// The text a news error displays.
pub open spec fn news_error_text(e: NewsServiceError) -> Seq<char> {
    match e {
        NewsServiceError::Database(m) => "database error: "@ + m@,
        NewsServiceError::Validation(m) => m@,
        NewsServiceError::MissingRelatedSecurity => "未找到关联证券"@,
        NewsServiceError::MissingArticle => "未找到资讯"@,
    }
}

impl NewsServiceError {
    /// The text the error displays.
    pub fn message(&self) -> (r: String)
        ensures
            r@ == news_error_text(*self),
    {
        match self {
            NewsServiceError::Database(m) => concat2("database error: ", m.as_str()),
            NewsServiceError::Validation(m) => String::from_str(m),
            NewsServiceError::MissingRelatedSecurity => String::from_str("未找到关联证券"),
            NewsServiceError::MissingArticle => String::from_str("未找到资讯"),
        }
    }
}

/// What the lookup of an input's related security found.
#[derive(Debug)]
pub enum RelatedSecurityLookup {
    Found,
    Missing,
    Failed(String),
}

pub open spec fn validation(e: NewsServiceError, m: Seq<char>) -> bool {
    e matches NewsServiceError::Validation(x) && x@ == m
}

/// A timestamp with an offset, rewritten in UTC with milliseconds.
pub open spec fn normalized_time(value: Seq<char>) -> Option<Seq<char>> {
    match rfc3339_parse(trim(value)) {
        Some(t) => Some(rfc3339_millis_text(t)),
        None => None,
    }
}

pub open spec fn http_url(url: Seq<char>) -> bool {
    starts_with(url, "https://"@) || starts_with(url, "http://"@)
}

/// The first message the input fails with, in the order the rules are checked: title, source,
/// summary, address, related security, publication time, fetch time.
pub open spec fn article_problem(input: NewsArticleInput, lookup: RelatedSecurityLookup) -> Option<
    NewsServiceError,
> {
    if trim(input.title@).len() == 0 {
        Some(NewsServiceError::Validation("资讯标题不能为空"))
    } else if trim(input.source@).len() == 0 {
        Some(NewsServiceError::Validation("资讯来源不能为空"))
    } else if trim(input.summary@).len() == 0 {
        Some(NewsServiceError::Validation("资讯摘要不能为空"))
    } else if !http_url(trim(input.url@)) {
        Some(NewsServiceError::Validation("原文地址必须是 HTTP(S) 地址"))
    } else if input.related_security_id is Some && lookup is Missing {
        Some(NewsServiceError::MissingRelatedSecurity)
    } else if input.related_security_id is Some && lookup is Failed {
        Some(NewsServiceError::Database(lookup->Failed_0))
    } else if normalized_time(input.published_at@) is None || normalized_time(input.fetch_time@)
        is None {
        Some(NewsServiceError::Validation("资讯时间必须是带时区的 ISO 8601"))
    } else {
        None
    }
}

/// The stored article for a valid input: trimmed texts, the type's code, UTC times.
pub open spec fn article_of(a: NewNewsArticle, input: NewsArticleInput) -> bool {
    &&& a.title@ == trim(input.title@)
    &&& a.source@ == trim(input.source@)
    &&& a.source_type@ == news_source_code(input.source_type)
    &&& Some(a.published_at@) == normalized_time(input.published_at@)
    &&& Some(a.fetch_time@) == normalized_time(input.fetch_time@)
    &&& a.summary@ == trim(input.summary@)
    &&& a.url@ == trim(input.url@)
    &&& a.related_security_id == input.related_security_id
}

fn required_text(value: &str, message: &'static str) -> (r: Result<String, NewsServiceError>)
    ensures
        match r {
            Ok(s) => trim(value@).len() > 0 && s@ == trim(value@),
            Err(e) => trim(value@).len() == 0 && e == NewsServiceError::Validation(message),
        },
{
    if is_blank(value) {
        Err(NewsServiceError::Validation(message))
    } else {
        Ok(trim_str(value))
    }
}

pub fn normalized_timestamp(value: &str) -> (r: Result<String, NewsServiceError>)
    ensures
        match (r, normalized_time(value@)) {
            (Ok(s), Some(t)) => s@ == t,
            (Err(e), None) => e == NewsServiceError::Validation("资讯时间必须是带时区的 ISO 8601"),
            _ => false,
        },
{
    let trimmed = trim_str(value);
    match parse_rfc3339(trimmed.as_str()) {
        Some(t) => Ok(t.to_rfc3339_millis()),
        None => Err(NewsServiceError::Validation("资讯时间必须是带时区的 ISO 8601")),
    }
}

pub struct NewsService;

impl NewsService {
    /// Validates an input into the record to store. `lookup` is what the database found for the
    /// related security; it counts only when the input names one.
    pub fn validate_input(input: NewsArticleInput, lookup: RelatedSecurityLookup) -> (r: Result<
        NewNewsArticle,
        NewsServiceError,
    >)
        ensures
            match (r, article_problem(input, lookup)) {
                (Ok(a), None) => article_of(a, input),
                (Err(e), Some(p)) => e == p,
                _ => false,
            },
    {
        let title = match required_text(input.title.as_str(), "资讯标题不能为空") {
            Ok(t) => t,
            Err(e) => return Err(e),
        };
        let source = match required_text(input.source.as_str(), "资讯来源不能为空") {
            Ok(t) => t,
            Err(e) => return Err(e),
        };
        let summary = match required_text(input.summary.as_str(), "资讯摘要不能为空") {
            Ok(t) => t,
            Err(e) => return Err(e),
        };
        let url = trim_str(input.url.as_str());
        if !(str_starts_with(url.as_str(), "https://") || str_starts_with(url.as_str(), "http://")) {
            return Err(NewsServiceError::Validation("原文地址必须是 HTTP(S) 地址"));
        }
        if input.related_security_id.is_some() {
            match lookup {
                RelatedSecurityLookup::Found => {},
                RelatedSecurityLookup::Missing => return Err(
                    NewsServiceError::MissingRelatedSecurity,
                ),
                RelatedSecurityLookup::Failed(m) => return Err(NewsServiceError::Database(m)),
            }
        }
        let published_at = match normalized_timestamp(input.published_at.as_str()) {
            Ok(t) => t,
            Err(e) => return Err(e),
        };
        let fetch_time = match normalized_timestamp(input.fetch_time.as_str()) {
            Ok(t) => t,
            Err(e) => return Err(e),
        };
        Ok(
            NewNewsArticle {
                title,
                source,
                source_type: String::from_str(input.source_type.as_str()),
                published_at,
                fetch_time,
                summary,
                url,
                related_security_id: input.related_security_id,
            },
        )
    }

    /// The view of a stored article; the related security reads `name (symbol)`.
    pub fn view_from_record(record: NewsArticleWithSecurity) -> (r: Result<
        NewsArticleView,
        NewsServiceError,
    >)
        ensures
            match r {
                Ok(v) => {
                    &&& v.source_type@ == record.article.source_type@
                    &&& (exists|t: NewsSourceType| news_source_code(t) == v.source_type@)
                    &&& v.id == record.article.id
                    &&& v.title == record.article.title
                    &&& v.source == record.article.source
                    &&& v.published_at == record.article.published_at
                    &&& v.fetch_time == record.article.fetch_time
                    &&& v.summary == record.article.summary
                    &&& v.url == record.article.url
                    &&& label_of(
                        v.related_security,
                        record.related_security_name,
                        record.related_security_symbol,
                    )
                },
                Err(e) => (forall|t: NewsSourceType| news_source_code(t)
                    != record.article.source_type@) && e == NewsServiceError::Validation(
                    "资讯来源类型未确认",
                ),
            },
    {
        let source_type = match NewsSourceType::parse(record.article.source_type.as_str()) {
            Ok(t) => t,
            Err(e) => return Err(e),
        };
        let related_security = security_label(
            record.related_security_name,
            record.related_security_symbol,
        );
        Ok(
            NewsArticleView {
                id: record.article.id,
                title: record.article.title,
                source: record.article.source,
                source_type: String::from_str(source_type.as_str()),
                published_at: record.article.published_at,
                fetch_time: record.article.fetch_time,
                summary: record.article.summary,
                url: record.article.url,
                related_security,
            },
        )
    }
}

/// `name (symbol)` when both are known, nothing otherwise.
pub open spec fn label_of(r: Option<String>, name: Option<String>, symbol: Option<String>) -> bool {
    match (name, symbol) {
        (Some(n), Some(s)) => r matches Some(x) && x@ == n@ + " ("@ + s@ + ")"@,
        _ => r is None,
    }
}

pub fn security_label(name: Option<String>, symbol: Option<String>) -> (r: Option<String>)
    ensures
        label_of(r, name, symbol),
{
    match (name, symbol) {
        (Some(n), Some(s)) => {
            let mut x = concat2(n.as_str(), " (");
            x.append(s.as_str());
            x.append(")");
            Some(x)
        },
        _ => None,
    }
}

} // verus!
