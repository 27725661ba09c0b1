//! Safety-constrained AI explanations for one saved manual market snapshot.
//!
//! A provider's answer is validated before anything is persisted: a failed, malformed or unsafe
//! answer yields an error and no review. Provider keys never appear in errors or diagnostics.
use vstd::prelude::*;

use crate::ai_report::{
    blank, checked, entries_check, invalid_output, report_check, report_parts_check,
    validate_report, validate_report_parts, validate_sections, evidence_check, sections_check, validate_report_against_evidence,
    views, report_cites, AiProviderError, AiResearchReport, AiReviewSections, AiServiceError,
};
use crate::json::{lookup, JsonValue};
use crate::records::AiReview;
use crate::secure_storage::{get_deepseek_status, DeepSeekStatusView, SecureStorageError};
use crate::text::{
    contains, lemma_replace_leaves_no_key, occurs_at, concat2, flatten_line_breaks, flatten_lines, is_blank, nat_text, replace_spec, replace_str,
    str_eq, take_chars, take_prefix, trim, trim_str, u64_text, parse_u16, u16_value,
};
use crate::time::{parse_rfc3339, rfc3339_parse, now_utc, UtcTime, NANOS_PER_SECOND};

verus! {

// ---------------------------------------------------------------------------------------------
// Provider errors
// ---------------------------------------------------------------------------------------------
pub open spec fn http_category(status: u16) -> Seq<char> {
    if status == 401 || status == 403 {
        "AI Provider API认证失败"@
    } else if status == 429 {
        "AI Provider API请求过于频繁"@
    } else {
        "AI Provider API请求失败"@
    }
}

/// `{category}（HTTP {status}）` followed by `：{body}` for a non-empty body.
pub open spec fn http_error_text(status: u16, body: Seq<char>) -> Seq<char> {
    http_category(status) + "（HTTP "@ + nat_text(status as nat) + "）"@ + if body.len() == 0 {
        Seq::empty()
    } else {
        "："@ + body
    }
}

impl AiProviderError {
    pub fn unavailable() -> (r: Self)
        ensures
            r.message@ == "AI Provider 网络请求失败"@,
            r.http_status is None,
            r.raw_response is None,
    {
        AiProviderError {
            message: String::from_str("AI Provider 网络请求失败"),
            http_status: None,
            raw_response: None,
        }
    }

    pub fn invalid_response(reason: &str) -> (r: Self)
        ensures
            r.message@ == "AI Provider 返回格式错误："@ + reason@,
            r.http_status is None,
            r.raw_response is None,
    {
        AiProviderError {
            message: concat2("AI Provider 返回格式错误：", reason),
            http_status: None,
            raw_response: None,
        }
    }

    pub fn invalid_response_with_raw(reason: &str, raw_response: String) -> (r: Self)
        ensures
            r.message@ == "AI Provider 返回格式错误："@ + reason@,
            r.http_status is None,
            r.raw_response == Some(raw_response),
    {
        AiProviderError {
            message: concat2("AI Provider 返回格式错误：", reason),
            http_status: None,
            raw_response: Some(raw_response),
        }
    }

    /// An HTTP failure keeps its status; the body is appended only when there is one.
    pub fn http_error(status: u16, body: &str) -> (r: Self)
        ensures
            r.message@ == http_error_text(status, body@),
            r.http_status == Some(status),
            r.raw_response is None,
    {
        let category = if status == 401 || status == 403 {
            "AI Provider API认证失败"
        } else if status == 429 {
            "AI Provider API请求过于频繁"
        } else {
            "AI Provider API请求失败"
        };
        let mut message = concat2(category, "（HTTP ");
        let digits = u64_text(status as u64);
        message.append(digits.as_str());
        message.append("）");
        if body.unicode_len() > 0 {
            message.append("：");
            message.append(body);
        }
        proof {
            if body@.len() == 0 {
                assert(message@ =~= http_error_text(status, body@));
            } else {
                assert(message@ =~= http_error_text(status, body@));
            }
        }
        AiProviderError { message, http_status: Some(status), raw_response: None }
    }

    /// The text the error displays.
    pub fn to_text(&self) -> (r: String)
        ensures
            r@ == self.message@,
    {
        self.message.clone()
    }
}

pub open spec fn service_error_text(e: AiServiceError) -> Seq<char> {
    match e {
        AiServiceError::Provider(p) => "provider error: "@ + p.message@,
        AiServiceError::InvalidOutput(m) => m@,
        AiServiceError::NotConfigured => "AI服务未配置"@,
        AiServiceError::KeychainUnavailable => "无法读取系统钥匙串中的 DeepSeek API Key"@,
        AiServiceError::NoManualSnapshot => "请先更新今日市场快照"@,
        AiServiceError::Context(m) => "AI复盘上下文读取失败："@ + m@,
    }
}

impl AiServiceError {
    /// The text the error displays.
    pub fn message(&self) -> (r: String)
        ensures
            r@ == service_error_text(*self),
    {
        match self {
            AiServiceError::Provider(p) => concat2("provider error: ", p.message.as_str()),
            AiServiceError::InvalidOutput(m) => String::from_str(m),
            AiServiceError::NotConfigured => String::from_str("AI服务未配置"),
            AiServiceError::KeychainUnavailable => String::from_str(
                "无法读取系统钥匙串中的 DeepSeek API Key",
            ),
            AiServiceError::NoManualSnapshot => String::from_str("请先更新今日市场快照"),
            AiServiceError::Context(m) => concat2("AI复盘上下文读取失败：", m.as_str()),
        }
    }
}

// ---------------------------------------------------------------------------------------------
// Redaction
// ---------------------------------------------------------------------------------------------
/// What `String::from_utf8_lossy` gives for the bytes.
pub uninterp spec fn utf8_lossy(bytes: Seq<u8>) -> Seq<char>;

/// `String::from_utf8_lossy(..).into_owned()`.
#[verifier::external_body]
pub(crate) fn lossy_text(bytes: &[u8]) -> (r: String)
    ensures
        r@ == utf8_lossy(bytes@),
{
    String::from_utf8_lossy(bytes).into_owned()
}

/// The key and any bearer header redacted, at most 800 characters (an ellipsis marks a cut),
/// line breaks turned into spaces.
pub open spec fn sanitized_body(body: Seq<u8>, api_key: Seq<char>) -> Seq<char> {
    let v1 = replace_spec(utf8_lossy(body), api_key, "[REDACTED]"@);
    let v2 = replace_spec(v1, "Authorization: Bearer"@, "Authorization: [REDACTED]"@);
    flatten_lines(
        take_chars(v2, 800) + if v2.len() > 800 {
            "…"@
        } else {
            Seq::empty()
        },
    )
}

pub fn sanitize_api_error_body(body: &[u8], api_key: &str) -> (r: String)
    ensures
        r@ == sanitized_body(body@, api_key@),
        redactable_key(api_key@) ==> !contains(r@, api_key@),
{
    proof {
        if redactable_key(api_key@) {
            law_error_body_never_shows_the_key(body@, api_key@);
        }
    }
    let value = lossy_text(body);
    let value = replace_str(value.as_str(), api_key, "[REDACTED]");
    let value = replace_str(value.as_str(), "Authorization: Bearer", "Authorization: [REDACTED]");
    let (mut safe, cut) = take_prefix(value.as_str(), 800);
    if cut {
        safe.append("…");
    }
    proof {
        if cut {
            assert(safe@ =~= take_chars(value@, 800) + "…"@);
        } else {
            assert(safe@ =~= take_chars(value@, 800) + Seq::<char>::empty());
        }
    }
    flatten_line_breaks(safe.as_str())
}

/// A character that a key must not hold for the redaction to be sure to remove it: a line
/// break or space, a bracket of the redaction mark, or the ellipsis of a cut body.
pub open spec fn breaks_redaction(c: char) -> bool {
    c == ' ' || c == '\n' || c == '\r' || c == '[' || c == ']' || c == '…'
}

/// A key the redaction is sure to remove: not empty, none of the characters above, and not part
/// of the word `REDACTED`.
pub open spec fn redactable_key(key: Seq<char>) -> bool {
    &&& key.len() > 0
    &&& forall|m: int| 0 <= m < key.len() ==> !breaks_redaction(#[trigger] key[m])
    &&& !contains("REDACTED"@, key)
}

/// An error body shown to the user never holds the key, has no line break, and is at most 800
/// characters and an ellipsis long. This holds for every key that is not empty, holds none of
/// the characters above, and is not part of the word `REDACTED`.
pub proof fn law_error_body_never_shows_the_key(body: Seq<u8>, api_key: Seq<char>)
    requires
        api_key.len() > 0,
        forall|m: int| 0 <= m < api_key.len() ==> !breaks_redaction(#[trigger] api_key[m]),
        !contains("REDACTED"@, api_key),
    ensures
        !contains(sanitized_body(body, api_key), api_key),
        forall|m: int|
            0 <= m < sanitized_body(body, api_key).len() ==> #[trigger] sanitized_body(body, api_key)[m]
                != '\n' && sanitized_body(body, api_key)[m] != '\r',
        sanitized_body(body, api_key).len() <= 801,
{
    reveal_strlit("[REDACTED]");
    reveal_strlit("REDACTED");
    reveal_strlit("Authorization: Bearer");
    reveal_strlit("Authorization: [REDACTED]");
    reveal_strlit("…");
    let key = api_key;
    let k = key.len() as int;
    let red = "[REDACTED]"@;
    let word = "REDACTED"@;
    let v0 = utf8_lossy(body);
    lemma_redaction_leaves_no_key(v0, key);
    let v1 = replace_spec(v0, key, red);
    let from2 = "Authorization: Bearer"@;
    let to2 = "Authorization: [REDACTED]"@;
    assert(to2.take(14) =~= from2.take(14));
    assert forall|i: int| #[trigger] occurs_at(to2, key, i) implies i + key.len() <= 14 && forall|n: int|
        !occurs_at(v1, key, n) by {
        assert(to2.subrange(i, i + k) == key);
        if i <= 14 < i + k {
            assert(key[14 - i] == to2.subrange(i, i + k)[14 - i]);
        } else if i <= 15 < i + k {
            assert(key[15 - i] == to2.subrange(i, i + k)[15 - i]);
        } else if i <= 24 < i + k {
            assert(key[24 - i] == to2.subrange(i, i + k)[24 - i]);
        } else if i >= 16 {
            assert(word.subrange(i - 16, i - 16 + k) =~= key) by {
                assert forall|m: int| 0 <= m < k implies word.subrange(i - 16, i - 16 + k)[m] == key[m] by {
                    assert(key[m] == to2.subrange(i, i + k)[m]);
                }
            }
            assert(occurs_at(word, key, i - 16));
        }
    }
    lemma_replace_leaves_no_key(v1, from2, to2, key, ' ', 14);
    let v2 = replace_spec(v1, from2, to2);
    let head = take_chars(v2, 800);
    let tail = if v2.len() > 800 {
        "…"@
    } else {
        Seq::empty()
    };
    let t = head + tail;
    assert forall|i: int| !occurs_at(t, key, i) by {
        if occurs_at(t, key, i) {
            assert(t.subrange(i, i + k) == key);
            if i + k <= head.len() {
                assert(v2.subrange(i, i + k) =~= t.subrange(i, i + k));
                assert(occurs_at(v2, key, i));
            } else {
                let m = head.len() - i;
                assert(key[m] == t.subrange(i, i + k)[m]);
                assert(t[head.len() as int] == '…');
            }
        }
    }
    let out = flatten_lines(t);
    assert(out.len() == t.len());
    assert forall|i: int| !occurs_at(out, key, i) by {
        if occurs_at(out, key, i) {
            assert(out.subrange(i, i + k) == key);
            assert(t.subrange(i, i + k) =~= key) by {
                assert forall|m: int| 0 <= m < k implies t.subrange(i, i + k)[m] == key[m] by {
                    assert(key[m] == out.subrange(i, i + k)[m]);
                    assert(!breaks_redaction(key[m]));
                }
            }
            assert(occurs_at(t, key, i));
        }
    }
    assert(out == sanitized_body(body, api_key));
}

/// The key redacted, at most 8000 characters with a truncation marker, line breaks turned into
/// spaces.
pub open spec fn sanitized_response(response: Seq<char>, api_key: Seq<char>) -> Seq<char> {
    let v = replace_spec(response, api_key, "[REDACTED]"@);
    flatten_lines(
        if v.len() > 8000 {
            take_chars(v, 8000) + "…<truncated>"@
        } else {
            v
        },
    )
}

/// Replacing the key by the redaction mark leaves no occurrence of the key, for a key that
/// is not empty, holds no bracket and is not part of the word `REDACTED`.
proof fn lemma_redaction_leaves_no_key(text: Seq<char>, key: Seq<char>)
    requires
        key.len() > 0,
        forall|m: int| 0 <= m < key.len() ==> !breaks_redaction(#[trigger] key[m]),
        !contains("REDACTED"@, key),
    ensures
        forall|i: int| !occurs_at(replace_spec(text, key, "[REDACTED]"@), key, i),
{
    reveal_strlit("[REDACTED]");
    reveal_strlit("REDACTED");
    let k = key.len() as int;
    let red = "[REDACTED]"@;
    let word = "REDACTED"@;
    assert forall|i: int| #[trigger] occurs_at(red, key, i) implies i + key.len() <= 0 && forall|n: int|
        !occurs_at(text, key, n) by {
        assert(red.subrange(i, i + k) == key);
        if i == 0 {
            assert(key[0] == red[0]);
        } else if i + k == 10 {
            assert(key[k - 1] == red.subrange(i, i + k)[k - 1]);
        } else {
            assert(word.subrange(i - 1, i - 1 + k) =~= key) by {
                assert forall|m: int| 0 <= m < k implies word.subrange(i - 1, i - 1 + k)[m] == key[m] by {
                    assert(key[m] == red.subrange(i, i + k)[m]);
                }
            }
            assert(occurs_at(word, key, i - 1));
        }
    }
    assert(red.take(0) =~= key.take(0));
    lemma_replace_leaves_no_key(text, key, red, key, '[', 0);
}

/// A diagnostic response never holds the key and has no line break. This holds for every key
/// that is not empty, holds none of the characters above, and is part of neither `REDACTED` nor
/// the cut mark `<truncated>`.
pub proof fn law_diagnostic_response_never_shows_the_key(response: Seq<char>, api_key: Seq<char>)
    requires
        api_key.len() > 0,
        forall|m: int| 0 <= m < api_key.len() ==> !breaks_redaction(#[trigger] api_key[m]),
        !contains("REDACTED"@, api_key),
        !contains("<truncated>"@, api_key),
    ensures
        !contains(sanitized_response(response, api_key), api_key),
        forall|m: int|
            0 <= m < sanitized_response(response, api_key).len() ==> #[trigger] sanitized_response(
                response,
                api_key,
            )[m] != '\n' && sanitized_response(response, api_key)[m] != '\r',
{
    reveal_strlit("…<truncated>");
    reveal_strlit("<truncated>");
    let key = api_key;
    let k = key.len() as int;
    lemma_redaction_leaves_no_key(response, key);
    let v = replace_spec(response, key, "[REDACTED]"@);
    let mark = "…<truncated>"@;
    let rest = "<truncated>"@;
    let t = if v.len() > 8000 {
        take_chars(v, 8000) + mark
    } else {
        v
    };
    assert forall|i: int| !occurs_at(t, key, i) by {
        if occurs_at(t, key, i) {
            assert(t.subrange(i, i + k) == key);
            if v.len() > 8000 {
                let head = take_chars(v, 8000);
                if i + k <= head.len() {
                    assert(v.subrange(i, i + k) =~= t.subrange(i, i + k));
                    assert(occurs_at(v, key, i));
                } else if i <= head.len() {
                    let m = head.len() - i;
                    assert(key[m] == t.subrange(i, i + k)[m]);
                    assert(t[head.len() as int] == '…');
                } else {
                    let j = i - head.len() - 1;
                    assert(rest.subrange(j, j + k) =~= key) by {
                        assert forall|m: int| 0 <= m < k implies rest.subrange(j, j + k)[m] == key[m] by {
                            assert(key[m] == t.subrange(i, i + k)[m]);
                            assert(t[i + m] == mark[i + m - head.len()]);
                        }
                    }
                    assert(occurs_at(rest, key, j));
                }
            } else {
                assert(occurs_at(v, key, i));
            }
        }
    }
    let out = flatten_lines(t);
    assert forall|i: int| !occurs_at(out, key, i) by {
        if occurs_at(out, key, i) {
            assert(out.subrange(i, i + k) == key);
            assert(t.subrange(i, i + k) =~= key) by {
                assert forall|m: int| 0 <= m < k implies t.subrange(i, i + k)[m] == key[m] by {
                    assert(key[m] == out.subrange(i, i + k)[m]);
                    assert(!breaks_redaction(key[m]));
                }
            }
            assert(occurs_at(t, key, i));
        }
    }
    assert(out == sanitized_response(response, api_key));
}

/// Diagnostics keep a bounded provider response for local troubleshooting, never a key.
pub fn sanitize_diagnostic_response(response: &str, api_key: &str) -> (r: String)
    ensures
        r@ == sanitized_response(response@, api_key@),
        redactable_key(api_key@) && !contains("<truncated>"@, api_key@) ==> !contains(r@, api_key@),
{
    proof {
        if redactable_key(api_key@) && !contains("<truncated>"@, api_key@) {
            law_diagnostic_response_never_shows_the_key(response@, api_key@);
        }
    }
    let safe = replace_str(response, api_key, "[REDACTED]");
    let (prefix, cut) = take_prefix(safe.as_str(), 8000);
    let bounded = if cut {
        concat2(prefix.as_str(), "…<truncated>")
    } else {
        safe
    };
    flatten_line_breaks(bounded.as_str())
}

/// A value written inside a double-quoted curl config string: backslashes doubled, then quotes
/// escaped.
pub open spec fn curl_config_spec(value: Seq<char>) -> Seq<char> {
    replace_spec(replace_spec(value, "\\"@, "\\\\"@), "\""@, "\\\""@)
}

pub fn curl_config_value(value: &str) -> (r: String)
    ensures
        r@ == curl_config_spec(value@),
{
    let escaped = replace_str(value, "\\", "\\\\");
    replace_str(escaped.as_str(), "\"", "\\\"")
}

// ---------------------------------------------------------------------------------------------
// Providers
// ---------------------------------------------------------------------------------------------
pub open spec fn display_name_spec(provider: Seq<char>) -> Seq<char> {
    if provider == "DEEPSEEK"@ {
        "DeepSeek"@
    } else if provider == "TENCENT_TOKENHUB"@ {
        "腾讯混元（TokenHub）"@
    } else if provider == "DOUBAO"@ {
        "豆包"@
    } else {
        "未确认 Provider"@
    }
}

pub fn provider_display_name(provider: &str) -> (r: &'static str)
    ensures
        r@ == display_name_spec(provider@),
{
    if str_eq(provider, "DEEPSEEK") {
        "DeepSeek"
    } else if str_eq(provider, "TENCENT_TOKENHUB") {
        "腾讯混元（TokenHub）"
    } else if str_eq(provider, "DOUBAO") {
        "豆包"
    } else {
        "未确认 Provider"
    }
}

pub open spec fn known_provider(provider: Seq<char>) -> bool {
    provider == "DEEPSEEK"@ || provider == "TENCENT_TOKENHUB"@ || provider == "DOUBAO"@
}

/// The provider's own static name; an unknown provider is not configured.
pub fn provider_static_name(provider: &str) -> (r: Result<&'static str, AiServiceError>)
    ensures
        known_provider(provider@) ==> (r matches Ok(n) && n@ == provider@),
        !known_provider(provider@) ==> (r matches Err(e) && e is NotConfigured),
{
    if str_eq(provider, "DEEPSEEK") {
        Ok("DEEPSEEK")
    } else if str_eq(provider, "TENCENT_TOKENHUB") {
        Ok("TENCENT_TOKENHUB")
    } else if str_eq(provider, "DOUBAO") {
        Ok("DOUBAO")
    } else {
        Err(AiServiceError::NotConfigured)
    }
}

#[derive(Debug)]
pub struct AiProviderConfigView {
    pub provider: String,
    pub display_name: String,
    pub model: String,
    pub endpoint: String,
    pub configured: bool,
    pub enabled: bool,
    /// The first enabled provider with a readable key, by priority. At most one provider name
    /// is current.
    pub is_current: bool,
    pub priority: i64,
}

impl Clone for AiProviderConfigView {
    fn clone(&self) -> (r: Self)
        ensures
            r == *self,
    {
        AiProviderConfigView {
            provider: self.provider.clone(),
            display_name: self.display_name.clone(),
            model: self.model.clone(),
            endpoint: self.endpoint.clone(),
            configured: self.configured,
            enabled: self.enabled,
            is_current: self.is_current,
            priority: self.priority,
        }
    }
}

pub open spec fn eligible(c: AiProviderConfigView) -> bool {
    c.enabled && c.configured
}

/// The position of the eligible provider with the lowest priority, the first of equal ones.
pub open spec fn current_index(cs: Seq<AiProviderConfigView>) -> Option<int>
    decreases cs.len(),
{
    if cs.len() == 0 {
        None
    } else {
        match current_index(cs.drop_last()) {
            None => if eligible(cs.last()) {
                Some(cs.len() - 1)
            } else {
                None
            },
            Some(b) => if eligible(cs.last()) && cs.last().priority < cs[b].priority {
                Some(cs.len() - 1)
            } else {
                Some(b)
            },
        }
    }
}

proof fn lemma_current_index_bound(cs: Seq<AiProviderConfigView>)
    ensures
        current_index(cs) matches Some(b) ==> 0 <= b < cs.len() && eligible(cs[b]),
    decreases cs.len(),
{
    if cs.len() > 0 {
        lemma_current_index_bound(cs.drop_last());
        match current_index(cs.drop_last()) {
            Some(b) => {
                assert(cs.drop_last()[b] == cs[b]);
            },
            None => {},
        }
    }
}

/// The selection is the first eligible provider of the lowest priority, and none when no
/// provider is both enabled and configured.
pub proof fn law_current_provider_is_first_of_lowest_priority(cs: Seq<AiProviderConfigView>)
    ensures
        match current_index(cs) {
            None => forall|k: int| 0 <= k < cs.len() ==> !eligible(#[trigger] cs[k]),
            Some(b) => {
                &&& 0 <= b < cs.len()
                &&& eligible(cs[b])
                &&& forall|k: int|
                    0 <= k < cs.len() && eligible(#[trigger] cs[k]) ==> cs[b].priority <= cs[k].priority
                        && (k < b ==> cs[b].priority < cs[k].priority)
            },
        },
    decreases cs.len(),
{
    if cs.len() > 0 {
        let d = cs.drop_last();
        law_current_provider_is_first_of_lowest_priority(d);
        let n = cs.len() - 1;
        assert forall|k: int| 0 <= k < n implies #[trigger] d[k] == cs[k] by {}
        match current_index(d) {
            None => {
                if eligible(cs[n]) {
                    assert forall|k: int| 0 <= k < cs.len() && eligible(#[trigger] cs[k]) implies cs[n].priority
                        <= cs[k].priority && (k < n ==> cs[n].priority < cs[k].priority) by {
                        if k < n {
                            assert(!eligible(d[k]));
                        }
                    }
                } else {
                    assert forall|k: int| 0 <= k < cs.len() implies !eligible(#[trigger] cs[k]) by {
                        if k < n {
                            assert(!eligible(d[k]));
                        }
                    }
                }
            },
            Some(b) => {
                assert(d[b] == cs[b]);
                if eligible(cs[n]) && cs[n].priority < cs[b].priority {
                    assert forall|k: int| 0 <= k < cs.len() && eligible(#[trigger] cs[k]) implies cs[n].priority
                        <= cs[k].priority && (k < n ==> cs[n].priority < cs[k].priority) by {
                        if k < n {
                            assert(eligible(d[k]));
                        }
                    }
                } else {
                    assert forall|k: int| 0 <= k < cs.len() && eligible(#[trigger] cs[k]) implies cs[b].priority
                        <= cs[k].priority && (k < b ==> cs[b].priority < cs[k].priority) by {
                        if k < n {
                            assert(eligible(d[k]));
                        }
                    }
                }
            },
        }
    }
}

/// Position `b` holds the first eligible provider of the lowest priority.
pub open spec fn first_of_lowest(cs: Seq<AiProviderConfigView>, b: int) -> bool {
    &&& 0 <= b < cs.len()
    &&& eligible(cs[b])
    &&& forall|k: int|
        0 <= k < cs.len() && eligible(#[trigger] cs[k]) ==> cs[b].priority <= cs[k].priority && (k < b
            ==> cs[b].priority < cs[k].priority)
}

/// After marking, an entry is current exactly when some first eligible provider of the lowest
/// priority carries its provider name; with no eligible provider, none is current.
pub proof fn law_marked_current_is_the_first_of_lowest_priority(
    marked_cs: Seq<AiProviderConfigView>,
    cs: Seq<AiProviderConfigView>,
    i: int,
)
    requires
        marked_cs.len() == cs.len(),
        forall|k: int| 0 <= k < cs.len() ==> marked(#[trigger] marked_cs[k], cs[k], cs),
        0 <= i < cs.len(),
    ensures
        marked_cs[i].is_current <==> exists|b: int| first_of_lowest(cs, b) && #[trigger] cs[b].provider@
            == cs[i].provider@,
{
    law_current_provider_is_first_of_lowest_priority(cs);
    assert(marked(marked_cs[i], cs[i], cs));
    assert forall|b: int| first_of_lowest(cs, b) implies current_index(cs) == Some(b) by {
        match current_index(cs) {
            Some(c) => {
                if c < b {
                    assert(eligible(cs[c]));
                } else if b < c {
                    assert(eligible(cs[b]));
                }
            },
            None => {
                assert(eligible(cs[b]));
            },
        }
    }
    match current_index(cs) {
        Some(c) => {
            assert(first_of_lowest(cs, c));
        },
        None => {},
    }
}

/// With distinct provider names, at most one entry is marked current.
pub proof fn law_at_most_one_current_provider(
    marked_cs: Seq<AiProviderConfigView>,
    cs: Seq<AiProviderConfigView>,
    i: int,
    j: int,
)
    requires
        marked_cs.len() == cs.len(),
        forall|k: int| 0 <= k < cs.len() ==> marked(#[trigger] marked_cs[k], cs[k], cs),
        forall|k: int, m: int| 0 <= k < m < cs.len() ==> #[trigger] cs[k].provider@ != #[trigger] cs[m].provider@,
        0 <= i < cs.len(),
        0 <= j < cs.len(),
        marked_cs[i].is_current,
        marked_cs[j].is_current,
    ensures
        i == j,
{
    assert(marked(marked_cs[i], cs[i], cs));
    assert(marked(marked_cs[j], cs[j], cs));
    if i < j {
        assert(cs[i].provider@ != cs[j].provider@);
    } else if j < i {
        assert(cs[j].provider@ != cs[i].provider@);
    }
}

/// `c` is `old` with the current flag set as the selection decides.
pub open spec fn marked(c: AiProviderConfigView, old: AiProviderConfigView, cs: Seq<AiProviderConfigView>) -> bool {
    &&& c.provider == old.provider
    &&& c.display_name == old.display_name
    &&& c.model == old.model
    &&& c.endpoint == old.endpoint
    &&& c.configured == old.configured
    &&& c.enabled == old.enabled
    &&& c.priority == old.priority
    &&& c.is_current == (current_index(cs) matches Some(b) && cs[b].provider@ == old.provider@)
}

/// Marks the runtime selection: the enabled, configured provider with the lowest priority is
/// current, together with any entry of the same provider name; every other entry is not.
pub fn mark_current_provider(configs: &mut Vec<AiProviderConfigView>)
    ensures
        final(configs)@.len() == old(configs)@.len(),
        forall|i: int|
            0 <= i < old(configs)@.len() ==> marked(
                #[trigger] final(configs)@[i],
                old(configs)@[i],
                old(configs)@,
            ),
{
    let ghost original = configs@;
    let mut best: Option<usize> = None;
    let mut i: usize = 0;
    while i < configs.len()
        invariant
            0 <= i <= configs@.len(),
            configs@ == original,
            match (best, current_index(original.take(i as int))) {
                (Some(a), Some(b)) => a == b,
                (None, None) => true,
                _ => false,
            },
        decreases configs@.len() - i,
    {
        proof {
            assert(original.take(i as int + 1).drop_last() =~= original.take(i as int));
            assert(original.take(i as int + 1).last() == original[i as int]);
            lemma_current_index_bound(original.take(i as int));
            match best {
                Some(b) => {
                    assert(original.take(i as int)[b as int] == original[b as int]);
                    assert(original.take(i as int + 1)[b as int] == original[b as int]);
                },
                None => {},
            }
        }
        let c = &configs[i];
        if c.enabled && c.configured {
            best = match best {
                None => Some(i),
                Some(b) => if c.priority < configs[b].priority {
                    Some(i)
                } else {
                    Some(b)
                },
            };
        }
        i = i + 1;
    }
    proof {
        assert(original.take(original.len() as int) =~= original);
        lemma_current_index_bound(original);
    }
    let current: Option<String> = match best {
        Some(b) => Some(configs[b].provider.clone()),
        None => None,
    };
    let mut j: usize = 0;
    while j < configs.len()
        invariant
            0 <= j <= configs@.len() == original.len(),
            match (current, current_index(original)) {
                (Some(p), Some(b)) => p@ == original[b].provider@,
                (None, None) => true,
                _ => false,
            },
            forall|k: int| 0 <= k < j ==> marked(#[trigger] configs@[k], original[k], original),
            forall|k: int| j <= k < configs@.len() ==> configs@[k] == original[k],
        decreases configs@.len() - j,
    {
        let mut c = configs[j].clone();
        c.is_current = match &current {
            Some(p) => str_eq(p.as_str(), c.provider.as_str()),
            None => false,
        };
        configs.set(j, c);
        j = j + 1;
    }
}

#[derive(Debug)]
pub struct AiServiceStatusView {
    pub configured: bool,
    pub model: Option<String>,
}

pub open spec fn status_view_is(v: AiServiceStatusView, configured: bool) -> bool {
    &&& v.configured == configured
    &&& if configured {
        v.model matches Some(m) && m@ == "deepseek-chat"@
    } else {
        v.model is None
    }
}

/// The key status read reports a configured key.
pub open spec fn reports_configured(read: Result<DeepSeekStatusView, SecureStorageError>) -> bool {
    read matches Ok(v) && v.status@ == "已配置"@
}

pub struct AiService;

impl AiService {
    /// The status for a DeepSeek key status read: configured only when the read succeeded and
    /// reported a configured key.
    pub fn status_from(read: Result<DeepSeekStatusView, SecureStorageError>) -> (r:
        AiServiceStatusView)
        ensures
            status_view_is(r, read matches Ok(v) && v.status@ == "已配置"@),
    {
        let configured = match &read {
            Ok(view) => str_eq(view.status.as_str(), "已配置"),
            Err(_) => false,
        };
        AiServiceStatusView {
            configured,
            model: if configured {
                Some(String::from_str("deepseek-chat"))
            } else {
                None
            },
        }
    }

    /// Whether a DeepSeek key is configured, by the DeepSeek key status read from the system
    /// store; the model is named only when it is.
    pub fn status() -> (r: AiServiceStatusView)
        ensures
            status_view_is(r, r.configured),
            exists|read: Result<DeepSeekStatusView, SecureStorageError>|
                call_ensures(get_deepseek_status, (), read) && status_view_is(
                    r,
                    #[trigger] reports_configured(read),
                ),
    {
        let read = get_deepseek_status();
        let ghost given = read;
        let r = Self::status_from(read);
        proof {
            assert(status_view_is(r, reports_configured(given)));
        }
        r
    }
}

// ---------------------------------------------------------------------------------------------
// Connection test
// ---------------------------------------------------------------------------------------------
/// One step of a JSON pointer: a member of an object, or element 0 of an array for `0`.
pub open spec fn pointer_step(v: Option<JsonValue>, token: Seq<char>) -> Option<JsonValue> {
    match v {
        Some(JsonValue::Object(entries)) => lookup(entries@, token),
        Some(JsonValue::Array(items)) => if token == "0"@ && items@.len() > 0 {
            Some(items@[0])
        } else {
            None
        },
        _ => None,
    }
}

/// `/choices/0/message/content`.
pub open spec fn message_content(response: JsonValue) -> Option<JsonValue> {
    pointer_step(
        pointer_step(pointer_step(pointer_step(Some(response), "choices"@), "0"@), "message"@),
        "content"@,
    )
}

pub open spec fn has_message_spec(response: JsonValue) -> bool {
    message_content(response) matches Some(JsonValue::Str(s)) && !blank(s@)
}

fn step<'a>(v: Option<&'a JsonValue>, token: &str) -> (r: Option<&'a JsonValue>)
    ensures
        match (r, pointer_step(
            match v {
                Some(x) => Some(*x),
                None => None,
            },
            token@,
        )) {
            (Some(a), Some(b)) => *a == b,
            (None, None) => true,
            _ => false,
        },
{
    match v {
        Some(x) => match x {
            JsonValue::Object(_) => x.get(token),
            JsonValue::Array(items) => if str_eq(token, "0") && items.len() > 0 {
                Some(&items[0])
            } else {
                None
            },
            _ => None,
        },
        None => None,
    }
}

pub fn connection_response_has_message(response: &JsonValue) -> (r: bool)
    ensures
        r == has_message_spec(*response),
{
    let content = step(step(step(step(Some(response), "choices"), "0"), "message"), "content");
    match content {
        Some(JsonValue::Str(s)) => !is_blank(s.as_str()),
        _ => false,
    }
}

#[derive(Debug)]
pub struct AiProviderConnectionTestView {
    pub provider: String,
    pub model: String,
    pub success: bool,
    pub http_status: Option<u16>,
    pub message: String,
}

/// The result of a connection test when no key is stored: nothing is sent.
pub fn connection_test_without_key(provider: String, model: String) -> (r:
    AiProviderConnectionTestView)
    ensures
        r.provider == provider,
        r.model == model,
        !r.success,
        r.http_status is None,
        r.message@ == "API Key 未配置"@,
{
    AiProviderConnectionTestView {
        provider,
        model,
        success: false,
        http_status: None,
        message: String::from_str("API Key 未配置"),
    }
}

/// The result of a connection test for the provider's answer: success needs a non-empty
/// message content; a failure keeps the provider's status and safe message.
pub fn connection_test_result(
    provider: String,
    model: String,
    answer: Result<JsonValue, AiProviderError>,
) -> (r: AiProviderConnectionTestView)
    ensures
        r.provider == provider,
        r.model@ == model@,
        match answer {
            Ok(response) => {
                &&& r.success == has_message_spec(response)
                &&& r.http_status == Some(200u16)
                &&& r.message@ == if has_message_spec(response) {
                    "连接成功，模型："@ + model@
                } else {
                    "模型响应格式错误：缺少 choices[0].message.content"@
                }
            },
            Err(e) => !r.success && r.http_status == e.http_status && r.message@ == e.message@,
        },
{
    match answer {
        Ok(response) => {
            if connection_response_has_message(&response) {
                let message = concat2("连接成功，模型：", model.as_str());
                AiProviderConnectionTestView {
                    provider,
                    model,
                    success: true,
                    http_status: Some(200),
                    message,
                }
            } else {
                AiProviderConnectionTestView {
                    provider,
                    model,
                    success: false,
                    http_status: Some(200),
                    message: String::from_str("模型响应格式错误：缺少 choices[0].message.content"),
                }
            }
        },
        Err(error) => AiProviderConnectionTestView {
            provider,
            model,
            success: false,
            http_status: error.http_status,
            message: error.message,
        },
    }
}

// ---------------------------------------------------------------------------------------------
// Freshness of the research snapshot
// ---------------------------------------------------------------------------------------------
/// A snapshot is stale when its completion time cannot be read or is at least five whole
/// minutes before `now`.
pub open spec fn stale_at_spec(completed_at: Seq<char>, now: UtcTime) -> bool {
    match rfc3339_parse(completed_at) {
        None => true,
        Some(t) => now.instant() - t.instant() >= 300 * NANOS_PER_SECOND as int,
    }
}

pub fn snapshot_is_stale_at(completed_at: &str, now: UtcTime) -> (r: bool)
    ensures
        r == stale_at_spec(completed_at@, now),
{
    match parse_rfc3339(completed_at) {
        None => true,
        Some(t) => now.nanos_since(&t) >= 300 * NANOS_PER_SECOND,
    }
}

/// Staleness against the current time: the staleness at the instant the clock was read.
pub fn snapshot_is_stale(completed_at: &str) -> (r: bool)
    ensures
        exists|now: UtcTime| now.valid() && r == stale_at_spec(completed_at@, now),
        rfc3339_parse(completed_at@) is None ==> r,
{
    let now = now_utc();
    let r = snapshot_is_stale_at(completed_at, now);
    proof {
        assert(now.valid() && r == stale_at_spec(completed_at@, now));
    }
    r
}

// ---------------------------------------------------------------------------------------------
// Accepting provider sections
// ---------------------------------------------------------------------------------------------
/// A required narrative section: present and not blank.
pub open spec fn present(s: Option<String>) -> bool {
    s matches Some(x) && !blank(x@)
}

pub open spec fn all_present(s: AiReviewSections) -> bool {
    &&& present(s.stock_status)
    &&& present(s.market_analysis)
    &&& present(s.sector_analysis)
    &&& present(s.news_analysis)
    &&& present(s.technical_analysis)
    &&& present(s.strategy_reference)
    &&& present(s.conclusion)
    &&& present(s.actions)
}

pub open spec fn trimmed(s: Option<String>) -> Seq<char> {
    match s {
        Some(x) => trim(x@),
        None => Seq::empty(),
    }
}

pub open spec fn list_or_empty<T>(v: Option<Vec<T>>) -> Seq<T> {
    match v {
        Some(x) => x@,
        None => Seq::empty(),
    }
}

/// The report checks applied to the report the sections make.
pub open spec fn sections_report_check(s: AiReviewSections) -> Option<Seq<char>> {
    if !all_present(s) {
        Some("AI投研报告缺少必填维度"@)
    } else {
        report_parts_check(
            seq![
                trimmed(s.stock_status),
                trimmed(s.market_analysis),
                trimmed(s.sector_analysis),
                trimmed(s.news_analysis),
                trimmed(s.technical_analysis),
                trimmed(s.strategy_reference),
                trimmed(s.conclusion),
            ],
            trimmed(s.actions),
            list_or_empty(s.core_drivers),
            s.market_thesis,
            s.bull_bear_analysis,
            list_or_empty(s.future_catalysts),
            list_or_empty(s.risk_factors),
            s.research_score,
        )
    }
}

/// `r` is the report the sections make: trimmed narratives and the structured parts as given.
pub open spec fn report_of(r: AiResearchReport, s: AiReviewSections) -> bool {
    &&& r.stock_status@ == trimmed(s.stock_status)
    &&& r.market_analysis@ == trimmed(s.market_analysis)
    &&& r.sector_analysis@ == trimmed(s.sector_analysis)
    &&& r.news_analysis@ == trimmed(s.news_analysis)
    &&& r.technical_analysis@ == trimmed(s.technical_analysis)
    &&& r.strategy_reference@ == trimmed(s.strategy_reference)
    &&& r.conclusion@ == trimmed(s.conclusion)
    &&& r.actions@ == trimmed(s.actions)
    &&& r.core_drivers@ == list_or_empty(s.core_drivers)
    &&& r.market_thesis == s.market_thesis
    &&& r.bull_bear_analysis == s.bull_bear_analysis
    &&& r.future_catalysts@ == list_or_empty(s.future_catalysts)
    &&& r.risk_factors@ == list_or_empty(s.risk_factors)
    &&& r.research_score == s.research_score
}

fn trimmed_text(s: &Option<String>) -> (r: String)
    ensures
        r@ == trimmed(*s),
{
    match s {
        Some(x) => trim_str(x.as_str()),
        None => String::new(),
    }
}

fn is_present(s: &Option<String>) -> (r: bool)
    ensures
        r == present(*s),
{
    match s {
        Some(x) => !is_blank(x.as_str()),
        None => false,
    }
}

fn sections_all_present(s: &AiReviewSections) -> (r: bool)
    ensures
        r == all_present(*s),
{
    is_present(&s.stock_status) && is_present(&s.market_analysis) && is_present(&s.sector_analysis)
        && is_present(&s.news_analysis) && is_present(&s.technical_analysis) && is_present(
        &s.strategy_reference,
    ) && is_present(&s.conclusion) && is_present(&s.actions)
}

/// The report checks of the sections, without building the report.
pub fn check_sections_report(s: &AiReviewSections) -> (r: Result<(), AiServiceError>)
    ensures
        checked(r, sections_report_check(*s)),
{
    if !sections_all_present(s) {
        return Err(AiServiceError::InvalidOutput("AI投研报告缺少必填维度"));
    }
    let empty_drivers = Vec::new();
    let empty_catalysts = Vec::new();
    let empty_risks = Vec::new();
    let drivers = match &s.core_drivers {
        Some(v) => v,
        None => &empty_drivers,
    };
    let catalysts = match &s.future_catalysts {
        Some(v) => v,
        None => &empty_catalysts,
    };
    let risks = match &s.risk_factors {
        Some(v) => v,
        None => &empty_risks,
    };
    let stock_status = trimmed_text(&s.stock_status);
    let market_analysis = trimmed_text(&s.market_analysis);
    let sector_analysis = trimmed_text(&s.sector_analysis);
    let news_analysis = trimmed_text(&s.news_analysis);
    let technical_analysis = trimmed_text(&s.technical_analysis);
    let strategy_reference = trimmed_text(&s.strategy_reference);
    let conclusion = trimmed_text(&s.conclusion);
    let actions = trimmed_text(&s.actions);
    validate_report_parts(
        stock_status.as_str(),
        market_analysis.as_str(),
        sector_analysis.as_str(),
        news_analysis.as_str(),
        technical_analysis.as_str(),
        strategy_reference.as_str(),
        conclusion.as_str(),
        actions.as_str(),
        drivers,
        &s.market_thesis,
        &s.bull_bear_analysis,
        catalysts,
        risks,
        &s.research_score,
    )
}

fn into_trimmed(s: Option<String>) -> (r: String)
    ensures
        r@ == trimmed(s),
{
    match s {
        Some(x) => trim_str(x.as_str()),
        None => String::new(),
    }
}

fn into_list<T>(v: Option<Vec<T>>) -> (r: Vec<T>)
    ensures
        r@ == list_or_empty(v),
{
    match v {
        Some(x) => x,
        None => Vec::new(),
    }
}

/// The report the sections make: every narrative section, actions included, must be present;
/// the report is then validated.
pub fn report_from_sections(sections: AiReviewSections) -> (r: Result<AiResearchReport, AiServiceError>)
    ensures
        match (r, sections_report_check(sections)) {
            (Ok(report), None) => report_of(report, sections),
            (Err(e), Some(m)) => invalid_output(e, m),
            _ => false,
        },
{
    match check_sections_report(&sections) {
        Ok(()) => {},
        Err(e) => return Err(e),
    }
    let ghost original = sections;
    let AiReviewSections {
        facts: _,
        inferences: _,
        risks: _,
        stock_status,
        market_analysis,
        sector_analysis,
        news_analysis,
        technical_analysis,
        strategy_reference,
        conclusion,
        actions,
        core_drivers,
        market_thesis,
        bull_bear_analysis,
        future_catalysts,
        risk_factors,
        research_score,
    } = sections;
    Ok(
        AiResearchReport {
            stock_status: into_trimmed(stock_status),
            market_analysis: into_trimmed(market_analysis),
            sector_analysis: into_trimmed(sector_analysis),
            news_analysis: into_trimmed(news_analysis),
            technical_analysis: into_trimmed(technical_analysis),
            strategy_reference: into_trimmed(strategy_reference),
            conclusion: into_trimmed(conclusion),
            actions: into_trimmed(actions),
            core_drivers: into_list(core_drivers),
            market_thesis,
            bull_bear_analysis,
            future_catalysts: into_list(future_catalysts),
            risk_factors: into_list(risk_factors),
            research_score,
        },
    )
}

/// A review ready to persist: the audited lists and the validated report.
#[derive(Debug)]
pub struct AcceptedReview {
    pub facts: Vec<String>,
    pub inferences: Vec<String>,
    pub risks: Vec<String>,
    pub report: AiResearchReport,
}

/// All checks a provider answer passes before anything is persisted: the sections, the report
/// they make, and the report's citations of the evidence context.
pub open spec fn acceptance_check(s: AiReviewSections, report: AiResearchReport, context: JsonValue) -> Option<
    Seq<char>,
> {
    match sections_check(s) {
        Some(m) => Some(m),
        None => match sections_report_check(s) {
            Some(m) => Some(m),
            None => evidence_check(report, context),
        },
    }
}

/// The report's citation check fails with `e`.
pub open spec fn evidence_rejects(report: AiResearchReport, context: JsonValue, e: AiServiceError) -> bool {
    match evidence_check(report, context) {
        Some(m) => invalid_output(e, m),
        None => false,
    }
}

/// `e` is the error of the first check the answer fails: the sections, then the report they
/// make, then that report's citations of the evidence context.
pub open spec fn rejected_with(e: AiServiceError, s: AiReviewSections, context: JsonValue) -> bool {
    match sections_check(s) {
        Some(m) => invalid_output(e, m),
        None => match sections_report_check(s) {
            Some(m) => invalid_output(e, m),
            None => exists|report: AiResearchReport|
                report_of(report, s) && #[trigger] evidence_rejects(report, context, e),
        },
    }
}

/// The sections fix the citation check: every report made of the same sections passes or fails
/// it alike, with the same message.
pub proof fn law_sections_fix_the_evidence_check(
    first: AiResearchReport,
    second: AiResearchReport,
    s: AiReviewSections,
    context: JsonValue,
)
    requires
        report_of(first, s),
        report_of(second, s),
    ensures
        evidence_check(first, context) == evidence_check(second, context),
{
    assert(first.core_drivers@ == second.core_drivers@);
    assert(first.future_catalysts@ == second.future_catalysts@);
    assert(first.risk_factors@ == second.risk_factors@);
    assert(report_cites(first, context.get_spec("allowedEvidenceIds"@)->Some_0->Array_0@) == report_cites(
        second,
        context.get_spec("allowedEvidenceIds"@)->Some_0->Array_0@,
    ));
}

/// Validates a provider answer. Nothing is kept of an answer that fails any check.
pub fn accept_provider_sections(sections: AiReviewSections, research_context: &JsonValue) -> (r:
    Result<AcceptedReview, AiServiceError>)
    ensures
        r matches Ok(a) ==> {
            &&& sections_check(sections) is None
            &&& sections_report_check(sections) is None
            &&& report_of(a.report, sections)
            &&& evidence_check(a.report, *research_context) is None
            &&& a.facts@ == sections.facts@
            &&& a.inferences@ == sections.inferences@
            &&& a.risks@ == sections.risks@
        },
        r matches Err(e) ==> rejected_with(e, sections, *research_context),
{
    match validate_sections(&sections) {
        Ok(()) => {},
        Err(e) => return Err(e),
    }
    let ghost original = sections;
    let facts = sections.facts.clone();
    let inferences = sections.inferences.clone();
    let risks = sections.risks.clone();
    proof {
        assert(facts@ =~= original.facts@);
        assert(inferences@ =~= original.inferences@);
        assert(risks@ =~= original.risks@);
    }
    let report = match report_from_sections(sections) {
        Ok(r) => r,
        Err(e) => return Err(e),
    };
    match validate_report_against_evidence(&report, research_context) {
        Ok(()) => {},
        Err(e) => {
            proof {
                assert(evidence_rejects(report, *research_context, e));
            }
            return Err(e);
        },
    }
    Ok(AcceptedReview { facts, inferences, risks, report })
}


// ---------------------------------------------------------------------------------------------
// Stored reviews
// ---------------------------------------------------------------------------------------------
#[derive(Debug, Clone)]
pub struct AiReviewView {
    pub id: i64,
    pub review_id: i64,
    pub model: String,
    pub prompt_version: String,
    pub facts: Vec<String>,
    pub inferences: Vec<String>,
    pub risks: Vec<String>,
    pub report: Option<AiResearchReport>,
    pub security_id: Option<i64>,
    pub security_name: Option<String>,
    pub security_symbol: Option<String>,
    pub created_at: String,
}

/// The checks on a review's three lists.
pub open spec fn lists_check(facts: Seq<String>, inferences: Seq<String>, risks: Seq<String>) -> Option<
    Seq<char>,
> {
    entries_check(views(facts) + views(inferences) + views(risks), "AI输出包含空内容"@)
}

/// The check a stored review fails first, if any: its lists, then its report when it has one.
pub open spec fn stored_review_check(
    facts: Seq<String>,
    inferences: Seq<String>,
    risks: Seq<String>,
    report: Option<AiResearchReport>,
) -> Option<Seq<char>> {
    match lists_check(facts, inferences, risks) {
        Some(m) => Some(m),
        None => match report {
            Some(rep) => report_check(rep),
            None => None,
        },
    }
}

/// A stored review as shown, from its row and its decoded lists and report. A stored review
/// passes the checks a new answer passes, so a corrupted row is refused, never shown.
pub fn stored_review_view(
    record: AiReview,
    facts: Vec<String>,
    inferences: Vec<String>,
    risks: Vec<String>,
    report: Option<AiResearchReport>,
) -> (r: Result<AiReviewView, AiServiceError>)
    ensures
        match stored_review_check(facts@, inferences@, risks@, report) {
            Some(m) => r matches Err(e) && invalid_output(e, m),
            None => r matches Ok(v) && {
                &&& v.id == record.id
                &&& v.review_id == record.review_id
                &&& v.model == record.model
                &&& v.prompt_version == record.prompt_version
                &&& v.facts == facts
                &&& v.inferences == inferences
                &&& v.risks == risks
                &&& v.report == report
                &&& v.security_id == record.security_id
                &&& v.security_name == record.security_name
                &&& v.security_symbol == record.security_symbol
                &&& v.created_at == record.created_at
            },
        },
{
    let sections = AiReviewSections {
        facts,
        inferences,
        risks,
        stock_status: None,
        market_analysis: None,
        sector_analysis: None,
        news_analysis: None,
        technical_analysis: None,
        strategy_reference: None,
        conclusion: None,
        actions: None,
        core_drivers: None,
        market_thesis: None,
        bull_bear_analysis: None,
        future_catalysts: None,
        risk_factors: None,
        research_score: None,
    };
    match validate_sections(&sections) {
        Ok(()) => {},
        Err(e) => return Err(e),
    }
    match &report {
        Some(rep) => match validate_report(rep) {
            Ok(()) => {},
            Err(e) => return Err(e),
        },
        None => {},
    }
    Ok(
        AiReviewView {
            id: record.id,
            review_id: record.review_id,
            model: record.model,
            prompt_version: record.prompt_version,
            facts: sections.facts,
            inferences: sections.inferences,
            risks: sections.risks,
            report,
            security_id: record.security_id,
            security_name: record.security_name,
            security_symbol: record.security_symbol,
            created_at: record.created_at,
        },
    )
}


// ---------------------------------------------------------------------------------------------
// The provider's HTTP status
// ---------------------------------------------------------------------------------------------
/// The status curl wrote on its standard output (`%{http_code}`). Bytes that are not UTF-8 give
/// no status: their lossy text holds a replacement character, neither whitespace nor a digit.
pub open spec fn written_http_status(stdout: Seq<u8>) -> Option<u16> {
    u16_value(trim(utf8_lossy(stdout)))
}

/// A provider exchange before its body is read as JSON: a missing status, or a status outside
/// 2xx with the redacted body, is the error; otherwise the status.
pub fn provider_http_status(stdout: &[u8], body: &[u8], api_key: &str) -> (r: Result<u16, AiProviderError>)
    ensures
        match written_http_status(stdout@) {
            None => r matches Err(e) && e.message@ == "AI Provider 返回格式错误："@ + "缺少HTTP状态码"@
                && e.http_status is None && e.raw_response is None,
            Some(s) => if 200 <= s < 300 {
                r == Ok::<u16, AiProviderError>(s)
            } else {
                r matches Err(e) && e.message@ == http_error_text(s, sanitized_body(body@, api_key@))
                    && e.http_status == Some(s) && e.raw_response is None
            },
        },
{
    let text = lossy_text(stdout);
    let trimmed = crate::text::trim_vec(&crate::text::chars_of(text.as_str()));
    match parse_u16(&trimmed) {
        None => Err(AiProviderError::invalid_response("缺少HTTP状态码")),
        Some(status) => if 200 <= status && status < 300 {
            Ok(status)
        } else {
            let safe = sanitize_api_error_body(body, api_key);
            Err(AiProviderError::http_error(status, safe.as_str()))
        },
    }
}


// ---------------------------------------------------------------------------------------------
// The instructions sent with every research request
// ---------------------------------------------------------------------------------------------
/// The system message of a research request: the JSON shape to answer in, the evidence and
/// credibility rules, and the ban on trading advice.
pub const RESEARCH_REPORT_SYSTEM_PROMPT: &'static str = "你是个人股票研究与复盘助手。仅依据输入 JSON 的 Evidence Context 输出严格 JSON 对象。必须包含既有审计字段 facts:[string]、inferences:[string]、risks:[string]、stock_status:string、market_analysis:string、sector_analysis:string、news_analysis:string、technical_analysis:string、strategy_reference:string、conclusion:string、actions:string，以及 Research Report V2 字段：coreDrivers:[{title,rationale,impactLevel,evidenceIds}]、marketThesis:{summary,facts,expectations,sentiment,evidenceIds}、bullBearAnalysis:{bull:[{view,basis,evidenceIds}],bear:[{view,basis,evidenceIds}],keyDivergence,evidenceIds}、futureCatalysts:[{timeWindow,title,source,credibility,time,evidenceIds}]、riskFactors:[{level,title,reason,evidenceIds}]、researchScore:{fundamentalAttention,technicalState,marketHeat,sentimentState,riskLevel,overall,explanation}。每一个 V2 分析条目必须列出 evidenceIds：只能使用输入 researchContext.allowedEvidenceIds 中的 ID；资料不足时使用 NO_DATA，并写“暂无数据”或“未确认”。今日核心驱动必须解释当日涨跌/波动的已知驱动与当前交易逻辑，而非罗列新闻；impactLevel 仅能为 HIGH、MEDIUM、LOW。marketThesis 必须明确分开 facts（事实）、expectations（市场预期）、sentiment（情绪驱动）。bullBearAnalysis 只分析市场多空观点与最大分歧，严禁给出交易指令。futureCatalysts 仅列输入事件或情报支持的 1D/3D/7D 催化，每项必须带来源、可信度、时间。riskFactors 必须按 HIGH、MEDIUM、LOW 顺序，并说明原因。researchScore 的六项值只能为 0-100，是当前研究状态评分，非涨跌预测、非投资建议，explanation 必须说明依据和局限。FACTS 只能陈述带 source、时间或 evidence 的输入事实；INFERENCES 必须说明基于哪些事实推断；RISKS 只列不确定性、数据缺失或需核验事项。技术面只能基于 technical 字段；profile.status 非 VERIFIED 或资料缺失时，必须写“暂无可验证股票画像”，不得猜测公司、行业、板块或概念。intelligence.verifiedIntelligence 中仅 A/B 级信息可作为事实；C 级仅可作为行业参考；communityOpinion 只能称为社区观点或情绪线索，rumors 只能作为未证实传闻、风险或观察项，绝不可作为 FACTS。不得提及持仓成本、盈亏、是否实际持仓或账户资产。不得输出买入、卖出、加仓、减仓、建仓、清仓、止盈、止损、目标价、收益预测、收益承诺、保证收益、必涨、必跌、稳赚或任何未来确定性/交易建议；actions 只能写“本报告不提供交易建议，建议持续观察的证据条件：…”。输出只能是 JSON 对象，禁止 Markdown、代码块、前后缀说明或额外解释文本；至少固定包含 {\"facts\":[],\"inferences\":[],\"risks\":[],\"strategy_reference\":\"\"}。数据缺失时明确“暂无数据”或“未确认”，绝不补造事实。";

pub fn research_report_system_prompt() -> (r: &'static str)
    ensures
        r@ == RESEARCH_REPORT_SYSTEM_PROMPT@,
{
    RESEARCH_REPORT_SYSTEM_PROMPT
}

} // verus!
