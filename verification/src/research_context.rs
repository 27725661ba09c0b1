//! The research context handed to an AI provider with each security's evidence: the company
//! profile, the catalogue of evidence ids a report may cite, and the evidence policy.
use vstd::prelude::*;

use crate::ai_report::views;
use crate::ai_response::{allowed_evidence_ids, candidate_ids, sorted_unique};
use crate::json::{json_parse, JsonValue};
use crate::records::SecurityProfile;
use crate::text::str_eq;

verus! {

/// The member names of an object, in order.
pub open spec fn keys_of(fs: Seq<(String, JsonValue)>) -> Seq<Seq<char>> {
    fs.map_values(|f: (String, JsonValue)| f.0@)
}

pub open spec fn opt_json(o: Option<String>) -> JsonValue {
    match o {
        Some(s) => JsonValue::Str(s),
        None => JsonValue::Null,
    }
}

pub open spec fn is_text(v: JsonValue, t: Seq<char>) -> bool {
    v is Str && v->Str_0@ == t
}

pub open spec fn is_empty_array(v: JsonValue) -> bool {
    v is Array && v->Array_0@.len() == 0
}

/// The concept tags of a stored profile: its tag JSON, or an empty list when that is unreadable.
pub open spec fn tags_of(v: JsonValue, tags_json: Seq<char>) -> bool {
    match json_parse(tags_json) {
        Some(t) => v == t,
        None => is_empty_array(v),
    }
}

/// `v` is the profile context: the stored profile's fields, or a pending profile that says no
/// verifiable profile exists yet.
pub open spec fn profile_context_of(v: JsonValue, profile: Option<SecurityProfile>) -> bool {
    match profile {
        Some(p) => {
            &&& v is Object
            &&& keys_of(v->Object_0@) == seq![
                "status"@,
                "companyDescription"@,
                "industry"@,
                "sector"@,
                "conceptTags"@,
                "businessModel"@,
                "historicalCharacteristics"@,
                "source"@,
                "sourceUrl"@,
                "fetchedAt"@,
                "updatedAt"@,
            ]
            &&& v->Object_0@[0].1 == JsonValue::Str(p.profile_status)
            &&& v->Object_0@[1].1 == opt_json(p.company_description)
            &&& v->Object_0@[2].1 == opt_json(p.industry)
            &&& v->Object_0@[3].1 == opt_json(p.sector)
            &&& tags_of(v->Object_0@[4].1, p.tags_json@)
            &&& v->Object_0@[5].1 == opt_json(p.business_model)
            &&& v->Object_0@[6].1 == opt_json(p.historical_characteristics)
            &&& v->Object_0@[7].1 == opt_json(p.source)
            &&& v->Object_0@[8].1 == opt_json(p.source_url)
            &&& v->Object_0@[9].1 == opt_json(p.fetched_at)
            &&& v->Object_0@[10].1 == JsonValue::Str(p.updated_at)
        },
        None => {
            &&& v is Object
            &&& keys_of(v->Object_0@) == seq![
                "status"@,
                "companyDescription"@,
                "industry"@,
                "sector"@,
                "conceptTags"@,
                "businessModel"@,
                "historicalCharacteristics"@,
                "source"@,
                "reason"@,
            ]
            &&& is_text(v->Object_0@[0].1, "PENDING"@)
            &&& v->Object_0@[1].1 == JsonValue::Null
            &&& v->Object_0@[2].1 == JsonValue::Null
            &&& v->Object_0@[3].1 == JsonValue::Null
            &&& is_empty_array(v->Object_0@[4].1)
            &&& v->Object_0@[5].1 == JsonValue::Null
            &&& v->Object_0@[6].1 == JsonValue::Null
            &&& v->Object_0@[7].1 == JsonValue::Null
            &&& is_text(v->Object_0@[8].1, "正在建立股票画像；暂无可验证股票画像"@)
        },
    }
}

fn opt_json_exec(o: Option<String>) -> (r: JsonValue)
    ensures
        r == opt_json(o),
{
    match o {
        Some(s) => JsonValue::Str(s),
        None => JsonValue::Null,
    }
}

fn text(t: &str) -> (r: JsonValue)
    ensures
        is_text(r, t@),
{
    JsonValue::Str(String::from_str(t))
}

fn member(key: &str, value: JsonValue) -> (r: (String, JsonValue))
    ensures
        r.0@ == key@,
        r.1 == value,
{
    (String::from_str(key), value)
}

/// The profile context of a security.
pub fn profile_context(profile: Option<SecurityProfile>) -> (r: JsonValue)
    ensures
        profile_context_of(r, profile),
{
    let ghost prof = profile;
    let mut fs: Vec<(String, JsonValue)> = Vec::new();
    match profile {
        Some(p) => {
            let tags = match JsonValue::parse(p.tags_json.as_str()) {
                Some(t) => t,
                None => JsonValue::Array(Vec::new()),
            };
            fs.push(member("status", JsonValue::Str(p.profile_status)));
            fs.push(member("companyDescription", opt_json_exec(p.company_description)));
            fs.push(member("industry", opt_json_exec(p.industry)));
            fs.push(member("sector", opt_json_exec(p.sector)));
            fs.push(member("conceptTags", tags));
            fs.push(member("businessModel", opt_json_exec(p.business_model)));
            fs.push(member("historicalCharacteristics", opt_json_exec(p.historical_characteristics)));
            fs.push(member("source", opt_json_exec(p.source)));
            fs.push(member("sourceUrl", opt_json_exec(p.source_url)));
            fs.push(member("fetchedAt", opt_json_exec(p.fetched_at)));
            fs.push(member("updatedAt", JsonValue::Str(p.updated_at)));
        },
        None => {
            fs.push(member("status", text("PENDING")));
            fs.push(member("companyDescription", JsonValue::Null));
            fs.push(member("industry", JsonValue::Null));
            fs.push(member("sector", JsonValue::Null));
            fs.push(member("conceptTags", JsonValue::Array(Vec::new())));
            fs.push(member("businessModel", JsonValue::Null));
            fs.push(member("historicalCharacteristics", JsonValue::Null));
            fs.push(member("source", JsonValue::Null));
            fs.push(member("reason", text("正在建立股票画像；暂无可验证股票画像")));
        },
    }
    let r = JsonValue::Object(fs);
    proof {
        assert(keys_of(r->Object_0@) =~= keys_of(fs@));
        match prof {
            Some(p) => {
                assert(keys_of(fs@) =~= seq![
                    "status"@,
                    "companyDescription"@,
                    "industry"@,
                    "sector"@,
                    "conceptTags"@,
                    "businessModel"@,
                    "historicalCharacteristics"@,
                    "source"@,
                    "sourceUrl"@,
                    "fetchedAt"@,
                    "updatedAt"@,
                ]);
            },
            None => {
                assert(keys_of(fs@) =~= seq![
                    "status"@,
                    "companyDescription"@,
                    "industry"@,
                    "sector"@,
                    "conceptTags"@,
                    "businessModel"@,
                    "historicalCharacteristics"@,
                    "source"@,
                    "reason"@,
                ]);
            },
        }
    }
    r
}

/// A profile may be cited when it is verified and names its source.
pub open spec fn profile_verified(profile: JsonValue) -> bool {
    &&& profile.get_spec("status"@) matches Some(s) && is_text(s, "VERIFIED"@)
    &&& profile.get_spec("source"@) matches Some(s) && s is Str
}

/// `v` is the research context: the profile, the sorted evidence catalogue, the evidence policy
/// by credibility, and the required analysis dimensions.
pub open spec fn research_context_of(
    v: JsonValue,
    profile: JsonValue,
    market: JsonValue,
    news: JsonValue,
    events: JsonValue,
    intelligence: JsonValue,
) -> bool {
    &&& v is Object
    &&& keys_of(v->Object_0@) == seq!["profile"@, "allowedEvidenceIds"@, "evidencePolicy"@, "analysisRequirements"@]
    &&& v->Object_0@[0].1 == profile
    &&& v->Object_0@[1].1 is Array
    &&& sorted_unique(v->Object_0@[1].1->Array_0@.map_values(|x: JsonValue| x->Str_0@))
    &&& (forall|i: int| 0 <= i < v->Object_0@[1].1->Array_0@.len() ==> (#[trigger] v->Object_0@[1].1->Array_0@[i]) is Str)
    &&& (forall|y: Seq<char>|
        v->Object_0@[1].1->Array_0@.map_values(|x: JsonValue| x->Str_0@).contains(y) <==> candidate_ids(
            market,
            news,
            events,
            intelligence,
            profile_verified(profile),
        ).contains(y))
    &&& v->Object_0@[2].1 is Object
    &&& keys_of(v->Object_0@[2].1->Object_0@) == seq!["A_B"@, "C"@, "D"@, "E"@]
    &&& is_text(v->Object_0@[2].1->Object_0@[0].1, "可作为事实"@)
    &&& is_text(v->Object_0@[2].1->Object_0@[1].1, "仅作为行业参考"@)
    &&& is_text(v->Object_0@[2].1->Object_0@[2].1, "仅作为市场情绪或社区观点"@)
    &&& is_text(v->Object_0@[2].1->Object_0@[3].1, "仅作为未证实传闻、风险或观察项"@)
    &&& v->Object_0@[3].1 is Array
    &&& v->Object_0@[3].1->Array_0@.map_values(|x: JsonValue| x->Str_0@) == seq![
        "coreDrivers"@,
        "marketThesis"@,
        "bullBearAnalysis"@,
        "futureCatalysts"@,
        "riskFactors"@,
        "researchScore"@,
    ]
}

fn is_verified_profile(profile: &JsonValue) -> (r: bool)
    ensures
        r == profile_verified(*profile),
{
    let status_ok = match profile.get("status") {
        Some(JsonValue::Str(s)) => str_eq(s.as_str(), "VERIFIED"),
        _ => false,
    };
    let source_ok = match profile.get("source") {
        Some(JsonValue::Str(_)) => true,
        _ => false,
    };
    status_ok && source_ok
}

/// The research context of one security.
pub fn research_context(
    profile: JsonValue,
    market: &JsonValue,
    news: &JsonValue,
    events: &JsonValue,
    intelligence: &JsonValue,
) -> (r: JsonValue)
    ensures
        research_context_of(r, profile, *market, *news, *events, *intelligence),
{
    let verified = is_verified_profile(&profile);
    let ids = allowed_evidence_ids(market, news, events, intelligence, verified);
    let mut items: Vec<JsonValue> = Vec::new();
    let mut i: usize = 0;
    while i < ids.len()
        invariant
            0 <= i <= ids@.len(),
            items@.len() == i,
            forall|k: int| 0 <= k < i ==> (#[trigger] items@[k]) is Str && items@[k]->Str_0 == ids@[k],
        decreases ids@.len() - i,
    {
        items.push(JsonValue::Str(ids[i].clone()));
        i = i + 1;
    }
    proof {
        assert(items@.map_values(|x: JsonValue| x->Str_0@) =~= views(ids@));
    }
    let mut policy: Vec<(String, JsonValue)> = Vec::new();
    policy.push(member("A_B", text("可作为事实")));
    policy.push(member("C", text("仅作为行业参考")));
    policy.push(member("D", text("仅作为市场情绪或社区观点")));
    policy.push(member("E", text("仅作为未证实传闻、风险或观察项")));
    let mut required: Vec<JsonValue> = Vec::new();
    required.push(text("coreDrivers"));
    required.push(text("marketThesis"));
    required.push(text("bullBearAnalysis"));
    required.push(text("futureCatalysts"));
    required.push(text("riskFactors"));
    required.push(text("researchScore"));
    proof {
        assert(keys_of(policy@) =~= seq!["A_B"@, "C"@, "D"@, "E"@]);
        assert(required@.map_values(|x: JsonValue| x->Str_0@) =~= seq![
            "coreDrivers"@,
            "marketThesis"@,
            "bullBearAnalysis"@,
            "futureCatalysts"@,
            "riskFactors"@,
            "researchScore"@,
        ]);
    }
    let ghost p = profile;
    let mut fs: Vec<(String, JsonValue)> = Vec::new();
    fs.push(member("profile", profile));
    fs.push(member("allowedEvidenceIds", JsonValue::Array(items)));
    fs.push(member("evidencePolicy", JsonValue::Object(policy)));
    fs.push(member("analysisRequirements", JsonValue::Array(required)));
    proof {
        assert(keys_of(fs@) =~= seq!["profile"@, "allowedEvidenceIds"@, "evidencePolicy"@, "analysisRequirements"@]);
    }
    JsonValue::Object(fs)
}


/// An evidence section: `NO_DATA` for an empty item list, `AVAILABLE` otherwise, then the items.
pub open spec fn evidence_section_of(r: JsonValue, items: Seq<JsonValue>) -> bool {
    &&& r matches JsonValue::Object(fs)
    &&& r->Object_0@.len() == 2
    &&& r->Object_0@[0].0@ == "status"@
    &&& r->Object_0@[0].1.as_str_spec() == Some(
        if items.len() == 0 {
            "NO_DATA"@
        } else {
            "AVAILABLE"@
        },
    )
    &&& r->Object_0@[1].0@ == "items"@
    &&& r->Object_0@[1].1 matches JsonValue::Array(xs)
    &&& r->Object_0@[1].1->Array_0@ == items
}

/// The news or event section of an evidence context.
pub fn evidence_section(items: Vec<JsonValue>) -> (r: JsonValue)
    ensures
        evidence_section_of(r, items@),
{
    let ghost given = items@;
    let status = if items.len() == 0 {
        String::from_str("NO_DATA")
    } else {
        String::from_str("AVAILABLE")
    };
    let mut fs: Vec<(String, JsonValue)> = Vec::new();
    fs.push(member("status", JsonValue::Str(status)));
    fs.push(member("items", JsonValue::Array(items)));
    JsonValue::Object(fs)
}

} // verus!
