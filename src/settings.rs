use vstd::prelude::*;
use crate::json::{JsonValue, distinct_names, field, lookup, set_member};

verus! {

/// The five recognised setting names are distinct.
proof fn lemma_names_distinct()
    ensures
        "serverUrl"@ != "monitorInterval"@,
        "serverUrl"@ != "alertEmail"@,
        "serverUrl"@ != "logRetention"@,
        "serverUrl"@ != "confidenceThreshold"@,
        "monitorInterval"@ != "alertEmail"@,
        "monitorInterval"@ != "logRetention"@,
        "monitorInterval"@ != "confidenceThreshold"@,
        "alertEmail"@ != "logRetention"@,
        "alertEmail"@ != "confidenceThreshold"@,
        "logRetention"@ != "confidenceThreshold"@,
{
    reveal_strlit("serverUrl");
    reveal_strlit("monitorInterval");
    reveal_strlit("alertEmail");
    reveal_strlit("logRetention");
    reveal_strlit("confidenceThreshold");
    assert("serverUrl"@.len() == 9);
    assert("monitorInterval"@.len() == 15);
    assert("alertEmail"@.len() == 10);
    assert("logRetention"@.len() == 12);
    assert("confidenceThreshold"@.len() == 19);
}

/// A partial settings change: each present field replaces the stored value.
#[derive(Debug, Default)]
pub struct SettingsUpdate {
    pub server_url: Option<String>,
    pub monitor_interval: Option<i64>,
    pub alert_email: Option<String>,
    pub log_retention: Option<i64>,
    pub confidence_threshold: Option<i64>,
}

/// The members that an update starts from: those of a stored object, else none.
pub open spec fn base_members(doc: Option<JsonValue>) -> Seq<(String, JsonValue)> {
    match doc {
        Some(JsonValue::Object(m)) => m@,
        _ => Seq::empty(),
    }
}

/// The value of setting `k` after update `u` on the members `base`.
pub open spec fn updated_setting(base: Seq<(String, JsonValue)>, u: SettingsUpdate, k: Seq<char>) -> Option<JsonValue> {
    if k == "serverUrl"@ && u.server_url is Some {
        Some(JsonValue::Str(u.server_url->0))
    } else if k == "monitorInterval"@ && u.monitor_interval is Some {
        Some(JsonValue::Int(u.monitor_interval->0))
    } else if k == "alertEmail"@ && u.alert_email is Some {
        Some(JsonValue::Str(u.alert_email->0))
    } else if k == "logRetention"@ && u.log_retention is Some {
        Some(JsonValue::Int(u.log_retention->0))
    } else if k == "confidenceThreshold"@ && u.confidence_threshold is Some {
        Some(JsonValue::Int(u.confidence_threshold->0))
    } else {
        lookup(base, k)
    }
}

/// `r` is the settings object after update `u` on `doc`.
pub open spec fn settings_updated(r: JsonValue, doc: Option<JsonValue>, u: SettingsUpdate) -> bool {
    r matches JsonValue::Object(m) && (distinct_names(base_members(doc)) ==> distinct_names(m@))
        && forall|k: Seq<char>| #[trigger] lookup(m@, k) == updated_setting(base_members(doc), u, k)
}

/// Sets `key` when `v` is present.
fn set_if_some(m: &mut Vec<(String, JsonValue)>, key: &str, v: Option<JsonValue>)
    ensures
        forall|k: Seq<char>| #[trigger]
            lookup(final(m)@, k) == if k == key@ && v is Some {
                v
            } else {
                lookup(old(m)@, k)
            },
        distinct_names(old(m)@) ==> distinct_names(final(m)@),
{
    if let Some(v) = v {
        set_member(m, String::from_str(key), v);
    }
}

/// Merges `u` into the stored settings document (`None` when the file is missing or
/// malformed; a document that is not an object counts as empty). Members that `u`
/// does not set keep their values.
pub fn update_settings(doc: Option<JsonValue>, u: SettingsUpdate) -> (r: JsonValue)
    ensures
        settings_updated(r, doc, u),
{
    let ghost u0 = u;
    let mut m = match doc {
        Some(JsonValue::Object(m)) => m,
        _ => Vec::new(),
    };
    proof {
        lemma_names_distinct();
    }
    let SettingsUpdate { server_url, monitor_interval, alert_email, log_retention, confidence_threshold } = u;
    set_if_some(&mut m, "serverUrl", match server_url { Some(s) => Some(JsonValue::Str(s)), None => None });
    set_if_some(&mut m, "monitorInterval", match monitor_interval { Some(n) => Some(JsonValue::Int(n)), None => None });
    set_if_some(&mut m, "alertEmail", match alert_email { Some(s) => Some(JsonValue::Str(s)), None => None });
    set_if_some(&mut m, "logRetention", match log_retention { Some(n) => Some(JsonValue::Int(n)), None => None });
    set_if_some(&mut m, "confidenceThreshold", match confidence_threshold { Some(n) => Some(JsonValue::Int(n)), None => None });
    JsonValue::Object(m)
}

/// The stored settings document, or an empty object when the file is missing or
/// malformed.
pub fn get_settings(doc: Option<JsonValue>) -> (r: JsonValue)
    ensures
        match doc {
            Some(d) => r == d,
            None => r matches JsonValue::Object(m) && m@.len() == 0,
        },
{
    match doc {
        Some(d) => d,
        None => JsonValue::Object(Vec::new()),
    }
}

/// After an update, reading the settings back gives each value that the update set,
/// and every other member as it was before.
pub proof fn lemma_update_then_get(doc: Option<JsonValue>, u: SettingsUpdate, r: JsonValue)
    requires
        settings_updated(r, doc, u),
    ensures
        u.monitor_interval matches Some(n) ==> field(r, "monitorInterval"@) == Some(JsonValue::Int(n)),
        u.log_retention matches Some(n) ==> field(r, "logRetention"@) == Some(JsonValue::Int(n)),
        u.confidence_threshold matches Some(n) ==> field(r, "confidenceThreshold"@) == Some(JsonValue::Int(n)),
        u.server_url matches Some(s) ==> field(r, "serverUrl"@) == Some(JsonValue::Str(s)),
        u.alert_email matches Some(s) ==> field(r, "alertEmail"@) == Some(JsonValue::Str(s)),
        forall|k: Seq<char>|
            k != "serverUrl"@ && k != "monitorInterval"@ && k != "alertEmail"@ && k != "logRetention"@
                && k != "confidenceThreshold"@ ==> #[trigger] field(r, k) == lookup(base_members(doc), k),
{
    lemma_names_distinct();
    let m = r->Object_0;
    assert(lookup(m@, "monitorInterval"@) == updated_setting(base_members(doc), u, "monitorInterval"@));
    assert(lookup(m@, "logRetention"@) == updated_setting(base_members(doc), u, "logRetention"@));
    assert(lookup(m@, "confidenceThreshold"@) == updated_setting(base_members(doc), u, "confidenceThreshold"@));
    assert(lookup(m@, "serverUrl"@) == updated_setting(base_members(doc), u, "serverUrl"@));
    assert(lookup(m@, "alertEmail"@) == updated_setting(base_members(doc), u, "alertEmail"@));
}

} // verus!
