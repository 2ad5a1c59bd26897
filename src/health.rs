use vstd::prelude::*;
use crate::json::{
    JsonValue, distinct_names, field, get_field, get_text_or, lookup, member_text, object_field,
    set_member, text_eq, text_field, text_field_or, text_pair, text_pair_of,
};

verus! {

/// Position of the first `:` at or after `i`, or -1.
pub open spec fn colon_from(s: Seq<char>, i: int) -> int
    decreases s.len() - i,
{
    if i < 0 || i >= s.len() {
        -1
    } else if s[i] == ':' {
        i
    } else {
        colon_from(s, i + 1)
    }
}

/// The part of a resource key after the first `:` and before the next one; the whole
/// key when it holds no `:`.
pub open spec fn display_name(key: Seq<char>) -> Seq<char> {
    let c = colon_from(key, 0);
    if c < 0 {
        key
    } else {
        let rest = key.subrange(c + 1, key.len() as int);
        let d = colon_from(rest, 0);
        if d < 0 {
            rest
        } else {
            rest.subrange(0, d)
        }
    }
}

/// Score for a severity level.
pub open spec fn severity_score(severity: Seq<char>) -> int {
    if severity == "critical"@ {
        20
    } else if severity == "error"@ {
        40
    } else if severity == "warning"@ {
        65
    } else {
        100
    }
}

/// Trend label for a current state.
pub open spec fn state_trend(state: Seq<char>) -> Seq<char> {
    if state == "critical"@ || state == "error"@ {
        "degrading"@
    } else if state == "warning"@ {
        "stable"@
    } else {
        "improving"@
    }
}

/// `v` is the object `{"score": score, "trend": trend}`.
pub open spec fn is_score_record(v: JsonValue, score: int, trend: Seq<char>) -> bool {
    v matches JsonValue::Object(m) && m@.len() == 2 && m@[0].0@ == "score"@ && m@[0].1
        == JsonValue::Int(score as i64) && member_text(m@, 1, "trend"@, trend)
}

/// `v` is the score record that resource entry `r` gives.
pub open spec fn scores_resource(v: JsonValue, r: JsonValue) -> bool {
    is_score_record(
        v,
        severity_score(text_field_or(r, "severityLevel"@, "info"@)),
        state_trend(text_field_or(r, "currentState"@, "ok"@)),
    )
}

/// The last resource entry whose key has display name `name`.
pub open spec fn last_resource(rs: Seq<(String, JsonValue)>, name: Seq<char>) -> Option<JsonValue>
    decreases rs.len(),
{
    if rs.len() == 0 {
        None
    } else if display_name(rs.last().0@) == name {
        Some(rs.last().1)
    } else {
        last_resource(rs.drop_last(), name)
    }
}

/// The score member `got` is the one that resource `want` gives, or both are missing.
pub open spec fn score_matches(got: Option<JsonValue>, want: Option<JsonValue>) -> bool {
    match want {
        None => got is None,
        Some(r) => got matches Some(v) && scores_resource(v, r),
    }
}

/// Every display name maps to the score of the last resource entry that has it.
pub open spec fn health_scores_of(out: JsonValue, rs: Seq<(String, JsonValue)>) -> bool {
    out matches JsonValue::Object(m) && distinct_names(m@) && forall|name: Seq<char>|
        #[trigger] score_matches(lookup(m@, name), last_resource(rs, name))
}

/// Position of the first `:` at or after `from`.
fn find_colon(s: &str, from: usize) -> (r: Option<usize>)
    requires
        from <= s@.len(),
    ensures
        match r {
            Some(i) => colon_from(s@, from as int) == i && i < s@.len(),
            None => colon_from(s@, from as int) == -1,
        },
{
    let n = s.unicode_len();
    let mut i = from;
    while i < n
        invariant
            from <= i <= n,
            n == s@.len(),
            colon_from(s@, from as int) == colon_from(s@, i as int),
        decreases n - i,
    {
        if s.get_char(i) == ':' {
            return Some(i);
        }
        i = i + 1;
    }
    None
}

/// The display name of a resource key.
pub fn resource_display_name(key: &str) -> (r: String)
    ensures
        r@ == display_name(key@),
{
    match find_colon(key, 0) {
        None => String::from_str(key),
        Some(c) => {
            let n = key.unicode_len();
            let rest = key.substring_char(c + 1, n);
            match find_colon(rest, 0) {
                None => String::from_str(rest),
                Some(d) => String::from_str(rest.substring_char(0, d)),
            }
        },
    }
}

/// Score for a severity level.
pub fn score_for(severity: &str) -> (r: i64)
    ensures
        r == severity_score(severity@),
{
    if text_eq(severity, "critical") {
        20
    } else if text_eq(severity, "error") {
        40
    } else if text_eq(severity, "warning") {
        65
    } else {
        100
    }
}

/// Trend label for a current state.
pub fn trend_for(state: &str) -> (r: &'static str)
    ensures
        r@ == state_trend(state@),
{
    if text_eq(state, "critical") || text_eq(state, "error") {
        "degrading"
    } else if text_eq(state, "warning") {
        "stable"
    } else {
        "improving"
    }
}

/// The score record of one resource entry.
fn score_record(r: &JsonValue) -> (v: JsonValue)
    ensures
        scores_resource(v, *r),
{
    let severity = get_text_or(r, "severityLevel", "info");
    let state = get_text_or(r, "currentState", "ok");
    let mut m: Vec<(String, JsonValue)> = Vec::new();
    m.push((String::from_str("score"), JsonValue::Int(score_for(severity.as_str()))));
    m.push(text_pair_of("trend", trend_for(state.as_str())));
    JsonValue::Object(m)
}

/// The resource entries of a state-tracker document; empty when it has none.
pub open spec fn resources_of(doc: Option<&JsonValue>) -> Seq<(String, JsonValue)> {
    match doc {
        Some(d) => match object_field(*d, "resources"@) {
            Some(rs) => rs,
            None => Seq::empty(),
        },
        None => Seq::empty(),
    }
}

/// Scores each resource of the state-tracker document (`None` when the file is
/// missing or malformed) under its display name; a later entry with the same display
/// name replaces an earlier one.
pub fn build_health_scores(doc: Option<&JsonValue>) -> (out: JsonValue)
    ensures
        health_scores_of(out, resources_of(doc)),
{
    let mut out: Vec<(String, JsonValue)> = Vec::new();
    let rs = match doc {
        Some(d) => match get_field(d, "resources") {
            Some(JsonValue::Object(rs)) => rs,
            _ => return JsonValue::Object(out),
        },
        None => return JsonValue::Object(out),
    };
    let ghost all = rs@;
    let mut i: usize = 0;
    while i < rs.len()
        invariant
            i <= all.len(),
            all == rs@,
            distinct_names(out@),
            forall|name: Seq<char>|
                #[trigger] score_matches(
                    lookup(out@, name),
                    last_resource(all.subrange(0, i as int), name),
                ),
        decreases all.len() - i,
    {
        let name = resource_display_name(rs[i].0.as_str());
        let rec = score_record(&rs[i].1);
        let ghost name_v = name@;
        let ghost out0 = out@;
        set_member(&mut out, name, rec);
        proof {
            let next = all.subrange(0, i as int + 1);
            assert(next.drop_last() =~= all.subrange(0, i as int));
            assert(next.last() == all[i as int]);
            assert forall|n: Seq<char>| #[trigger]
                score_matches(lookup(out@, n), last_resource(next, n)) by {
                if n != name_v {
                    assert(score_matches(lookup(out0, n), last_resource(all.subrange(0, i as int), n)));
                }
            }
        }
        i = i + 1;
    }
    assert(all.subrange(0, all.len() as int) =~= all);
    JsonValue::Object(out)
}

/// The resource key `cpu:load` has display name `load`.
pub proof fn lemma_cpu_load_name()
    ensures
        display_name("cpu:load"@) == "load"@,
{
    reveal_strlit("cpu:load");
    reveal_strlit("load");
    let k = "cpu:load"@;
    assert(colon_from(k, 3) == 3);
    assert(colon_from(k, 2) == 3);
    assert(colon_from(k, 1) == 3);
    assert(colon_from(k, 0) == 3);
    let rest = k.subrange(4, 8);
    assert(rest =~= "load"@);
    assert(colon_from(rest, 4) == -1);
    assert(colon_from(rest, 3) == -1);
    assert(colon_from(rest, 2) == -1);
    assert(colon_from(rest, 1) == -1);
    assert(colon_from(rest, 0) == -1);
}

/// The last entry with a display name is the one that `last_resource` gives.
proof fn lemma_last_resource(rs: Seq<(String, JsonValue)>, i: int, name: Seq<char>)
    requires
        0 <= i < rs.len(),
        display_name(rs[i].0@) == name,
        forall|j: int| i < j < rs.len() ==> #[trigger] display_name(rs[j].0@) != name,
    ensures
        last_resource(rs, name) == Some(rs[i].1),
    decreases rs.len(),
{
    if i < rs.len() - 1 {
        let d = rs.drop_last();
        assert forall|j: int| i < j < d.len() implies #[trigger] display_name(d[j].0@) != name by {
            assert(d[j] == rs[j]);
        }
        lemma_last_resource(d, i, name);
    }
}

/// A resource keyed `cpu:load` whose severity is `critical`, with no later resource
/// of display name `load`, is scored 20 under `load`; its trend is `degrading` exactly
/// when its state is `critical` or `error`.
pub proof fn lemma_cpu_load_score(out: JsonValue, rs: Seq<(String, JsonValue)>, i: int)
    requires
        health_scores_of(out, rs),
        0 <= i < rs.len(),
        rs[i].0@ == "cpu:load"@,
        text_field(rs[i].1, "severityLevel"@) == Some("critical"@),
        forall|j: int| i < j < rs.len() ==> #[trigger] display_name(rs[j].0@) != "load"@,
    ensures
        out matches JsonValue::Object(m) && lookup(m@, "load"@) matches Some(v) && is_score_record(
            v,
            20,
            state_trend(text_field_or(rs[i].1, "currentState"@, "ok"@)),
        ),
        state_trend(text_field_or(rs[i].1, "currentState"@, "ok"@)) == "degrading"@ <==> (
        text_field_or(rs[i].1, "currentState"@, "ok"@) == "critical"@ || text_field_or(
            rs[i].1,
            "currentState"@,
            "ok"@,
        ) == "error"@),
{
    lemma_cpu_load_name();
    lemma_last_resource(rs, i, "load"@);
    let m = out->Object_0;
    assert(score_matches(lookup(m@, "load"@), last_resource(rs, "load"@)));
    reveal_strlit("degrading");
    reveal_strlit("stable");
    reveal_strlit("improving");
    assert("degrading"@.len() == 9 && "stable"@.len() == 6 && "improving"@.len() == 9);
    assert("degrading"@[0] != "improving"@[0]);
}

/// Most pattern entries that are reported.
pub const MAX_PATTERNS: usize = 20;

/// Most pending actions that are reported.
pub const MAX_ACTIONS: usize = 10;

/// The integer held in a member, or 0.
pub open spec fn int_or_zero(src: Option<JsonValue>) -> int {
    match src {
        Some(JsonValue::Int(n)) => n as int,
        _ => 0,
    }
}

/// `out` is the number held in `src`, or the number 0.0 when `src` holds none.
pub open spec fn number_or_zero(out: JsonValue, src: Option<JsonValue>) -> bool {
    match src {
        Some(JsonValue::Int(n)) => out == JsonValue::Int(n),
        Some(JsonValue::Decimal(s)) => out matches JsonValue::Decimal(t) && t@ == s@,
        _ => out matches JsonValue::Decimal(t) && t@ == "0.0"@,
    }
}

/// `v` is the display record of pattern `p` stored under `key`.
pub open spec fn is_pattern_record(v: JsonValue, key: Seq<char>, p: JsonValue) -> bool {
    v matches JsonValue::Object(m) && m@.len() == 7 && member_text(m@, 0, "patternId"@, key)
        && member_text(m@, 1, "signalId"@, key) && m@[2].0@ == "occurrenceCount"@ && m@[2].1
        == JsonValue::Int(int_or_zero(field(p, "occurrenceCount"@)) as i64) && member_text(
        m@,
        3,
        "trend"@,
        text_field_or(p, "trend"@, "stable"@),
    ) && m@[4].0@ == "frequency"@ && number_or_zero(m@[4].1, field(p, "frequency"@))
        && member_text(m@, 5, "urgency"@, text_field_or(p, "urgency"@, "low"@)) && member_text(
        m@,
        6,
        "recommendation"@,
        text_field_or(p, "recommendation"@, ""@),
    )
}

/// The pattern entries of a pattern-detector document; empty when it has none.
pub open spec fn patterns_of(doc: Option<&JsonValue>) -> Seq<(String, JsonValue)> {
    match doc {
        Some(d) => match object_field(*d, "patterns"@) {
            Some(ps) => ps,
            None => Seq::empty(),
        },
        None => Seq::empty(),
    }
}

/// `out` holds the records of the first `MAX_PATTERNS` entries of `ps`, in order.
pub open spec fn patterns_listed(out: Seq<JsonValue>, ps: Seq<(String, JsonValue)>) -> bool {
    &&& out.len() == if ps.len() < MAX_PATTERNS { ps.len() } else { MAX_PATTERNS as nat }
    &&& forall|i: int| 0 <= i < out.len() ==> #[trigger] is_pattern_record(out[i], ps[i].0@, ps[i].1)
}

/// A copy of the number in `src`, or 0.0.
fn number_or_zero_of(src: Option<&JsonValue>) -> (r: JsonValue)
    ensures
        number_or_zero(
            r,
            match src {
                Some(v) => Some(*v),
                None => None,
            },
        ),
{
    match src {
        Some(JsonValue::Int(n)) => JsonValue::Int(*n),
        Some(JsonValue::Decimal(s)) => JsonValue::Decimal(s.clone()),
        _ => JsonValue::Decimal(String::from_str("0.0")),
    }
}

/// The display record of one pattern entry.
fn pattern_record(key: &String, p: &JsonValue) -> (v: JsonValue)
    ensures
        is_pattern_record(v, key@, *p),
{
    let count = match get_field(p, "occurrenceCount") {
        Some(JsonValue::Int(n)) => *n,
        _ => 0,
    };
    let mut m: Vec<(String, JsonValue)> = Vec::new();
    m.push(text_pair("patternId", key.clone()));
    m.push(text_pair("signalId", key.clone()));
    m.push((String::from_str("occurrenceCount"), JsonValue::Int(count)));
    m.push(text_pair("trend", get_text_or(p, "trend", "stable")));
    m.push((String::from_str("frequency"), number_or_zero_of(get_field(p, "frequency"))));
    m.push(text_pair("urgency", get_text_or(p, "urgency", "low")));
    m.push(text_pair("recommendation", get_text_or(p, "recommendation", "")));
    JsonValue::Object(m)
}

/// Records of the first `MAX_PATTERNS` entries of the pattern-detector document's
/// `patterns` object, in stored order (`None` when the file is missing or malformed).
pub fn build_patterns(doc: Option<&JsonValue>) -> (out: Vec<JsonValue>)
    ensures
        patterns_listed(out@, patterns_of(doc)),
{
    let mut out: Vec<JsonValue> = Vec::new();
    let ps = match doc {
        Some(d) => match get_field(d, "patterns") {
            Some(JsonValue::Object(ps)) => ps,
            _ => return out,
        },
        None => return out,
    };
    let mut i: usize = 0;
    while i < ps.len() && i < MAX_PATTERNS
        invariant
            i <= ps@.len(),
            i <= MAX_PATTERNS,
            out@.len() == i,
            forall|j: int| 0 <= j < i ==> #[trigger] is_pattern_record(out@[j], ps@[j].0@, ps@[j].1),
        decreases ps@.len() - i,
    {
        out.push(pattern_record(&ps[i].0, &ps[i].1));
        i = i + 1;
    }
    out
}

/// Severity of a pending action's signature, or `low`.
pub open spec fn action_severity(a: JsonValue) -> Seq<char> {
    match field(a, "signature"@) {
        Some(sig) => text_field_or(sig, "severity"@, "low"@),
        None => "low"@,
    }
}

/// `v` is the display record of pending action `a`.
pub open spec fn is_action_record(v: JsonValue, a: JsonValue) -> bool {
    v matches JsonValue::Object(m) && m@.len() == 3 && member_text(
        m@,
        0,
        "title"@,
        text_field_or(a, "signature_id"@, "Action"@),
    ) && member_text(m@, 1, "urgency"@, action_severity(a)) && member_text(
        m@,
        2,
        "reasoning"@,
        text_field_or(a, "server_message"@, ""@),
    )
}

/// The pending actions of a pending-actions document; empty when it has none.
pub open spec fn actions_of(doc: Option<&JsonValue>) -> Seq<JsonValue> {
    match doc {
        Some(d) => match field(*d, "pending_actions"@) {
            Some(JsonValue::Array(a)) => a@,
            _ => Seq::empty(),
        },
        None => Seq::empty(),
    }
}

/// `out` holds the records of the first `MAX_ACTIONS` entries of `acts`, in order.
pub open spec fn actions_listed(out: Seq<JsonValue>, acts: Seq<JsonValue>) -> bool {
    &&& out.len() == if acts.len() < MAX_ACTIONS { acts.len() } else { MAX_ACTIONS as nat }
    &&& forall|i: int| 0 <= i < out.len() ==> #[trigger] is_action_record(out[i], acts[i])
}

/// The display record of one pending action.
fn action_record(a: &JsonValue) -> (v: JsonValue)
    ensures
        is_action_record(v, *a),
{
    let severity = match get_field(a, "signature") {
        Some(sig) => get_text_or(sig, "severity", "low"),
        None => String::from_str("low"),
    };
    let mut m: Vec<(String, JsonValue)> = Vec::new();
    m.push(text_pair("title", get_text_or(a, "signature_id", "Action")));
    m.push(text_pair("urgency", severity));
    m.push(text_pair("reasoning", get_text_or(a, "server_message", "")));
    JsonValue::Object(m)
}

/// Records of the first `MAX_ACTIONS` entries of the pending-actions document's
/// `pending_actions` array, in order (`None` when the file is missing or malformed).
pub fn build_proactive_actions(doc: Option<&JsonValue>) -> (out: Vec<JsonValue>)
    ensures
        actions_listed(out@, actions_of(doc)),
{
    let mut out: Vec<JsonValue> = Vec::new();
    let acts = match doc {
        Some(d) => match get_field(d, "pending_actions") {
            Some(JsonValue::Array(a)) => a,
            _ => return out,
        },
        None => return out,
    };
    let mut i: usize = 0;
    while i < acts.len() && i < MAX_ACTIONS
        invariant
            i <= acts@.len(),
            i <= MAX_ACTIONS,
            out@.len() == i,
            forall|j: int| 0 <= j < i ==> #[trigger] is_action_record(out@[j], acts@[j]),
        decreases acts@.len() - i,
    {
        out.push(action_record(&acts[i]));
        i = i + 1;
    }
    out
}

/// The health view: scores per resource, correlations, patterns and proactive actions.
#[derive(Debug, PartialEq)]
pub struct HealthData {
    pub health_scores: JsonValue,
    /// Always an empty object.
    pub correlations: JsonValue,
    pub patterns: Vec<JsonValue>,
    pub proactive_actions: Vec<JsonValue>,
}

/// Assembles the health view from the state-tracker, pattern-detector and
/// pending-actions documents (each `None` when its file is missing or malformed).
pub fn get_health_data(
    state: Option<&JsonValue>,
    patterns: Option<&JsonValue>,
    pending: Option<&JsonValue>,
) -> (h: HealthData)
    ensures
        health_scores_of(h.health_scores, resources_of(state)),
        h.correlations matches JsonValue::Object(m) && m@.len() == 0,
        patterns_listed(h.patterns@, patterns_of(patterns)),
        actions_listed(h.proactive_actions@, actions_of(pending)),
{
    HealthData {
        health_scores: build_health_scores(state),
        correlations: JsonValue::Object(Vec::new()),
        patterns: build_patterns(patterns),
        proactive_actions: build_proactive_actions(pending),
    }
}

/// A pattern-detector document that is missing, or holds no pattern, gives an empty
/// pattern list.
pub proof fn lemma_no_patterns(out: Seq<JsonValue>, doc: Option<&JsonValue>)
    requires
        patterns_listed(out, patterns_of(doc)),
        patterns_of(doc).len() == 0,
    ensures
        out.len() == 0,
{
}

} // verus!
