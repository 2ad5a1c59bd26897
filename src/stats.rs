use vstd::prelude::*;
use crate::json::{JsonValue, array_field, field, get_field, get_text, text_field, text_field_or, text_eq};

verus! {

/// Summary counts over the ticket log.
#[derive(Debug, Clone, Copy, PartialEq, Eq, Structural)]
pub struct Stats {
    pub issues_detected: i64,
    pub active_tickets: i64,
    pub issues_escalated: i64,
    pub success_rate: i64,
}

/// A ticket is active when it is neither resolved nor successful.
pub open spec fn is_active(t: JsonValue) -> bool {
    text_field_or(t, "status"@, ""@) != "resolved"@ && text_field_or(t, "result"@, ""@) != "success"@
}

/// A ticket is escalated when `escalated` is the integer 1 or `true`.
pub open spec fn is_escalated(t: JsonValue) -> bool {
    field(t, "escalated"@) == Some(JsonValue::Int(1)) || field(t, "escalated"@) == Some(
        JsonValue::Bool(true),
    )
}

/// A ticket whose `result` is the text `success`.
pub open spec fn is_success(t: JsonValue) -> bool {
    text_field(t, "result"@) == Some("success"@)
}

/// A ticket with a textual `result`.
pub open spec fn has_result(t: JsonValue) -> bool {
    text_field(t, "result"@) is Some
}

/// Whole percentage of successes among the tickets with a result; 0 when there are none.
pub open spec fn rate(successes: int, with_result: int) -> int {
    if with_result > 0 {
        successes * 100 / with_result
    } else {
        0
    }
}

/// The tickets of a ticket document, when it holds a `tickets` array.
pub open spec fn ticket_list(doc: Option<&JsonValue>) -> Option<Seq<JsonValue>> {
    match doc {
        Some(d) => array_field(*d, "tickets"@),
        None => None,
    }
}

/// The counts that a ticket sequence gives.
pub open spec fn stats_of(s: Stats, ts: Seq<JsonValue>) -> bool {
    &&& s.issues_detected == ts.len()
    &&& s.active_tickets == ts.filter(|t: JsonValue| is_active(t)).len()
    &&& s.issues_escalated == ts.filter(|t: JsonValue| is_escalated(t)).len()
    &&& s.success_rate == rate(
        ts.filter(|t: JsonValue| is_success(t)).len() as int,
        ts.filter(|t: JsonValue| has_result(t)).len() as int,
    )
}

/// All four counts are zero.
pub open spec fn is_zero(s: Stats) -> bool {
    s.issues_detected == 0 && s.active_tickets == 0 && s.issues_escalated == 0 && s.success_rate
        == 0
}

/// Summarises the ticket document (`None` when the file is missing or malformed).
pub fn get_stats(doc: Option<&JsonValue>) -> (s: Stats)
    requires
        ticket_list(doc) matches Some(ts) ==> ts.len() <= i64::MAX,
    ensures
        match ticket_list(doc) {
            Some(ts) => stats_of(s, ts),
            None => is_zero(s),
        },
{
    let zero = Stats { issues_detected: 0, active_tickets: 0, issues_escalated: 0, success_rate: 0 };
    let d = match doc {
        Some(d) => d,
        None => return zero,
    };
    let ts = match get_field(d, "tickets") {
        Some(JsonValue::Array(ts)) => ts,
        _ => return zero,
    };
    let ghost all = ts@;
    let ghost p_active = |t: JsonValue| is_active(t);
    let ghost p_esc = |t: JsonValue| is_escalated(t);
    let ghost p_succ = |t: JsonValue| is_success(t);
    let ghost p_res = |t: JsonValue| has_result(t);
    let mut active: i64 = 0;
    let mut escalated: i64 = 0;
    let mut successes: i64 = 0;
    let mut with_result: i64 = 0;
    let mut i: usize = 0;
    while i < ts.len()
        invariant
            i <= all.len() <= i64::MAX,
            all == ts@,
            p_active == (|t: JsonValue| is_active(t)),
            p_esc == (|t: JsonValue| is_escalated(t)),
            p_succ == (|t: JsonValue| is_success(t)),
            p_res == (|t: JsonValue| has_result(t)),
            active == all.subrange(0, i as int).filter(p_active).len(),
            escalated == all.subrange(0, i as int).filter(p_esc).len(),
            successes == all.subrange(0, i as int).filter(p_succ).len(),
            with_result == all.subrange(0, i as int).filter(p_res).len(),
        decreases all.len() - i,
    {
        let t = &ts[i];
        proof {
            let pre = all.subrange(0, i as int);
            let next = all.subrange(0, i as int + 1);
            assert(next.drop_last() =~= pre);
            assert(next.last() == all[i as int]);
            reveal(Seq::filter);
            pre.lemma_filter_len(p_active);
            pre.lemma_filter_len(p_esc);
            pre.lemma_filter_len(p_succ);
            pre.lemma_filter_len(p_res);
        }
        let status = get_text(t, "status");
        let result = get_text(t, "result");
        let resolved = match status {
            Some(s) => text_eq(s, "resolved"),
            None => false,
        };
        let success = match result {
            Some(r) => text_eq(r, "success"),
            None => false,
        };
        if !resolved && !success {
            active = active + 1;
        }
        let esc = match get_field(t, "escalated") {
            Some(JsonValue::Int(n)) => *n == 1,
            Some(JsonValue::Bool(b)) => *b,
            _ => false,
        };
        if esc {
            escalated = escalated + 1;
        }
        if success {
            successes = successes + 1;
        }
        if result.is_some() {
            with_result = with_result + 1;
        }
        proof {
            reveal_strlit("resolved");
            reveal_strlit("success");
            reveal_strlit("");
            assert(!("resolved"@ =~= ""@));
            assert(!("success"@ =~= ""@));
            assert((!resolved && !success) == is_active(all[i as int]));
            assert(esc == is_escalated(all[i as int]));
            assert(success == is_success(all[i as int]));
            assert(result.is_some() == has_result(all[i as int]));
        }
        i = i + 1;
    }
    assert(all.subrange(0, all.len() as int) =~= all);
    let rate_v: i64 = if with_result > 0 {
        proof {
            lemma_fewer_successes(all);
        }
        let r = (successes as i128 * 100) / (with_result as i128);
        assert(r <= 100) by (nonlinear_arith)
            requires
                r as int == (successes as int * 100) / (with_result as int),
                successes <= with_result,
                with_result > 0,
        ;
        r as i64
    } else {
        0
    };
    Stats {
        issues_detected: ts.len() as i64,
        active_tickets: active,
        issues_escalated: escalated,
        success_rate: rate_v,
    }
}

/// Whatever the tickets, no more of them are active than there are tickets, and the
/// success rate is a percentage between 0 and 100.
pub proof fn lemma_stats_bounds(s: Stats, ts: Seq<JsonValue>)
    requires
        stats_of(s, ts),
    ensures
        s.active_tickets <= s.issues_detected,
        0 <= s.success_rate <= 100,
{
    ts.lemma_filter_len(|t: JsonValue| is_active(t));
    lemma_fewer_successes(ts);
    let succ = ts.filter(|t: JsonValue| is_success(t)).len() as int;
    let with = ts.filter(|t: JsonValue| has_result(t)).len() as int;
    if with > 0 {
        assert(0 <= succ * 100 / with <= 100) by (nonlinear_arith)
            requires
                0 <= succ <= with,
                with > 0,
        ;
    }
}

/// Every success has a result, so there are no more successes than results.
pub proof fn lemma_fewer_successes(ts: Seq<JsonValue>)
    ensures
        ts.filter(|t: JsonValue| is_success(t)).len() <= ts.filter(|t: JsonValue| has_result(t)).len(),
    decreases ts.len(),
{
    reveal(Seq::filter);
    if ts.len() > 0 {
        lemma_fewer_successes(ts.drop_last());
    }
}

} // verus!
