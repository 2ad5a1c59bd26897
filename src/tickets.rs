use vstd::prelude::*;
use crate::clock::{decimal, decimal_text, rfc3339_of_nanos, rfc3339_text, utc_now_millis, utc_now_nanos};
use crate::json::{
    JsonValue, array_field, distinct_names, field, get_field, get_text, lookup, member_text, set_member, take_member,
    text_of, text_field_or, text_pair, text_pair_of,
};

verus! {

/// Most tickets that a listing returns.
pub const MAX_LISTED: usize = 100;

/// Tickets are kept for one day: 24 hours in nanoseconds.
pub const RETENTION_NANOS: i64 = 86_400_000_000_000;

/// The tickets of a ticket document, when it holds a `tickets` array.
pub open spec fn tickets_in(doc: Option<JsonValue>) -> Option<Seq<JsonValue>> {
    match doc {
        Some(d) => array_field(d, "tickets"@),
        None => None,
    }
}

/// The first `MAX_LISTED` tickets of the ticket document (`None` when the file is
/// missing or malformed), in stored order; empty when it holds no `tickets` array.
pub fn get_tickets(doc: Option<JsonValue>) -> (r: Vec<JsonValue>)
    ensures
        match tickets_in(doc) {
            Some(ts) => r@ == if ts.len() <= MAX_LISTED { ts } else { ts.take(MAX_LISTED as int) },
            None => r@.len() == 0,
        },
{
    match doc {
        Some(JsonValue::Object(mut m)) => match take_member(&mut m, "tickets") {
            Some(JsonValue::Array(mut ts)) => {
                ts.truncate(MAX_LISTED);
                ts
            },
            _ => Vec::new(),
        },
        _ => Vec::new(),
    }
}

/// Whether `a` sorts strictly before `b`, character by character.
pub open spec fn lex_lt(a: Seq<char>, b: Seq<char>) -> bool
    decreases a.len(),
{
    if a.len() == 0 {
        b.len() > 0
    } else if b.len() == 0 {
        false
    } else if a[0] != b[0] {
        (a[0] as u32) < (b[0] as u32)
    } else {
        lex_lt(a.drop_first(), b.drop_first())
    }
}

/// Whether `a` sorts strictly before `b`, as `str` ordering does.
pub fn text_lt(a: &str, b: &str) -> (r: bool)
    ensures
        r == lex_lt(a@, b@),
{
    let na = a.unicode_len();
    let nb = b.unicode_len();
    let mut i: usize = 0;
    assert(a@.skip(0) =~= a@);
    assert(b@.skip(0) =~= b@);
    while i < na && i < nb
        invariant
            na == a@.len(),
            nb == b@.len(),
            i <= na,
            i <= nb,
            lex_lt(a@, b@) == lex_lt(a@.skip(i as int), b@.skip(i as int)),
        decreases na - i,
    {
        let ca = a.get_char(i);
        let cb = b.get_char(i);
        proof {
            assert(a@.skip(i as int)[0] == ca);
            assert(b@.skip(i as int)[0] == cb);
            assert(a@.skip(i as int).drop_first() =~= a@.skip(i as int + 1));
            assert(b@.skip(i as int).drop_first() =~= b@.skip(i as int + 1));
        }
        if ca != cb {
            return (ca as u32) < (cb as u32);
        }
        i = i + 1;
    }
    i < nb
}

/// The time text of a ticket: its `timestamp`, or its `created_at` when it has no
/// `timestamp` member; empty when the chosen member is not a string.
pub open spec fn ticket_time(t: JsonValue) -> Seq<char> {
    match field(t, "timestamp"@) {
        Some(v) => match text_of(Some(v)) {
            Some(s) => s,
            None => ""@,
        },
        None => text_field_or(t, "created_at"@, ""@),
    }
}

/// A ticket is kept when its time text does not sort before the cutoff.
pub open spec fn is_recent(t: JsonValue, cutoff: Seq<char>) -> bool {
    !lex_lt(ticket_time(t), cutoff)
}

/// The tickets that a cutoff keeps, in order.
pub open spec fn kept(ts: Seq<JsonValue>, cutoff: Seq<char>) -> Seq<JsonValue> {
    ts.filter(|t: JsonValue| is_recent(t, cutoff))
}

/// `r` is `d` with its `tickets` member replaced by the array `ts` and every other
/// member as it was.
pub open spec fn tickets_replaced(r: JsonValue, d: JsonValue, ts: Seq<JsonValue>) -> bool {
    &&& r matches JsonValue::Object(m2) && d matches JsonValue::Object(m1) && (forall|k: Seq<char>|
        k != "tickets"@ ==> #[trigger] lookup(m2@, k) == lookup(m1@, k)) && (distinct_names(m1@)
        ==> distinct_names(m2@))
    &&& array_field(r, "tickets"@) == Some(ts)
}

/// The time text of a ticket.
fn ticket_time_of(t: &JsonValue) -> (r: &str)
    ensures
        r@ == ticket_time(*t),
{
    match get_field(t, "timestamp") {
        Some(JsonValue::Str(s)) => s.as_str(),
        Some(_) => "",
        None => match get_text(t, "created_at") {
            Some(s) => s,
            None => "",
        },
    }
}

/// The tickets of `ts` whose time does not sort before `cutoff`, in order.
fn keep_recent(ts: Vec<JsonValue>, cutoff: &str) -> (r: Vec<JsonValue>)
    ensures
        r@ == kept(ts@, cutoff@),
{
    let ghost all = ts@;
    let ghost p = |t: JsonValue| is_recent(t, cutoff@);
    let n = ts.len();
    let mut src = ts;
    let mut out: Vec<JsonValue> = Vec::new();
    let mut k: usize = 0;
    while src.len() > 0
        invariant
            p == (|t: JsonValue| is_recent(t, cutoff@)),
            k <= all.len(),
            all.len() == n,
            src@ == all.subrange(k as int, all.len() as int),
            out@ == all.subrange(0, k as int).filter(p),
        decreases src@.len(),
    {
        let t = src.remove(0);
        proof {
            let next = all.subrange(0, k as int + 1);
            assert(next.drop_last() =~= all.subrange(0, k as int));
            assert(next.last() == t);
            reveal(Seq::filter);
        }
        let recent = !text_lt(ticket_time_of(&t), cutoff);
        if recent {
            out.push(t);
        }
        k = k + 1;
        assert(src@ =~= all.subrange(k as int, all.len() as int));
    }
    assert(all.subrange(0, all.len() as int) =~= all);
    out
}

/// Drops the tickets whose time text sorts before `cutoff`. Returns the new document
/// and the number of tickets dropped, or `None` (nothing to write) when the document
/// holds no `tickets` array.
pub fn clear_old_tickets(doc: JsonValue, cutoff: &str) -> (r: Option<(JsonValue, i64)>)
    requires
        tickets_in(Some(doc)) matches Some(ts) ==> ts.len() <= i64::MAX,
    ensures
        match tickets_in(Some(doc)) {
            None => r is None,
            Some(ts) => r matches Some((d, n)) && tickets_replaced(d, doc, kept(ts, cutoff@)) && n
                == ts.len() - kept(ts, cutoff@).len(),
        },
{
    let mut m = match doc {
        JsonValue::Object(m) => m,
        _ => return None,
    };
    let ghost m0 = m@;
    match take_member(&mut m, "tickets") {
        Some(JsonValue::Array(ts)) => {
            let ghost all = ts@;
            let before = ts.len();
            let now = keep_recent(ts, cutoff);
            proof {
                all.lemma_filter_len(|t: JsonValue| is_recent(t, cutoff@));
            }
            let removed = before - now.len();
            assert(removed <= all.len());
            set_member(&mut m, String::from_str("tickets"), JsonValue::Array(now));
            Some((JsonValue::Object(m), removed as i64))
        },
        _ => None,
    }
}

/// Every ticket that a cutoff keeps is kept again by the same cutoff, so clearing a
/// second time with no time elapsed drops nothing.
pub proof fn lemma_clear_twice(doc: JsonValue, d: JsonValue, cutoff: Seq<char>)
    requires
        tickets_in(Some(doc)) is Some,
        tickets_replaced(d, doc, kept(tickets_in(Some(doc))->0, cutoff)),
    ensures
        tickets_in(Some(d)) matches Some(ts2) && kept(ts2, cutoff) == ts2,
{
    let ts = tickets_in(Some(doc))->0;
    let p = |t: JsonValue| is_recent(t, cutoff);
    let k = kept(ts, cutoff);
    assert forall|i: int| 0 <= i < k.len() implies #[trigger] p(k[i]) by {
        ts.lemma_filter_pred(p, i);
    }
    lemma_filter_all(k, p);
}

/// A ticket with no time text sorts before any non-empty cutoff, so it is dropped.
pub proof fn lemma_untimed_dropped(t: JsonValue, cutoff: Seq<char>)
    requires
        ticket_time(t) == ""@,
        cutoff.len() > 0,
    ensures
        !is_recent(t, cutoff),
{
    reveal_strlit("");
}

/// Filtering a sequence whose every element passes leaves it as it is.
pub proof fn lemma_filter_all(s: Seq<JsonValue>, p: spec_fn(JsonValue) -> bool)
    requires
        forall|i: int| 0 <= i < s.len() ==> #[trigger] p(s[i]),
    ensures
        s.filter(p) == s,
    decreases s.len(),
{
    reveal(Seq::filter);
    if s.len() > 0 {
        lemma_filter_all(s.drop_last(), p);
        assert(s.drop_last().push(s.last()) =~= s);
    }
}

/// The cutoff text for a clock reading of `now` nanoseconds: one day earlier.
pub open spec fn cutoff_text(now: i64) -> Option<Seq<char>> {
    if now >= i64::MIN + RETENTION_NANOS {
        Some(rfc3339_text(now - RETENTION_NANOS))
    } else {
        None
    }
}

/// The cutoff for a clock reading of `now_nanos`: the instant one day earlier, as
/// RFC 3339 text; `None` when that instant lies before what an `i64` can count.
pub fn retention_cutoff(now_nanos: i64) -> (r: Option<String>)
    ensures
        match r {
            Some(c) => cutoff_text(now_nanos) == Some(c@) && c@.len() > 0,
            None => cutoff_text(now_nanos) is None,
        },
{
    if now_nanos >= i64::MIN + RETENTION_NANOS {
        Some(rfc3339_of_nanos(now_nanos - RETENTION_NANOS))
    } else {
        None
    }
}

/// The cutoff for the current time; `None` when the clock cannot be read as an `i64`
/// count of nanoseconds.
pub fn current_retention_cutoff() -> (r: Option<String>)
    ensures
        r matches Some(c) ==> c@.len() > 0 && exists|now: i64| #[trigger] cutoff_text(now) == Some(
            c@,
        ),
{
    match utc_now_nanos() {
        Some(now) => {
            let r = retention_cutoff(now);
            proof {
                if r is Some {
                    assert(cutoff_text(now) == Some(r->0@));
                }
            }
            r
        },
        None => None,
    }
}

/// A ticket filed by hand.
#[derive(Debug)]
pub struct ManualTicket {
    pub server_name: String,
    pub category: String,
    pub description: String,
    pub priority: String,
    pub submitted_at: String,
}

/// `v` is the ticket record made from `t` with the id stamp `millis`.
pub open spec fn is_manual_record(v: JsonValue, t: ManualTicket, millis: int) -> bool {
    v matches JsonValue::Object(m) && m@.len() == 9 && member_text(
        m@,
        0,
        "ticket_id"@,
        "manual-"@ + decimal(millis),
    ) && member_text(m@, 1, "timestamp"@, t.submitted_at@) && member_text(
        m@,
        2,
        "type"@,
        "manual-review"@,
    ) && member_text(m@, 3, "issue_type"@, t.category@) && member_text(
        m@,
        4,
        "description"@,
        t.description@,
    ) && member_text(m@, 5, "priority"@, t.priority@) && member_text(m@, 6, "status"@, "open"@)
        && member_text(m@, 7, "source"@, "manual"@) && member_text(
        m@,
        8,
        "computer_name"@,
        t.server_name@,
    )
}

/// `r` has the same members as `d`.
pub open spec fn same_fields(r: JsonValue, d: JsonValue) -> bool {
    r == d || (r matches JsonValue::Object(m2) && d matches JsonValue::Object(m1) && forall|
        k: Seq<char>,
    | #[trigger] lookup(m2@, k) == lookup(m1@, k))
}

/// The tickets that a submission adds to: none for a missing or malformed file or for
/// an object without a `tickets` member, the array's elements when it holds one, and
/// `None` when the document cannot take a ticket (not an object, or `tickets` is not
/// an array).
pub open spec fn ticket_base(doc: Option<JsonValue>) -> Option<Seq<JsonValue>> {
    match doc {
        None => Some(Seq::empty()),
        Some(JsonValue::Object(m)) => match lookup(m@, "tickets"@) {
            None => Some(Seq::empty()),
            Some(JsonValue::Array(a)) => Some(a@),
            Some(_) => None,
        },
        Some(_) => None,
    }
}

/// `r` is the ticket document `doc` (`None` when the file is missing or malformed)
/// with the ticket made from `t` and `millis` put first; the `tickets` array is
/// created when absent. A fresh document holds that array alone; otherwise every other
/// member is kept. A document that cannot take a ticket is left as it was.
pub open spec fn manual_added(r: JsonValue, doc: Option<JsonValue>, t: ManualTicket, millis: int) -> bool {
    match ticket_base(doc) {
        Some(ts) => array_field(r, "tickets"@) matches Some(nts) && nts.len() == ts.len() + 1
            && is_manual_record(nts[0], t, millis) && nts.drop_first() == ts && match doc {
            Some(d) => r matches JsonValue::Object(m2) && d matches JsonValue::Object(m1) && (
            forall|k: Seq<char>| k != "tickets"@ ==> #[trigger] lookup(m2@, k) == lookup(m1@, k))
                && (distinct_names(m1@) ==> distinct_names(m2@)),
            None => r matches JsonValue::Object(m2) && m2@.len() == 1,
        },
        None => doc matches Some(d) && same_fields(r, d),
    }
}

/// The ticket record made from `t` with the id stamp `millis`.
fn manual_record(t: ManualTicket, millis: i64) -> (v: JsonValue)
    ensures
        is_manual_record(v, t, millis as int),
{
    let id = String::from_str("manual-").concat(decimal_text(millis).as_str());
    let mut m: Vec<(String, JsonValue)> = Vec::new();
    m.push(text_pair("ticket_id", id));
    m.push(text_pair("timestamp", t.submitted_at));
    m.push(text_pair_of("type", "manual-review"));
    m.push(text_pair("issue_type", t.category));
    m.push(text_pair("description", t.description));
    m.push(text_pair("priority", t.priority));
    m.push(text_pair_of("status", "open"));
    m.push(text_pair_of("source", "manual"));
    m.push(text_pair("computer_name", t.server_name));
    JsonValue::Object(m)
}

/// Puts the ticket made from `t`, with the id `manual-<millis>`, first in the ticket
/// document (`None` when the file is missing or malformed).
pub fn add_manual_ticket(doc: Option<JsonValue>, t: ManualTicket, millis: i64) -> (r: JsonValue)
    ensures
        manual_added(r, doc, t, millis as int),
{
    let record = manual_record(t, millis);
    match doc {
        None => {
            let mut ts: Vec<JsonValue> = Vec::new();
            ts.push(record);
            let mut m: Vec<(String, JsonValue)> = Vec::new();
            m.push((String::from_str("tickets"), JsonValue::Array(ts)));
            assert(ts@.drop_first() =~= Seq::<JsonValue>::empty());
            JsonValue::Object(m)
        },
        Some(JsonValue::Object(m)) => {
            let mut m = m;
            match take_member(&mut m, "tickets") {
                Some(JsonValue::Array(ts)) => {
                    let ghost ts0 = ts@;
                    let mut ts = ts;
                    ts.insert(0, record);
                    assert(ts@.drop_first() =~= ts0);
                    set_member(&mut m, String::from_str("tickets"), JsonValue::Array(ts));
                    JsonValue::Object(m)
                },
                Some(other) => {
                    set_member(&mut m, String::from_str("tickets"), other);
                    JsonValue::Object(m)
                },
                None => {
                    let mut ts: Vec<JsonValue> = Vec::new();
                    ts.push(record);
                    assert(ts@.drop_first() =~= Seq::<JsonValue>::empty());
                    set_member(&mut m, String::from_str("tickets"), JsonValue::Array(ts));
                    JsonValue::Object(m)
                },
            }
        },
        Some(d) => d,
    }
}

/// Files a ticket by hand, stamped with the current time in milliseconds.
pub fn submit_manual_ticket(doc: Option<JsonValue>, t: ManualTicket) -> (r: JsonValue)
    ensures
        exists|millis: i64| #[trigger] manual_added(r, doc, t, millis as int),
{
    let millis = utc_now_millis();
    let r = add_manual_ticket(doc, t, millis);
    assert(manual_added(r, doc, t, millis as int));
    r
}

/// `v` is an open ticket whose id starts with `manual-`.
pub open spec fn is_open_manual(v: JsonValue) -> bool {
    match v {
        JsonValue::Object(m) => m@.len() > 6 && m@[0].0@ == "ticket_id"@ && match text_of(
            Some(m@[0].1),
        ) {
            Some(id) => id.len() >= 7 && id.subrange(0, 7) == "manual-"@,
            None => false,
        } && member_text(m@, 6, "status"@, "open"@),
        _ => false,
    }
}

/// A submission puts exactly one ticket first, whose id starts with `manual-` and whose
/// status is `open`, and keeps the earlier tickets after it in their order.
pub proof fn lemma_submit_prepends(r: JsonValue, doc: Option<JsonValue>, t: ManualTicket, millis: int)
    requires
        manual_added(r, doc, t, millis),
        ticket_base(doc) is Some,
    ensures
        array_field(r, "tickets"@) matches Some(nts) && nts.len() >= 1 && is_open_manual(nts[0])
            && nts.drop_first() == ticket_base(doc)->0,
{
    reveal_strlit("manual-");
    let nts = array_field(r, "tickets"@)->0;
    let id = "manual-"@ + decimal(millis);
    assert(id.subrange(0, 7) =~= "manual-"@);
}

} // verus!
