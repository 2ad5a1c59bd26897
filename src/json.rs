use vstd::prelude::*;

verus! {

/// A JSON document held as plain values. Object members keep their order.
#[derive(Debug, PartialEq)]
pub enum JsonValue {
    Null,
    Bool(bool),
    /// A number that fits in an `i64`.
    Int(i64),
    /// Any other number, kept as its decimal text.
    Decimal(String),
    Str(String),
    Array(Vec<JsonValue>),
    Object(Vec<(String, JsonValue)>),
}

/// No two members share a name.
pub open spec fn distinct_names(m: Seq<(String, JsonValue)>) -> bool {
    forall|i: int, j: int| 0 <= i < j < m.len() ==> #[trigger] m[i].0@ != #[trigger] m[j].0@
}

/// Index of the first member at or after `i` whose name is `key`, or -1.
pub open spec fn index_from(m: Seq<(String, JsonValue)>, key: Seq<char>, i: int) -> int
    decreases m.len() - i,
{
    if i < 0 || i >= m.len() {
        -1
    } else if m[i].0@ == key {
        i
    } else {
        index_from(m, key, i + 1)
    }
}

/// Index of the first member named `key`, or -1.
pub open spec fn key_index(m: Seq<(String, JsonValue)>, key: Seq<char>) -> int {
    index_from(m, key, 0)
}

/// The value of the first member named `key`.
pub open spec fn lookup(m: Seq<(String, JsonValue)>, key: Seq<char>) -> Option<JsonValue> {
    let i = key_index(m, key);
    if 0 <= i < m.len() {
        Some(m[i].1)
    } else {
        None
    }
}

/// The member `key` of an object; `None` for a missing member or a non-object.
pub open spec fn field(v: JsonValue, key: Seq<char>) -> Option<JsonValue> {
    match v {
        JsonValue::Object(m) => lookup(m@, key),
        _ => None,
    }
}

/// The text of a string value.
pub open spec fn text_of(v: Option<JsonValue>) -> Option<Seq<char>> {
    match v {
        Some(JsonValue::Str(s)) => Some(s@),
        _ => None,
    }
}

/// The text of member `key`, when it is a string.
pub open spec fn text_field(v: JsonValue, key: Seq<char>) -> Option<Seq<char>> {
    text_of(field(v, key))
}

/// The text of member `key`, or `dflt` when it is missing or not a string.
pub open spec fn text_field_or(v: JsonValue, key: Seq<char>, dflt: Seq<char>) -> Seq<char> {
    match text_field(v, key) {
        Some(s) => s,
        None => dflt,
    }
}

/// The elements of member `key`, when it is an array.
pub open spec fn array_field(v: JsonValue, key: Seq<char>) -> Option<Seq<JsonValue>> {
    match field(v, key) {
        Some(JsonValue::Array(a)) => Some(a@),
        _ => None,
    }
}

/// The members of member `key`, when it is an object.
pub open spec fn object_field(v: JsonValue, key: Seq<char>) -> Option<Seq<(String, JsonValue)>> {
    match field(v, key) {
        Some(JsonValue::Object(m)) => Some(m@),
        _ => None,
    }
}

/// Two member lists that agree on names up to the length of the first, and whose
/// extra members are not named `key`, find `key` at the same place.
pub proof fn lemma_index_same_names(
    m1: Seq<(String, JsonValue)>,
    m2: Seq<(String, JsonValue)>,
    key: Seq<char>,
    i: int,
)
    requires
        0 <= i,
        m1.len() <= m2.len(),
        forall|j: int| i <= j < m1.len() ==> #[trigger] m1[j].0@ == m2[j].0@,
        forall|j: int| m1.len() <= j < m2.len() ==> #[trigger] m2[j].0@ != key,
    ensures
        index_from(m1, key, i) == index_from(m2, key, i),
    decreases m2.len() - i,
{
    if i < m2.len() {
        lemma_index_same_names(m1, m2, key, i + 1);
    }
}

/// The result of `index_from` is either -1 or a member named `key` at or after `i`.
pub proof fn lemma_index_from_bounds(m: Seq<(String, JsonValue)>, key: Seq<char>, i: int)
    requires
        0 <= i,
    ensures
        index_from(m, key, i) == -1 || (i <= index_from(m, key, i) < m.len() && m[index_from(
            m,
            key,
            i,
        )].0@ == key),
    decreases m.len() - i,
{
    if i < m.len() {
        lemma_index_from_bounds(m, key, i + 1);
    }
}

/// Whether two strings hold the same characters.
pub fn text_eq(a: &str, b: &str) -> (r: bool)
    ensures
        r == (a@ == b@),
{
    let sa = String::from_str(a);
    let sb = String::from_str(b);
    sa == sb
}

/// Position of the first member named `key`.
pub fn find_member(m: &Vec<(String, JsonValue)>, key: &str) -> (r: Option<usize>)
    ensures
        match r {
            Some(i) => key_index(m@, key@) == i as int && i < m@.len(),
            None => key_index(m@, key@) == -1,
        },
{
    let mut i: usize = 0;
    while i < m.len()
        invariant
            i <= m@.len(),
            key_index(m@, key@) == index_from(m@, key@, i as int),
        decreases m.len() - i,
    {
        if text_eq(m[i].0.as_str(), key) {
            return Some(i);
        }
        i = i + 1;
    }
    None
}

/// The value of the first member named `key`.
pub fn get_member<'a>(m: &'a Vec<(String, JsonValue)>, key: &str) -> (r: Option<&'a JsonValue>)
    ensures
        match r {
            Some(v) => lookup(m@, key@) == Some(*v),
            None => lookup(m@, key@) is None,
        },
{
    match find_member(m, key) {
        Some(i) => Some(&m[i].1),
        None => None,
    }
}

/// The member `key` of an object.
pub fn get_field<'a>(v: &'a JsonValue, key: &str) -> (r: Option<&'a JsonValue>)
    ensures
        match r {
            Some(x) => field(*v, key@) == Some(*x),
            None => field(*v, key@) is None,
        },
{
    match v {
        JsonValue::Object(m) => get_member(m, key),
        _ => None,
    }
}

/// The text of member `key`, when it is a string.
pub fn get_text<'a>(v: &'a JsonValue, key: &str) -> (r: Option<&'a str>)
    ensures
        match r {
            Some(s) => text_field(*v, key@) == Some(s@),
            None => text_field(*v, key@) is None,
        },
{
    match get_field(v, key) {
        Some(JsonValue::Str(s)) => Some(s.as_str()),
        _ => None,
    }
}

/// Member `i` is named `name` and holds the text `text`.
pub open spec fn member_text(m: Seq<(String, JsonValue)>, i: int, name: Seq<char>, text: Seq<char>) -> bool {
    0 <= i < m.len() && m[i].0@ == name && text_of(Some(m[i].1)) == Some(text)
}

/// A member named `name` holding the text `text`.
pub fn text_pair(name: &str, text: String) -> (r: (String, JsonValue))
    ensures
        r.0@ == name@,
        text_of(Some(r.1)) == Some(text@),
{
    (String::from_str(name), JsonValue::Str(text))
}

/// A member named `name` holding `text` copied.
pub fn text_pair_of(name: &str, text: &str) -> (r: (String, JsonValue))
    ensures
        r.0@ == name@,
        text_of(Some(r.1)) == Some(text@),
{
    text_pair(name, String::from_str(text))
}

/// The text of member `key`, or a copy of `dflt`.
pub fn get_text_or(v: &JsonValue, key: &str, dflt: &str) -> (r: String)
    ensures
        r@ == text_field_or(*v, key@, dflt@),
{
    match get_text(v, key) {
        Some(s) => String::from_str(s),
        None => String::from_str(dflt),
    }
}

/// Sets member `key` to `v`: the first member of that name is replaced in place,
/// or a new member is added at the end. Every other name keeps its value.
pub fn set_member(m: &mut Vec<(String, JsonValue)>, key: String, v: JsonValue)
    ensures
        lookup(final(m)@, key@) == Some(v),
        forall|k: Seq<char>| k != key@ ==> #[trigger] lookup(final(m)@, k) == lookup(old(m)@, k),
        distinct_names(old(m)@) ==> distinct_names(final(m)@),
{
    let ghost m0 = m@;
    match find_member(m, key.as_str()) {
        Some(i) => {
            let ghost old_name = m@[i as int].0;
            let (name, _) = m.remove(i);
            assert(name == old_name);
            m.insert(i, (name, v));
            proof {
                assert(m@ =~= m0.update(i as int, m@[i as int]));
                assert(m@[i as int].0@ == m0[i as int].0@);
                assert(forall|j: int| 0 <= j < m0.len() ==> #[trigger] m0[j].0@ == m@[j].0@);
                lemma_index_same_names(m0, m@, key@, 0);
                assert(key_index(m@, key@) == i);
                lemma_index_from_bounds(m0, key@, 0);
                assert(m0[i as int].0@ == key@);
                assert forall|k: Seq<char>| k != key@ implies #[trigger] lookup(m@, k) == lookup(m0, k) by {
                    lemma_index_same_names(m0, m@, k, 0);
                    lemma_index_from_bounds(m0, k, 0);
                }
                if distinct_names(m0) {
                    lemma_distinct_kept(m0, m@);
                }
            }
        },
        None => {
            let ghost kv = key@;
            m.push((key, v));
            proof {
                assert forall|k: Seq<char>| k != kv implies #[trigger] lookup(m@, k) == lookup(m0, k) by {
                    lemma_index_same_names(m0, m@, k, 0);
                    lemma_index_from_bounds(m0, k, 0);
                }
                lemma_index_same_names(m0, m@.drop_last(), kv, 0);
                assert(m@.drop_last() =~= m0);
                lemma_index_from_bounds(m0, kv, 0);
                lemma_index_from_bounds(m@, kv, 0);
                lemma_index_prefix_miss(m@, kv, 0);
                lemma_index_miss(m0, kv, 0);
                assert(forall|j: int| 0 <= j < m0.len() ==> #[trigger] m@[j] == m0[j]);
                if distinct_names(m0) {
                    lemma_distinct_kept(m0, m@);
                }
            }
        },
    }
}

/// Takes the value of the first member named `key` out, leaving `null` in its place.
/// Every other name keeps its value.
pub fn take_member(m: &mut Vec<(String, JsonValue)>, key: &str) -> (r: Option<JsonValue>)
    ensures
        r == lookup(old(m)@, key@),
        r is None ==> final(m)@ == old(m)@,
        forall|k: Seq<char>| k != key@ ==> #[trigger] lookup(final(m)@, k) == lookup(old(m)@, k),
        distinct_names(old(m)@) ==> distinct_names(final(m)@),
{
    let ghost m0 = m@;
    match find_member(m, key) {
        Some(i) => {
            let ghost old_name = m@[i as int].0;
            let (name, v) = m.remove(i);
            assert(name == old_name);
            m.insert(i, (name, JsonValue::Null));
            proof {
                assert(m@ =~= m0.update(i as int, m@[i as int]));
                assert(forall|j: int| 0 <= j < m0.len() ==> #[trigger] m0[j].0@ == m@[j].0@);
                lemma_index_from_bounds(m0, key@, 0);
                assert forall|k: Seq<char>| k != key@ implies #[trigger] lookup(m@, k) == lookup(m0, k) by {
                    lemma_index_same_names(m0, m@, k, 0);
                    lemma_index_from_bounds(m0, k, 0);
                }
                if distinct_names(m0) {
                    lemma_distinct_kept(m0, m@);
                }
            }
            Some(v)
        },
        None => None,
    }
}

/// Renaming nothing keeps names distinct; neither does adding a member with a new name
/// make two alike.
proof fn lemma_distinct_kept(m0: Seq<(String, JsonValue)>, m1: Seq<(String, JsonValue)>)
    requires
        distinct_names(m0),
        m0.len() <= m1.len() <= m0.len() + 1,
        forall|j: int| 0 <= j < m0.len() ==> #[trigger] m1[j].0@ == m0[j].0@,
        m1.len() > m0.len() ==> forall|j: int| 0 <= j < m0.len() ==> #[trigger] m0[j].0@ != m1[m0.len() as int].0@,
    ensures
        distinct_names(m1),
{
    assert forall|i: int, j: int| 0 <= i < j < m1.len() implies #[trigger] m1[i].0@ != #[trigger] m1[j].0@ by {
        assert(m1[i].0@ == m0[i].0@);
        if j < m0.len() {
            assert(m1[j].0@ == m0[j].0@);
        }
    }
}

/// No member at or after `i` is named `key` when `index_from` finds none.
proof fn lemma_index_miss(m: Seq<(String, JsonValue)>, key: Seq<char>, i: int)
    requires
        0 <= i,
        index_from(m, key, i) == -1,
    ensures
        forall|j: int| i <= j < m.len() ==> #[trigger] m[j].0@ != key,
    decreases m.len() - i,
{
    if i < m.len() {
        lemma_index_miss(m, key, i + 1);
    }
}

/// When no member before the last is named `key` and the last one is, that one is found.
proof fn lemma_index_prefix_miss(m: Seq<(String, JsonValue)>, key: Seq<char>, i: int)
    requires
        0 <= i < m.len(),
        m[m.len() - 1].0@ == key,
        index_from(m.drop_last(), key, i) == -1,
    ensures
        index_from(m, key, i) == m.len() - 1,
    decreases m.len() - i,
{
    if i < m.len() - 1 {
        lemma_index_prefix_miss(m, key, i + 1);
    }
}

} // verus!
