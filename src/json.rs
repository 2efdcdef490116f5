use vstd::prelude::*;

verus! {

/// A JSON number, kept without floating point: integers by value, anything
/// else (a fraction, an exponent) as its JSON text.
#[derive(Debug, PartialEq, Eq)]
pub enum JsonNumber {
    Unsigned(u64),
    Signed(i64),
    Text(String),
}

/// A structured value as carried in request parameters and response bodies.
/// An object keeps its members in order; a key that occurs twice is looked
/// up at its last occurrence.
#[derive(Debug, PartialEq, Eq)]
pub enum JsonValue {
    Null,
    Bool(bool),
    Number(JsonNumber),
    Str(String),
    Array(Vec<JsonValue>),
    Object(Vec<(String, JsonValue)>),
}

/// The value bound to `key` among `members`: its last occurrence wins.
pub open spec fn find(members: Seq<(String, JsonValue)>, key: Seq<char>) -> Option<JsonValue>
    decreases members.len(),
{
    if members.len() == 0 {
        None
    } else if members.last().0@ == key {
        Some(members.last().1)
    } else {
        find(members.drop_last(), key)
    }
}

/// The member `key` of `v` when `v` is an object that has it.
pub open spec fn member(v: JsonValue, key: Seq<char>) -> Option<JsonValue> {
    match v {
        JsonValue::Object(members) => find(members@, key),
        _ => None,
    }
}

/// The text of `v` when `v` is a string.
pub open spec fn str_of(v: Option<JsonValue>) -> Option<Seq<char>> {
    match v {
        Some(JsonValue::Str(s)) => Some(s@),
        _ => None,
    }
}

/// Whether `v` is an object whose members are, in order, the given keys
/// bound to strings with the given texts.
pub open spec fn is_string_object(v: JsonValue, pairs: Seq<(Seq<char>, Seq<char>)>) -> bool {
    match v {
        JsonValue::Object(members) => {
            &&& members@.len() == pairs.len()
            &&& forall|i: int|
                0 <= i < pairs.len() ==> {
                    &&& (#[trigger] members@[i]).0@ == pairs[i].0
                    &&& str_of(Some(members@[i].1)) == Some(pairs[i].1)
                }
        },
        _ => false,
    }
}

/// Looks up the member `key` of the object `members`.
pub fn find_member<'a>(members: &'a Vec<(String, JsonValue)>, key: &String) -> (r: Option<&'a JsonValue>)
    ensures
        r matches Some(v) ==> find(members@, key@) == Some(*v),
        r is None ==> find(members@, key@) is None,
{
    let mut i: usize = members.len();
    assert(members@.subrange(0, i as int) =~= members@);
    while i > 0
        invariant
            i <= members@.len(),
            find(members@, key@) == find(members@.subrange(0, i as int), key@),
        decreases i,
    {
        let ghost prefix = members@.subrange(0, i as int);
        assert(prefix.drop_last() =~= members@.subrange(0, i - 1));
        if members[i - 1].0 == *key {
            return Some(&members[i - 1].1);
        }
        i = i - 1;
    }
    assert(members@.subrange(0, 0) =~= Seq::<(String, JsonValue)>::empty());
    None
}

/// Removing a member under another key leaves the lookup of `key` as it was.
proof fn lemma_find_remove(members: Seq<(String, JsonValue)>, i: int, key: Seq<char>)
    requires
        0 <= i < members.len(),
        members[i].0@ != key,
    ensures
        find(members.remove(i), key) == find(members, key),
    decreases members.len(),
{
    if i < members.len() - 1 {
        let rest = members.remove(i);
        assert(rest.last() == members.last());
        assert(rest.drop_last() =~= members.drop_last().remove(i));
        if members.last().0@ != key {
            lemma_find_remove(members.drop_last(), i, key);
        }
    } else {
        assert(members.remove(i) =~= members.drop_last());
    }
}

/// Takes the member `key` out of `members`, as `find` sees it: the last
/// occurrence leaves, and every other key is looked up as before.
pub fn take_member(members: &mut Vec<(String, JsonValue)>, key: &String) -> (r: Option<JsonValue>)
    ensures
        r == find(old(members)@, key@),
        forall|k: Seq<char>| k != key@ ==> find(final(members)@, k) == find(old(members)@, k),
{
    let ghost start = members@;
    let mut i: usize = members.len();
    assert(members@.subrange(0, i as int) =~= members@);
    while i > 0
        invariant
            members@ == start,
            start == old(members)@,
            i <= members@.len(),
            find(members@, key@) == find(members@.subrange(0, i as int), key@),
        decreases i,
    {
        let ghost prefix = members@.subrange(0, i as int);
        assert(prefix.drop_last() =~= members@.subrange(0, i - 1));
        if members[i - 1].0 == *key {
            let (_, v) = members.remove(i - 1);
            proof {
                assert forall|k: Seq<char>| k != key@ implies find(members@, k) == find(start, k) by {
                    lemma_find_remove(start, i - 1, k);
                }
            }
            return Some(v);
        }
        i = i - 1;
    }
    assert(members@.subrange(0, 0) =~= Seq::<(String, JsonValue)>::empty());
    None
}

/// The text of the string member `key` of `v`, if `v` is an object holding
/// a string there.
pub fn string_member(v: &JsonValue, key: &String) -> (r: Option<String>)
    ensures
        r matches Some(s) ==> str_of(member(*v, key@)) == Some(s@),
        r is None ==> str_of(member(*v, key@)) is None,
{
    match v {
        JsonValue::Object(members) => {
            match find_member(members, key) {
                Some(JsonValue::Str(s)) => Some(s.clone()),
                _ => None,
            }
        },
        _ => None,
    }
}

/// A string value holding `s`.
pub fn string_value(s: &str) -> (r: JsonValue)
    ensures
        r matches JsonValue::Str(t) && t@ == s@,
{
    JsonValue::Str(String::from_str(s))
}

} // verus!
