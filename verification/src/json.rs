//! A JSON document as the registry reads it: the request bodies that
//! `npm publish` sends.
use vstd::prelude::*;
use crate::text::{chars_eq, chars_of, extend_chars, string_of};

verus! {

/// A JSON value. Numbers keep their text; the registry never reads them.
/// An object's members come in the order the parser gave them, each key
/// once.
#[derive(Debug, PartialEq, Eq)]
pub enum JsonValue {
    Null,
    Bool(bool),
    Number(String),
    Str(String),
    Array(Vec<JsonValue>),
    Object(Vec<JsonMember>),
}

/// One member `key: value` of a JSON object.
#[derive(Debug, PartialEq, Eq)]
pub struct JsonMember {
    pub key: String,
    pub value: JsonValue,
}

/// The value of the first member named `key`, if any.
pub open spec fn lookup(members: Seq<JsonMember>, key: Seq<char>) -> Option<JsonValue>
    decreases members.len(),
{
    if members.len() == 0 {
        None
    } else if members[0].key@ == key {
        Some(members[0].value)
    } else {
        lookup(members.skip(1), key)
    }
}

/// The member `key` of an object; nothing for any other value.
pub open spec fn json_get(v: JsonValue, key: Seq<char>) -> Option<JsonValue> {
    match v {
        JsonValue::Object(m) => lookup(m@, key),
        _ => None,
    }
}

/// The member `key` of `v` when it is a string.
pub open spec fn json_get_text(v: JsonValue, key: Seq<char>) -> Option<Seq<char>> {
    match json_get(v, key) {
        Some(JsonValue::Str(s)) => Some(s@),
        _ => None,
    }
}

proof fn lemma_lookup_skip(members: Seq<JsonMember>, key: Seq<char>, i: int)
    requires
        0 <= i < members.len(),
        forall|j: int| 0 <= j < i ==> (#[trigger] members[j]).key@ != key,
    ensures
        lookup(members, key) == lookup(members.skip(i), key),
    decreases i,
{
    if i == 0 {
        assert(members.skip(0) =~= members);
    } else {
        assert(members[0].key@ != key);
        assert(members.skip(1).skip(i - 1) =~= members.skip(i));
        assert forall|j: int| 0 <= j < i - 1 implies (#[trigger] members.skip(1)[j]).key@ != key by {
            assert(members.skip(1)[j] == members[j + 1]);
        }
        lemma_lookup_skip(members.skip(1), key, i - 1);
    }
}

proof fn lemma_lookup_absent(members: Seq<JsonMember>, key: Seq<char>)
    requires
        forall|j: int| 0 <= j < members.len() ==> (#[trigger] members[j]).key@ != key,
    ensures
        lookup(members, key) is None,
    decreases members.len(),
{
    if members.len() > 0 {
        assert forall|j: int| 0 <= j < members.len() - 1 implies (
        #[trigger] members.skip(1)[j]).key@ != key by {
            assert(members.skip(1)[j] == members[j + 1]);
        }
        lemma_lookup_absent(members.skip(1), key);
    }
}

/// The member `key` of `v` (`Value::get`).
pub fn get<'a>(v: &'a JsonValue, key: &str) -> (r: Option<&'a JsonValue>)
    ensures
        (r is Some) == (json_get(*v, key@) is Some),
        r matches Some(x) ==> json_get(*v, key@) == Some(*x),
{
    match v {
        JsonValue::Object(members) => {
            let k = chars_of(key);
            for i in 0..members.len()
                invariant
                    k@ == key@,
                    json_get(*v, key@) == lookup(members@, key@),
                    forall|j: int| 0 <= j < i ==> (#[trigger] members@[j]).key@ != key@,
            {
                let mk = chars_of(members[i].key.as_str());
                if chars_eq(&mk, &k) {
                    proof {
                        lemma_lookup_skip(members@, key@, i as int);
                        assert(members@.skip(i as int)[0] == members@[i as int]);
                    }
                    return Some(&members[i].value);
                }
            }
            proof {
                lemma_lookup_absent(members@, key@);
            }
            None
        },
        _ => None,
    }
}

/// The member `key` of `v` when it is a string (`get(key).and_then(as_str)`).
pub fn get_text(v: &JsonValue, key: &str) -> (r: Option<String>)
    ensures
        (r is Some) == (json_get_text(*v, key@) is Some),
        r matches Some(s) ==> json_get_text(*v, key@) == Some(s@),
{
    match get(v, key) {
        Some(JsonValue::Str(s)) => Some(s.clone()),
        _ => None,
    }
}

/// The string elements of an array, in order; other elements are skipped.
pub open spec fn text_items(a: Seq<JsonValue>) -> Seq<Seq<char>>
    decreases a.len(),
{
    if a.len() == 0 {
        Seq::empty()
    } else {
        let rest = text_items(a.drop_last());
        match a.last() {
            JsonValue::Str(s) => rest.push(s@),
            _ => rest,
        }
    }
}

/// The items separated by commas (`[&str]::join(",")`).
pub open spec fn join_commas(items: Seq<Seq<char>>) -> Seq<char>
    decreases items.len(),
{
    if items.len() == 0 {
        Seq::empty()
    } else if items.len() == 1 {
        items[0]
    } else {
        join_commas(items.drop_last()) + seq![','] + items.last()
    }
}

/// The string elements of an array joined by commas.
pub fn join_text_items(a: &Vec<JsonValue>) -> (r: String)
    ensures
        r@ == join_commas(text_items(a@)),
{
    let mut out: Vec<char> = Vec::new();
    let mut any = false;
    for i in 0..a.len()
        invariant
            out@ == join_commas(text_items(a@.take(i as int))),
            any == (text_items(a@.take(i as int)).len() > 0),
    {
        let ghost before = text_items(a@.take(i as int));
        assert(a@.take(i + 1).drop_last() =~= a@.take(i as int));
        match &a[i] {
            JsonValue::Str(s) => {
                assert(text_items(a@.take(i + 1)) == before.push(s@));
                assert(before.push(s@).drop_last() =~= before);
                if any {
                    out.push(',');
                }
                let c = chars_of(s.as_str());
                extend_chars(&mut out, &c);
                any = true;
            },
            _ => {
                assert(text_items(a@.take(i + 1)) == before);
            },
        }
    }
    assert(a@.take(a.len() as int) =~= a@);
    string_of(&out)
}

} // verus!
