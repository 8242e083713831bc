//! The JSON values that LSP messages carry, as plain data.

use vstd::prelude::*;

verus! {

/// A JSON value. Objects keep their members in order; a lookup finds the
/// first member with the key.
#[derive(Debug, PartialEq)]
pub enum Json {
    Null,
    Bool(bool),
    /// A number without fraction or exponent.
    Int(i128),
    /// Any other number, as its JSON text.
    Decimal(String),
    Str(String),
    Array(Vec<Json>),
    Object(Vec<(String, Json)>),
}

/// `a` and `b` are the same JSON value, member for member and element for
/// element.
pub open spec fn same_json(a: Json, b: Json) -> bool
    decreases a,
{
    match a {
        Json::Null => b is Null,
        Json::Bool(x) => b == Json::Bool(x),
        Json::Int(x) => b == Json::Int(x),
        Json::Decimal(s) => b matches Json::Decimal(t) && s@ == t@,
        Json::Str(s) => b matches Json::Str(t) && s@ == t@,
        Json::Array(u) => b matches Json::Array(v) && u@.len() == v@.len() && forall|i: int|
            0 <= i < u@.len() ==> same_json(#[trigger] u@[i], v@[i]),
        Json::Object(u) => b matches Json::Object(v) && u@.len() == v@.len() && forall|i: int|
            0 <= i < u@.len() ==> (#[trigger] u@[i]).0@ == v@[i].0@ && same_json(u@[i].1, v@[i].1),
    }
}

/// Index of the first member at or after `i` whose key is `key`.
pub open spec fn find_key(es: Seq<(String, Json)>, key: Seq<char>, i: int) -> Option<int>
    decreases es.len() - i,
{
    if i < 0 || i >= es.len() {
        None
    } else if es[i].0@ == key {
        Some(i)
    } else {
        find_key(es, key, i + 1)
    }
}

/// The value of the first member named `key`.
pub open spec fn entry_value(es: Seq<(String, Json)>, key: Seq<char>) -> Option<Json> {
    match find_key(es, key, 0) {
        Some(i) => Some(es[i].1),
        None => None,
    }
}

/// The member `key` of `j`, when `j` is an object that has one.
pub open spec fn member(j: Json, key: Seq<char>) -> Option<Json> {
    match j {
        Json::Object(es) => entry_value(es@, key),
        _ => None,
    }
}

/// `j` is the string `s`.
pub open spec fn is_str(j: Json, s: Seq<char>) -> bool {
    match j {
        Json::Str(t) => t@ == s,
        _ => false,
    }
}

pub proof fn lemma_find_key_in_range(es: Seq<(String, Json)>, key: Seq<char>, i: int)
    ensures
        find_key(es, key, i) matches Some(p) ==> i <= p < es.len() && es[p].0@ == key,
    decreases es.len() - i,
{
    if 0 <= i < es.len() && es[i].0@ != key {
        lemma_find_key_in_range(es, key, i + 1);
    }
}

/// Lookups see only the keys, in order.
pub proof fn lemma_find_key_same_keys(a: Seq<(String, Json)>, b: Seq<(String, Json)>, key: Seq<char>, i: int)
    requires
        a.len() == b.len(),
        forall|k: int| 0 <= k < a.len() ==> (#[trigger] a[k]).0@ == b[k].0@,
    ensures
        find_key(a, key, i) == find_key(b, key, i),
    decreases a.len() - i,
{
    if 0 <= i < a.len() {
        lemma_find_key_same_keys(a, b, key, i + 1);
    }
}

/// A member appended under a new key is found, and no other lookup changes.
pub proof fn lemma_find_key_push(es: Seq<(String, Json)>, e: (String, Json), key: Seq<char>, i: int)
    requires
        0 <= i <= es.len(),
        find_key(es, e.0@, 0) == None::<int>,
    ensures
        find_key(es.push(e), key, i) == (if find_key(es, key, i) is Some || key != e.0@ {
            find_key(es, key, i)
        } else {
            Some(es.len() as int)
        }),
    decreases es.len() - i,
{
    assert(es.push(e)[es.len() as int] == e);
    if i < es.len() {
        assert(es.push(e)[i] == es[i]);
        lemma_find_key_push(es, e, key, i + 1);
    }
}

/// Appending a member under a key that is not there yet makes it found
/// under that key and changes no other lookup.
pub proof fn lemma_push_new_key(es: Seq<(String, Json)>, e: (String, Json))
    requires
        entry_value(es, e.0@) == None::<Json>,
    ensures
        entry_value(es.push(e), e.0@) == Some(e.1),
        forall|k: Seq<char>| k != e.0@ ==> #[trigger] entry_value(es.push(e), k) == entry_value(es, k),
{
    assert(find_key(es, e.0@, 0) == None::<int>);
    lemma_find_key_push(es, e, e.0@, 0);
    assert(es.push(e)[es.len() as int] == e);
    assert forall|k: Seq<char>| k != e.0@ implies #[trigger] entry_value(es.push(e), k) == entry_value(es, k) by {
        lemma_find_key_push(es, e, k, 0);
        lemma_find_key_in_range(es, k, 0);
        if let Some(q) = find_key(es, k, 0) {
            assert(es.push(e)[q] == es[q]);
        }
    }
}

pub fn find_entry(es: &Vec<(String, Json)>, key: &str) -> (r: Option<usize>)
    ensures
        match r {
            Some(i) => find_key(es@, key@, 0) == Some(i as int) && i < es@.len(),
            None => find_key(es@, key@, 0) == None::<int>,
        },
{
    let k = key.to_owned();
    let mut i: usize = 0;
    while i < es.len()
        invariant
            i <= es@.len(),
            k@ == key@,
            find_key(es@, key@, i as int) == find_key(es@, key@, 0),
        decreases es@.len() - i,
    {
        if es[i].0 == k {
            return Some(i);
        }
        i = i + 1;
    }
    None
}

impl Json {
    /// The member `key`, when this is an object that has one.
    pub fn get(&self, key: &str) -> (r: Option<&Json>)
        ensures
            match r {
                Some(v) => member(*self, key@) == Some(*v),
                None => member(*self, key@) == None::<Json>,
            },
    {
        match self {
            Json::Object(es) => match find_entry(es, key) {
                Some(i) => Some(&es[i].1),
                None => None,
            },
            _ => None,
        }
    }

    /// The string this value holds, if it is a string.
    pub fn as_str(&self) -> (r: Option<&String>)
        ensures
            match r {
                Some(s) => *self == Json::Str(*s),
                None => !(self is Str),
            },
    {
        match self {
            Json::Str(s) => Some(s),
            _ => None,
        }
    }
}

/// Takes the value of the member `key` out, leaving `null` in its place.
pub fn take_entry(es: &mut Vec<(String, Json)>, key: &str) -> (r: Option<Json>)
    ensures
        r == entry_value(old(es)@, key@),
        forall|k: Seq<char>| k != key@ ==> entry_value(#[trigger] final(es)@, k) == entry_value(old(es)@, k),
{
    match find_entry(es, key) {
        Some(i) => {
            let ghost before = es@;
            let (name, v) = es.remove(i);
            es.insert(i, (name, Json::Null));
            proof {
                lemma_find_key_in_range(before, key@, 0);
                assert(es@ == before.update(i as int, es@[i as int]));
                assert forall|k: int| 0 <= k < before.len() implies (#[trigger] before[k]).0@ == es@[k].0@ by {
                    if k != i {
                        assert(es@[k] == before[k]);
                    }
                }
                assert forall|k: Seq<char>| k != key@ implies entry_value(es@, k) == entry_value(before, k) by {
                    lemma_find_key_same_keys(before, es@, k, 0);
                    lemma_find_key_in_range(before, k, 0);
                    if let Some(q) = find_key(before, k, 0) {
                        assert(q != i);
                        assert(es@[q] == before[q]);
                    }
                }
            }
            Some(v)
        },
        None => None,
    }
}

/// A deep copy of `j`.
pub fn copy_json(j: &Json) -> (r: Json)
    ensures
        same_json(*j, r),
    decreases *j,
{
    match j {
        Json::Null => Json::Null,
        Json::Bool(b) => Json::Bool(*b),
        Json::Int(i) => Json::Int(*i),
        Json::Decimal(s) => Json::Decimal(s.clone()),
        Json::Str(s) => Json::Str(s.clone()),
        Json::Array(u) => {
            let mut v: Vec<Json> = Vec::new();
            let mut i: usize = 0;
            while i < u.len()
                invariant
                    i <= u@.len(),
                    v@.len() == i,
                    *j == Json::Array(*u),
                    forall|k: int| 0 <= k < i ==> same_json(#[trigger] u@[k], v@[k]),
                decreases u@.len() - i,
            {
                let item = &u[i];
                proof {
                    vstd::std_specs::vec::axiom_vec_index_decreases(*u, i as int);
                    assert(decreases_to!(*j => j->Array_0));
                    assert(decreases_to!(*j => *item));
                }
                let c = copy_json(item);
                v.push(c);
                i = i + 1;
            }
            Json::Array(v)
        },
        Json::Object(u) => {
            let mut v: Vec<(String, Json)> = Vec::new();
            let mut i: usize = 0;
            while i < u.len()
                invariant
                    i <= u@.len(),
                    v@.len() == i,
                    *j == Json::Object(*u),
                    forall|k: int|
                        0 <= k < i ==> (#[trigger] u@[k]).0@ == v@[k].0@ && same_json(u@[k].1, v@[k].1),
                decreases u@.len() - i,
            {
                let item = &u[i].1;
                proof {
                    vstd::std_specs::vec::axiom_vec_index_decreases(*u, i as int);
                    assert(decreases_to!(u[i as int] => u[i as int].1));
                    assert(decreases_to!(*j => j->Object_0));
                    assert(decreases_to!(*j => *item));
                }
                let c = copy_json(item);
                v.push((u[i].0.clone(), c));
                i = i + 1;
            }
            Json::Object(v)
        },
    }
}

/// Gives the member `key` the value `v`: the first member with that key is
/// changed in place, or a new one is appended.
pub fn set_entry(es: &mut Vec<(String, Json)>, key: String, v: Json)
    ensures
        entry_value(final(es)@, key@) == Some(v),
        forall|k: Seq<char>| k != key@ ==> entry_value(#[trigger] final(es)@, k) == entry_value(old(es)@, k),
{
    match find_entry(es, key.as_str()) {
        Some(i) => {
            let ghost before = es@;
            let name = es.remove(i);
            es.insert(i, (name.0, v));
            proof {
                assert(es@ =~= before.update(i as int, (before[i as int].0, v)));
                lemma_find_key_same_keys(before, es@, key@, 0);
                lemma_find_key_in_range(before, key@, 0);
                assert forall|k: Seq<char>| k != key@ implies entry_value(es@, k) == entry_value(before, k) by {
                    lemma_find_key_same_keys(before, es@, k, 0);
                    lemma_find_key_in_range(before, k, 0);
                    if let Some(q) = find_key(before, k, 0) {
                        assert(q != i);
                        assert(es@[q] == before[q]);
                    }
                }
            }
        },
        None => {
            let ghost before = es@;
            let ghost e = (key, v);
            es.push((key, v));
            proof {
                lemma_find_key_push(before, e, key@, 0);
                assert(es@ == before.push(e));
                assert forall|k: Seq<char>| k != key@ implies entry_value(es@, k) == entry_value(before, k) by {
                    lemma_find_key_push(before, e, k, 0);
                    lemma_find_key_in_range(before, k, 0);
                    if let Some(q) = find_key(before, k, 0) {
                        assert(es@[q] == before[q]);
                    }
                }
            }
        },
    }
}

} // verus!
