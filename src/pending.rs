//! The pending-request table: which method each outstanding client request
//! named, keyed by its id.

use vstd::prelude::*;
use dashmap::DashMap;
use crate::message::{IdKey, RequestId};

verus! {

/// dashmap's concurrent hash map, whose contents the names below give.
#[verifier::external_type_specification]
#[verifier::external_body]
#[verifier::reject_recursive_types(K)]
#[verifier::reject_recursive_types(V)]
#[verifier::reject_recursive_types(S)]
pub struct ExDashMap<K, V, S>(DashMap<K, V, S>);

type IntMap = DashMap<i128, String>;

type StrMap = DashMap<String, String>;

/// What a map with integer keys holds.
pub uninterp spec fn int_entries(m: DashMap<i128, String>) -> Map<int, Seq<char>>;

/// What a map with string keys holds.
pub uninterp spec fn str_entries(m: DashMap<String, String>) -> Map<Seq<char>, Seq<char>>;

pub open spec fn no_ints() -> Map<int, Seq<char>> {
    Map::empty()
}

pub open spec fn no_strs() -> Map<Seq<char>, Seq<char>> {
    Map::empty()
}

/// Relies on DashMap::new: a new map holds nothing.
#[verifier::external_body]
fn new_int_map() -> (r: IntMap)
    ensures
        int_entries(r) == no_ints(),
{
    DashMap::new()
}

/// Relies on DashMap::new: a new map holds nothing.
#[verifier::external_body]
fn new_str_map() -> (r: StrMap)
    ensures
        str_entries(r) == no_strs(),
{
    DashMap::new()
}

/// Relies on DashMap::insert: the key maps to the value afterwards, other
/// keys keep theirs, and the value it replaced is returned.
#[verifier::external_body]
fn int_map_insert(m: &mut DashMap<i128, String>, k: i128, v: String) -> (r: Option<String>)
    ensures
        int_entries(*final(m)) == int_entries(*old(m)).insert(k as int, v@),
        match r {
            Some(p) => int_entries(*old(m)).contains_key(k as int) && int_entries(*old(m))[k as int] == p@,
            None => !int_entries(*old(m)).contains_key(k as int),
        },
{
    m.insert(k, v)
}

/// Relies on DashMap::insert: the key maps to the value afterwards, other
/// keys keep theirs, and the value it replaced is returned.
#[verifier::external_body]
fn str_map_insert(m: &mut DashMap<String, String>, k: String, v: String) -> (r: Option<String>)
    ensures
        str_entries(*final(m)) == str_entries(*old(m)).insert(k@, v@),
        match r {
            Some(p) => str_entries(*old(m)).contains_key(k@) && str_entries(*old(m))[k@] == p@,
            None => !str_entries(*old(m)).contains_key(k@),
        },
{
    m.insert(k, v)
}

/// Relies on DashMap::remove: the key is gone afterwards, other keys keep
/// their values, and the value it had is returned.
#[verifier::external_body]
fn int_map_remove(m: &mut DashMap<i128, String>, k: i128) -> (r: Option<String>)
    ensures
        int_entries(*final(m)) == int_entries(*old(m)).remove(k as int),
        match r {
            Some(p) => int_entries(*old(m)).contains_key(k as int) && int_entries(*old(m))[k as int] == p@,
            None => !int_entries(*old(m)).contains_key(k as int),
        },
{
    m.remove(&k).map(|e| e.1)
}

/// Relies on DashMap::remove: the key is gone afterwards, other keys keep
/// their values, and the value it had is returned.
#[verifier::external_body]
fn str_map_remove(m: &mut DashMap<String, String>, k: &String) -> (r: Option<String>)
    ensures
        str_entries(*final(m)) == str_entries(*old(m)).remove(k@),
        match r {
            Some(p) => str_entries(*old(m)).contains_key(k@) && str_entries(*old(m))[k@] == p@,
            None => !str_entries(*old(m)).contains_key(k@),
        },
{
    m.remove(k).map(|e| e.1)
}

/// Relies on DashMap::contains_key: true exactly when the key has a value.
#[verifier::external_body]
fn int_map_contains(m: &DashMap<i128, String>, k: i128) -> (r: bool)
    ensures
        r == int_entries(*m).contains_key(k as int),
{
    m.contains_key(&k)
}

/// Relies on DashMap::contains_key: true exactly when the key has a value.
#[verifier::external_body]
fn str_map_contains(m: &DashMap<String, String>, k: &String) -> (r: bool)
    ensures
        r == str_entries(*m).contains_key(k@),
{
    m.contains_key(k)
}

/// Relies on DashMap::is_empty: true exactly when the map holds nothing.
#[verifier::external_body]
fn int_map_is_empty(m: &DashMap<i128, String>) -> (r: bool)
    ensures
        r == (int_entries(*m) == no_ints()),
{
    m.is_empty()
}

/// Relies on DashMap::is_empty: true exactly when the map holds nothing.
#[verifier::external_body]
fn str_map_is_empty(m: &DashMap<String, String>) -> (r: bool)
    ensures
        r == (str_entries(*m) == no_strs()),
{
    m.is_empty()
}

/// Outstanding client requests: id to method name.
pub struct PendingTable {
    ints: DashMap<i128, String>,
    strs: DashMap<String, String>,
}

impl PendingTable {
    /// The table as one map; integer and string ids are distinct keys.
    pub closed spec fn view(&self) -> Map<IdKey, Seq<char>> {
        let ints = int_entries(self.ints);
        let strs = str_entries(self.strs);
        Map::new(
            |k: IdKey|
                match k {
                    IdKey::Int(i) => ints.contains_key(i),
                    IdKey::Str(s) => strs.contains_key(s),
                },
            |k: IdKey|
                match k {
                    IdKey::Int(i) => ints[i],
                    IdKey::Str(s) => strs[s],
                },
        )
    }

    pub fn new() -> (r: PendingTable)
        ensures
            r@ == Map::<IdKey, Seq<char>>::empty(),
    {
        let r = PendingTable { ints: new_int_map(), strs: new_str_map() };
        assert(r@ =~= Map::<IdKey, Seq<char>>::empty());
        r
    }

    /// Records that request `id` named `method`; returns the method of an
    /// entry under the same id that this one replaced.
    pub fn insert(&mut self, id: RequestId, method: String) -> (r: Option<String>)
        ensures
            final(self)@ == old(self)@.insert(id.key(), method@),
            match r {
                Some(p) => old(self)@.contains_key(id.key()) && old(self)@[id.key()] == p@,
                None => !old(self)@.contains_key(id.key()),
            },
    {
        let ghost m = method@;
        let r = match id {
            RequestId::Int(i) => int_map_insert(&mut self.ints, i, method),
            RequestId::Str(s) => str_map_insert(&mut self.strs, s, method),
        };
        assert(self@ =~= old(self)@.insert(id.key(), m));
        r
    }

    /// Takes out the entry for `id`, returning its method.
    pub fn remove(&mut self, id: &RequestId) -> (r: Option<String>)
        ensures
            final(self)@ == old(self)@.remove(id.key()),
            match r {
                Some(p) => old(self)@.contains_key(id.key()) && old(self)@[id.key()] == p@,
                None => !old(self)@.contains_key(id.key()),
            },
    {
        let r = match id {
            RequestId::Int(i) => int_map_remove(&mut self.ints, *i),
            RequestId::Str(s) => str_map_remove(&mut self.strs, s),
        };
        assert(self@ =~= old(self)@.remove(id.key()));
        r
    }

    /// Whether a request with this id is outstanding.
    pub fn contains(&self, id: &RequestId) -> (r: bool)
        ensures
            r == self@.contains_key(id.key()),
    {
        match id {
            RequestId::Int(i) => int_map_contains(&self.ints, *i),
            RequestId::Str(s) => str_map_contains(&self.strs, s),
        }
    }

    /// Whether no request is outstanding.
    pub fn is_empty(&self) -> (r: bool)
        ensures
            r == (self@ == Map::<IdKey, Seq<char>>::empty()),
    {
        let a = int_map_is_empty(&self.ints);
        let b = str_map_is_empty(&self.strs);
        if a && b {
            assert(self@ =~= Map::<IdKey, Seq<char>>::empty());
            true
        } else {
            proof {
                if a {
                    assert(!(str_entries(self.strs) =~= no_strs()));
                    let s = choose|s: Seq<char>| str_entries(self.strs).contains_key(s);
                    assert(self@.contains_key(IdKey::Str(s)));
                } else {
                    assert(!(int_entries(self.ints) =~= no_ints()));
                    let i = choose|i: int| int_entries(self.ints).contains_key(i);
                    assert(self@.contains_key(IdKey::Int(i)));
                }
            }
            false
        }
    }
}

} // verus!
