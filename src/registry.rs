//! Per-method handler tables.

use vstd::prelude::*;

verus! {

/// Index of the first entry at or after `i` named `name`.
pub open spec fn find_name<H>(es: Seq<(String, H)>, name: Seq<char>, i: int) -> Option<int>
    decreases es.len() - i,
{
    if i < 0 || i >= es.len() {
        None
    } else if es[i].0@ == name {
        Some(i)
    } else {
        find_name(es, name, i + 1)
    }
}

proof fn lemma_find_name_in_range<H>(es: Seq<(String, H)>, name: Seq<char>, i: int)
    ensures
        find_name(es, name, i) matches Some(p) ==> i <= p < es.len() && es[p].0@ == name,
    decreases es.len() - i,
{
    if 0 <= i < es.len() && es[i].0@ != name {
        lemma_find_name_in_range(es, name, i + 1);
    }
}

proof fn lemma_find_name_same_keys<H>(a: Seq<(String, H)>, b: Seq<(String, H)>, name: Seq<char>, i: int)
    requires
        a.len() == b.len(),
        forall|k: int| 0 <= k < a.len() ==> (#[trigger] a[k]).0@ == b[k].0@,
    ensures
        find_name(a, name, i) == find_name(b, name, i),
    decreases a.len() - i,
{
    if 0 <= i < a.len() {
        lemma_find_name_same_keys(a, b, name, i + 1);
    }
}

proof fn lemma_find_name_push<H>(es: Seq<(String, H)>, e: (String, H), name: Seq<char>, i: int)
    requires
        0 <= i <= es.len(),
        find_name(es, e.0@, 0) == None::<int>,
    ensures
        find_name(es.push(e), name, i) == (if find_name(es, name, i) is Some || name != e.0@ {
            find_name(es, name, i)
        } else {
            Some(es.len() as int)
        }),
    decreases es.len() - i,
{
    assert(es.push(e)[es.len() as int] == e);
    if i < es.len() {
        assert(es.push(e)[i] == es[i]);
        lemma_find_name_push(es, e, name, i + 1);
    }
}

/// Handlers keyed by LSP method name, at most one per name.
pub struct Registry<H> {
    entries: Vec<(String, H)>,
}

impl<H: Copy> Registry<H> {
    /// The handler registered for each method name.
    pub closed spec fn view(&self) -> Map<Seq<char>, H> {
        let es = self.entries@;
        Map::new(
            |m: Seq<char>| find_name(es, m, 0) is Some,
            |m: Seq<char>| es[find_name(es, m, 0)->Some_0].1,
        )
    }

    pub fn new() -> (r: Registry<H>)
        ensures
            r@ == Map::<Seq<char>, H>::empty(),
    {
        let r = Registry { entries: Vec::new() };
        assert(r@ =~= Map::<Seq<char>, H>::empty());
        r
    }

    fn position(&self, method: &String) -> (r: Option<usize>)
        ensures
            match r {
                Some(i) => find_name(self.entries@, method@, 0) == Some(i as int) && i < self.entries@.len(),
                None => find_name(self.entries@, method@, 0) == None::<int>,
            },
    {
        let mut i: usize = 0;
        while i < self.entries.len()
            invariant
                i <= self.entries@.len(),
                find_name(self.entries@, method@, i as int) == find_name(self.entries@, method@, 0),
            decreases self.entries@.len() - i,
        {
            if self.entries[i].0 == *method {
                return Some(i);
            }
            i = i + 1;
        }
        None
    }

    /// The handler for `method`, if one is registered.
    pub fn lookup(&self, method: &String) -> (r: Option<H>)
        ensures
            match r {
                Some(h) => self@.contains_key(method@) && self@[method@] == h,
                None => !self@.contains_key(method@),
            },
    {
        match self.position(method) {
            Some(i) => Some(self.entries[i].1),
            None => None,
        }
    }

    /// Registers `handler` for `method`, in place of any earlier one.
    pub fn register(&mut self, method: String, handler: H)
        ensures
            final(self)@ == old(self)@.insert(method@, handler),
    {
        let ghost before = self.entries@;
        let ghost name = method@;
        match self.position(&method) {
            Some(i) => {
                self.entries.set(i, (method, handler));
                proof {
                    assert(self.entries@[i as int].1 == handler);
                    lemma_find_name_in_range(before, name, 0);
                    assert(self.entries@ == before.update(i as int, self.entries@[i as int]));
                    assert forall|k: int| 0 <= k < before.len() implies (#[trigger] before[k]).0@ == self.entries@[k].0@ by {
                        if k != i {
                            assert(self.entries@[k] == before[k]);
                        }
                    }
                    lemma_find_name_same_keys(before, self.entries@, name, 0);
                    assert forall|m: Seq<char>| m != name implies (#[trigger] find_name(self.entries@, m, 0)) == find_name(before, m, 0)
                        && (find_name(before, m, 0) matches Some(q) ==> self.entries@[q].1 == before[q].1) by {
                        lemma_find_name_same_keys(before, self.entries@, m, 0);
                        lemma_find_name_in_range(before, m, 0);
                    }
                }
            },
            None => {
                let ghost e = (method, handler);
                self.entries.push((method, handler));
                proof {
                    assert(self.entries@ == before.push(e));
                    lemma_find_name_push(before, e, name, 0);
                    assert(self.entries@[before.len() as int].1 == handler);
                    assert forall|m: Seq<char>| m != name implies (#[trigger] find_name(self.entries@, m, 0)) == find_name(before, m, 0)
                        && (find_name(before, m, 0) matches Some(q) ==> self.entries@[q].1 == before[q].1) by {
                        lemma_find_name_push(before, e, m, 0);
                        lemma_find_name_in_range(before, m, 0);
                    }
                }
            },
        }
        assert(self@ =~= old(self)@.insert(method@, handler));
    }
}

} // verus!
