//! The pool of containers shared by concurrent runs: how many runs hold
//! each, so that the last run to let go is the one that removes it.
//!
//! The pool itself is plain data; whoever shares it between runs guards it
//! with a lock, and every acquire and release is one step under that lock.

use vstd::prelude::*;

use crate::text::same_text;

verus! {

/// The number of runs that hold each shared container, by its identity.
#[derive(Debug)]
pub struct StaticPool {
    entries: Vec<(String, u64)>,
}

/// The counts of `e` by identity, for the identities that have an entry.
pub open spec fn counts_of(e: Seq<(String, u64)>) -> Map<Seq<char>, nat> {
    Map::new(
        |k: Seq<char>| exists|i: int| 0 <= i < e.len() && (#[trigger] e[i]).0@ == k,
        |k: Seq<char>| e[choose|i: int| 0 <= i < e.len() && (#[trigger] e[i]).0@ == k].1 as nat,
    )
}

impl View for StaticPool {
    type V = Map<Seq<char>, nat>;

    closed spec fn view(&self) -> Map<Seq<char>, nat> {
        counts_of(self.entries@)
    }
}

/// An equal copy of the entries `e`.
fn copy_counts(e: &Vec<(String, u64)>) -> (r: Vec<(String, u64)>)
    ensures
        r@ == e@,
{
    let mut r: Vec<(String, u64)> = Vec::new();
    let mut i: usize = 0;
    while i < e.len()
        invariant
            i <= e@.len(),
            r@ == e@.subrange(0, i as int),
        decreases e@.len() - i,
    {
        r.push((e[i].0.clone(), e[i].1));
        i += 1;
    }
    r
}

impl StaticPool {
    /// Identities are unique and every held container has a positive count.
    #[verifier::type_invariant]
    spec fn inv(&self) -> bool {
        &&& forall|i: int, j: int|
            0 <= i < self.entries@.len() && 0 <= j < self.entries@.len() && i != j ==> (
            #[trigger] self.entries@[i]).0@ != (#[trigger] self.entries@[j]).0@
        &&& forall|i: int| 0 <= i < self.entries@.len() ==> (#[trigger] self.entries@[i]).1 > 0
    }

    /// No container held.
    pub fn new() -> (r: StaticPool)
        ensures
            r@ == Map::<Seq<char>, nat>::empty(),
    {
        let r = StaticPool { entries: Vec::new() };
        assert(r@ == Map::<Seq<char>, nat>::empty());
        r
    }

    fn position(&self, key: &str) -> (r: Option<usize>)
        ensures
            r is None ==> !self@.dom().contains(key@),
            r matches Some(i) ==> i < self.entries@.len() && self.entries@[i as int].0@ == key@
                && self@.dom().contains(key@) && self@[key@] == self.entries@[i as int].1 as nat,
    {
        proof {
            use_type_invariant(self);
        }
        let mut i: usize = 0;
        while i < self.entries.len()
            invariant
                self.inv(),
                i <= self.entries@.len(),
                forall|j: int| 0 <= j < i ==> (#[trigger] self.entries@[j]).0@ != key@,
            decreases self.entries@.len() - i,
        {
            if same_text(self.entries[i].0.as_str(), key) {
                let ghost c = choose|c: int|
                    0 <= c < self.entries@.len() && (#[trigger] self.entries@[c]).0@ == key@;
                assert(self.entries@[i as int].0@ == key@);
                assert(c == i);
                return Some(i);
            }
            i += 1;
        }
        None
    }

    /// How many runs hold the container `key`; none is zero.
    pub fn holders(&self, key: &str) -> (r: u64)
        ensures
            self@.dom().contains(key@) ==> r == self@[key@],
            !self@.dom().contains(key@) ==> r == 0,
    {
        match self.position(key) {
            Some(i) => self.entries[i].1,
            None => 0,
        }
    }

    /// A run takes hold of the container `key`. True when no run held it
    /// before: this run is then the one to start it.
    pub fn acquire(&mut self, key: &str) -> (r: bool)
        requires
            old(self)@.dom().contains(key@) ==> old(self)@[key@] < u64::MAX,
        ensures
            r == !old(self)@.dom().contains(key@),
            final(self)@ == old(self)@.insert(
                key@,
                if r {
                    1nat
                } else {
                    old(self)@[key@] + 1
                },
            ),
    {
        proof {
            use_type_invariant(&*self);
        }
        let ghost e = self.entries@;
        match self.position(key) {
            Some(i) => {
                let n = self.entries[i].1;
                let name = self.entries[i].0.clone();
                let mut next = copy_counts(&self.entries);
                next.set(i, (name, n + 1));
                self.entries = next;
                let ghost f = self.entries@;
                assert forall|k: Seq<char>| #[trigger] counts_of(f).dom().contains(k) <==> counts_of(e).dom().contains(k) by {
                    if counts_of(e).dom().contains(k) {
                        let j = choose|j: int| 0 <= j < e.len() && (#[trigger] e[j]).0@ == k;
                        assert(f[j].0@ == k);
                    }
                    if counts_of(f).dom().contains(k) {
                        let j = choose|j: int| 0 <= j < f.len() && (#[trigger] f[j]).0@ == k;
                        assert(e[j].0@ == k);
                    }
                }
                assert forall|k: Seq<char>| #[trigger] counts_of(f).dom().contains(k) implies counts_of(f)[k]
                    == counts_of(e).insert(key@, (e[i as int].1 + 1) as nat)[k] by {
                    let j = choose|j: int| 0 <= j < f.len() && (#[trigger] f[j]).0@ == k;
                    let j2 = choose|j2: int| 0 <= j2 < e.len() && (#[trigger] e[j2]).0@ == k;
                    assert(e[j].0@ == k);
                    assert(j == j2);
                    if k == key@ {
                        assert(j == i);
                    }
                }
                assert(counts_of(f) == counts_of(e).insert(key@, (e[i as int].1 + 1) as nat));
                false
            },
            None => {
                let mut next = copy_counts(&self.entries);
                next.push((String::from_str(key), 1));
                self.entries = next;
                let ghost f = self.entries@;
                assert forall|k: Seq<char>| #[trigger] counts_of(f).dom().contains(k) <==> counts_of(e).dom().contains(k) || k == key@ by {
                    if counts_of(e).dom().contains(k) {
                        let j = choose|j: int| 0 <= j < e.len() && (#[trigger] e[j]).0@ == k;
                        assert(f[j].0@ == k);
                    }
                    if counts_of(f).dom().contains(k) {
                        let j = choose|j: int| 0 <= j < f.len() && (#[trigger] f[j]).0@ == k;
                        if j < e.len() {
                            assert(e[j].0@ == k);
                        }
                    }
                    if k == key@ {
                        assert(f[e.len() as int].0@ == k);
                    }
                }
                assert forall|k: Seq<char>| #[trigger] counts_of(f).dom().contains(k) implies counts_of(f)[k]
                    == counts_of(e).insert(key@, 1nat)[k] by {
                    let j = choose|j: int| 0 <= j < f.len() && (#[trigger] f[j]).0@ == k;
                    if k == key@ {
                        assert(f[e.len() as int].0@ == k);
                        if j < e.len() {
                            assert(e[j].0@ == k);
                        }
                    } else {
                        assert(j < e.len());
                        assert(e[j].0@ == k);
                        let j2 = choose|j2: int| 0 <= j2 < e.len() && (#[trigger] e[j2]).0@ == k;
                        assert(j == j2);
                    }
                }
                assert(counts_of(f) == counts_of(e).insert(key@, 1nat));
                true
            },
        }
    }

    /// A run lets go of the container `key`. True when it was the last run
    /// to hold it: the container may then be removed, and only then.
    pub fn release(&mut self, key: &str) -> (r: bool)
        ensures
            r == (old(self)@.dom().contains(key@) && old(self)@[key@] == 1),
            !old(self)@.dom().contains(key@) ==> final(self)@ == old(self)@,
            old(self)@.dom().contains(key@) && old(self)@[key@] == 1 ==> final(self)@ == old(self)@.remove(key@),
            old(self)@.dom().contains(key@) && old(self)@[key@] > 1 ==> final(self)@ == old(self)@.insert(key@, (old(self)@[key@] - 1) as nat),
    {
        proof {
            use_type_invariant(&*self);
        }
        let ghost e = self.entries@;
        match self.position(key) {
            None => false,
            Some(i) => {
                let n = self.entries[i].1;
                if n == 1 {
                    let mut next = copy_counts(&self.entries);
                    next.remove(i);
                    self.entries = next;
                    let ghost f = self.entries@;
                    assert forall|k: Seq<char>| #[trigger] counts_of(f).dom().contains(k) <==> counts_of(e).dom().contains(k) && k != key@ by {
                        if counts_of(e).dom().contains(k) && k != key@ {
                            let j = choose|j: int| 0 <= j < e.len() && (#[trigger] e[j]).0@ == k;
                            if j < i {
                                assert(f[j].0@ == k);
                            } else {
                                assert(j != i);
                                assert(f[j - 1].0@ == k);
                            }
                        }
                        if counts_of(f).dom().contains(k) {
                            let j = choose|j: int| 0 <= j < f.len() && (#[trigger] f[j]).0@ == k;
                            if j < i {
                                assert(e[j].0@ == k);
                            } else {
                                assert(e[j + 1].0@ == k);
                            }
                        }
                    }
                    assert forall|k: Seq<char>| #[trigger] counts_of(f).dom().contains(k) implies counts_of(f)[k]
                        == counts_of(e)[k] by {
                        let j = choose|j: int| 0 <= j < f.len() && (#[trigger] f[j]).0@ == k;
                        let j2 = choose|j2: int| 0 <= j2 < e.len() && (#[trigger] e[j2]).0@ == k;
                        if j < i {
                            assert(e[j].0@ == k);
                            assert(j == j2);
                        } else {
                            assert(e[j + 1].0@ == k);
                            assert(j + 1 == j2);
                        }
                    }
                    assert(counts_of(f) == counts_of(e).remove(key@));
                    true
                } else {
                    let name = self.entries[i].0.clone();
                    let mut next = copy_counts(&self.entries);
                    next.set(i, (name, n - 1));
                    self.entries = next;
                    let ghost f = self.entries@;
                    assert forall|k: Seq<char>| #[trigger] counts_of(f).dom().contains(k) <==> counts_of(e).dom().contains(k) by {
                        if counts_of(e).dom().contains(k) {
                            let j = choose|j: int| 0 <= j < e.len() && (#[trigger] e[j]).0@ == k;
                            assert(f[j].0@ == k);
                        }
                        if counts_of(f).dom().contains(k) {
                            let j = choose|j: int| 0 <= j < f.len() && (#[trigger] f[j]).0@ == k;
                            assert(e[j].0@ == k);
                        }
                    }
                    assert forall|k: Seq<char>| #[trigger] counts_of(f).dom().contains(k) implies counts_of(f)[k]
                        == counts_of(e).insert(key@, (e[i as int].1 - 1) as nat)[k] by {
                        let j = choose|j: int| 0 <= j < f.len() && (#[trigger] f[j]).0@ == k;
                        let j2 = choose|j2: int| 0 <= j2 < e.len() && (#[trigger] e[j2]).0@ == k;
                        assert(e[j].0@ == k);
                        assert(j == j2);
                        if k == key@ {
                            assert(j == i);
                        }
                    }
                    assert(counts_of(f) == counts_of(e).insert(key@, (e[i as int].1 - 1) as nat));
                    false
                }
            },
        }
    }
}

} // verus!
