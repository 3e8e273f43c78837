//! Environment variables of a container: a map from name to value that keeps
//! the order in which names were first set.

use vstd::prelude::*;

use crate::text::{push_char, same_text};

verus! {

/// Whether some entry of `e` is named `k`.
pub open spec fn has_key(e: Seq<(String, String)>, k: Seq<char>) -> bool {
    exists|i: int| 0 <= i < e.len() && (#[trigger] e[i]).0@ == k
}

/// No two entries of `e` share a name.
pub open spec fn keys_unique(e: Seq<(String, String)>) -> bool {
    forall|i: int, j: int|
        0 <= i < e.len() && 0 <= j < e.len() && i != j ==> (#[trigger] e[i]).0@ != (#[trigger] e[j]).0@
}

/// The map that the entries of `e` describe.
pub open spec fn map_of(e: Seq<(String, String)>) -> Map<Seq<char>, Seq<char>> {
    Map::new(
        |k: Seq<char>| has_key(e, k),
        |k: Seq<char>| e[choose|i: int| 0 <= i < e.len() && (#[trigger] e[i]).0@ == k].1@,
    )
}

/// The map that setting each pair of `pairs` in turn produces, the last
/// value of a name winning.
pub open spec fn map_of_pairs(pairs: Seq<(String, String)>) -> Map<Seq<char>, Seq<char>>
    decreases pairs.len(),
{
    if pairs.len() == 0 {
        Map::empty()
    } else {
        map_of_pairs(pairs.drop_last()).insert(pairs.last().0@, pairs.last().1@)
    }
}

/// The variables as `NAME=VALUE` assignments.
pub open spec fn assignment(p: (String, String)) -> Seq<char> {
    p.0@ + seq!['='] + p.1@
}

/// Whether `a` is the assignment `NAME=VALUE` of a variable of `m`.
pub open spec fn is_assignment_in(m: Map<Seq<char>, Seq<char>>, a: Seq<char>) -> bool {
    exists|k: Seq<char>| #[trigger] m.dom().contains(k) && a == k + seq!['='] + m[k]
}

/// A set of environment variables, names unique.
#[derive(Debug, PartialEq)]
pub struct EnvVars {
    entries: Vec<(String, String)>,
}

impl View for EnvVars {
    type V = Map<Seq<char>, Seq<char>>;

    closed spec fn view(&self) -> Map<Seq<char>, Seq<char>> {
        map_of(self.entries@)
    }
}

proof fn lemma_map_of_update(e: Seq<(String, String)>, i: int, p: (String, String))
    requires
        keys_unique(e),
        0 <= i < e.len(),
        e[i].0@ == p.0@,
    ensures
        keys_unique(e.update(i, p)),
        map_of(e.update(i, p)) == map_of(e).insert(p.0@, p.1@),
{
    let f = e.update(i, p);
    assert forall|k: Seq<char>| has_key(f, k) <==> has_key(e, k) || k == p.0@ by {
        if has_key(e, k) {
            let j = choose|j: int| 0 <= j < e.len() && (#[trigger] e[j]).0@ == k;
            assert(f[j].0@ == k);
        }
        if has_key(f, k) {
            let j = choose|j: int| 0 <= j < f.len() && (#[trigger] f[j]).0@ == k;
            assert(e[j].0@ == k);
        }
        if k == p.0@ {
            assert(f[i].0@ == k);
        }
    }
    assert forall|k: Seq<char>| #[trigger] map_of(f).dom().contains(k) implies map_of(f)[k]
        == map_of(e).insert(p.0@, p.1@)[k] by {
        let j = choose|j: int| 0 <= j < f.len() && (#[trigger] f[j]).0@ == k;
        if k == p.0@ {
            assert(f[i].0@ == k);
        } else {
            let j2 = choose|j2: int| 0 <= j2 < e.len() && (#[trigger] e[j2]).0@ == k;
            assert(f[j].0@ == k);
            assert(j != i);
            assert(e[j].0@ == k);
        }
    }
    assert(map_of(f) == map_of(e).insert(p.0@, p.1@));
}

proof fn lemma_map_of_push(e: Seq<(String, String)>, p: (String, String))
    requires
        keys_unique(e),
        !has_key(e, p.0@),
    ensures
        keys_unique(e.push(p)),
        map_of(e.push(p)) == map_of(e).insert(p.0@, p.1@),
{
    let f = e.push(p);
    assert forall|k: Seq<char>| has_key(f, k) <==> has_key(e, k) || k == p.0@ by {
        if has_key(e, k) {
            let j = choose|j: int| 0 <= j < e.len() && (#[trigger] e[j]).0@ == k;
            assert(f[j].0@ == k);
        }
        if has_key(f, k) {
            let j = choose|j: int| 0 <= j < f.len() && (#[trigger] f[j]).0@ == k;
            if j < e.len() {
                assert(e[j].0@ == k);
            }
        }
        if k == p.0@ {
            assert(f[e.len() as int].0@ == k);
        }
    }
    assert forall|k: Seq<char>| #[trigger] map_of(f).dom().contains(k) implies map_of(f)[k]
        == map_of(e).insert(p.0@, p.1@)[k] by {
        let j = choose|j: int| 0 <= j < f.len() && (#[trigger] f[j]).0@ == k;
        if k == p.0@ {
            assert(f[e.len() as int].0@ == k);
            if j < e.len() {
                assert(e[j].0@ == k);
            }
        } else {
            let j2 = choose|j2: int| 0 <= j2 < e.len() && (#[trigger] e[j2]).0@ == k;
            assert(f[j].0@ == k);
            assert(j < e.len());
            assert(e[j].0@ == k);
        }
    }
    assert(map_of(f) == map_of(e).insert(p.0@, p.1@));
}

proof fn lemma_map_of_len(e: Seq<(String, String)>)
    requires
        keys_unique(e),
    ensures
        map_of(e).len() == e.len(),
{
    let keys = e.map_values(|p: (String, String)| p.0@);
    assert(keys.no_duplicates()) by {
        assert forall|i: int, j: int|
            0 <= i < keys.len() && 0 <= j < keys.len() && i != j implies keys[i] != keys[j] by {
            assert(e[i].0@ != e[j].0@);
        }
    }
    keys.unique_seq_to_set();
    assert forall|k: Seq<char>| map_of(e).dom().contains(k) <==> keys.to_set().contains(k) by {
        if has_key(e, k) {
            let j = choose|j: int| 0 <= j < e.len() && (#[trigger] e[j]).0@ == k;
            assert(keys[j] == k);
        }
        if keys.contains(k) {
            let j = choose|j: int| 0 <= j < keys.len() && keys[j] == k;
            assert(e[j].0@ == k);
        }
    }
    assert(map_of(e).dom() == keys.to_set());
}

impl Clone for EnvVars {
    fn clone(&self) -> (r: EnvVars)
        ensures
            r@ == self@,
    {
        proof {
            use_type_invariant(self);
        }
        EnvVars { entries: copy_entries(&self.entries) }
    }
}

/// An equal copy of the entries `e`.
fn copy_entries(e: &Vec<(String, String)>) -> (r: Vec<(String, String)>)
    ensures
        r@ == e@,
{
    let mut r: Vec<(String, String)> = Vec::new();
    let mut i: usize = 0;
    while i < e.len()
        invariant
            i <= e@.len(),
            r@ == e@.subrange(0, i as int),
        decreases e@.len() - i,
    {
        r.push((e[i].0.clone(), e[i].1.clone()));
        i += 1;
    }
    r
}

impl EnvVars {
    /// Names are unique.
    #[verifier::type_invariant]
    spec fn inv(&self) -> bool {
        keys_unique(self.entries@)
    }

    /// No variables.
    pub fn new() -> (r: EnvVars)
        ensures
            r@ == Map::<Seq<char>, Seq<char>>::empty(),
    {
        let r = EnvVars { entries: Vec::new() };
        assert(r@ == Map::<Seq<char>, Seq<char>>::empty());
        r
    }

    /// The variables that setting each pair in turn gives.
    pub fn from_pairs(pairs: Vec<(String, String)>) -> (r: EnvVars)
        ensures
            r@ == map_of_pairs(pairs@),
    {
        let mut r = EnvVars::new();
        let mut i: usize = 0;
        while i < pairs.len()
            invariant
                i <= pairs.len(),
                r@ == map_of_pairs(pairs@.subrange(0, i as int)),
            decreases pairs.len() - i,
        {
            let name = &pairs[i].0;
            let value = &pairs[i].1;
            r.insert(name.as_str(), value.as_str());
            assert(pairs@.subrange(0, i + 1).drop_last() == pairs@.subrange(0, i as int));
            i += 1;
        }
        assert(pairs@.subrange(0, pairs@.len() as int) == pairs@);
        r
    }

    /// Position of the entry named `k`, if any.
    fn position(&self, k: &str) -> (r: Option<usize>)
        ensures
            r is None ==> !has_key(self.entries@, k@),
            r matches Some(i) ==> i < self.entries@.len() && self.entries@[i as int].0@ == k@,
    {
        let mut i: usize = 0;
        while i < self.entries.len()
            invariant
                i <= self.entries@.len(),
                forall|j: int| 0 <= j < i ==> (#[trigger] self.entries@[j]).0@ != k@,
            decreases self.entries@.len() - i,
        {
            if same_text(self.entries[i].0.as_str(), k) {
                return Some(i);
            }
            i += 1;
        }
        None
    }

    /// Sets `k` to `v`; hands back the value that `k` had, if it had one.
    pub fn insert(&mut self, k: &str, v: &str) -> (r: Option<String>)
        ensures
            final(self)@ == old(self)@.insert(k@, v@),
            r is None <==> !old(self)@.dom().contains(k@),
            r matches Some(o) ==> o@ == old(self)@[k@],
    {
        proof {
            use_type_invariant(&*self);
        }
        let p = (String::from_str(k), String::from_str(v));
        let mut next = copy_entries(&self.entries);
        match self.position(k) {
            Some(i) => {
                let old_value = self.entries[i].1.clone();
                proof {
                    lemma_map_of_update(self.entries@, i as int, p);
                    assert(map_of(self.entries@).dom().contains(k@));
                }
                next.set(i, p);
                self.entries = next;
                Some(old_value)
            },
            None => {
                proof {
                    lemma_map_of_push(self.entries@, p);
                }
                next.push(p);
                self.entries = next;
                None
            },
        }
    }

    /// The value of `k`, if set.
    pub fn get(&self, k: &str) -> (r: Option<&String>)
        ensures
            r is Some <==> self@.dom().contains(k@),
            r matches Some(v) ==> v@ == self@[k@],
    {
        proof {
            use_type_invariant(self);
        }
        match self.position(k) {
            Some(i) => Some(&self.entries[i].1),
            None => None,
        }
    }

    /// Every variable as a `NAME=VALUE` assignment, one each.
    pub fn assignments(&self) -> (r: Vec<String>)
        ensures
            r@.len() == self@.len(),
            forall|i: int| 0 <= i < r@.len() ==> is_assignment_in(self@, (#[trigger] r@[i])@),
            forall|k: Seq<char>|
                #[trigger] self@.dom().contains(k) ==> exists|i: int|
                    0 <= i < r@.len() && (#[trigger] r@[i])@ == k + seq!['='] + self@[k],
    {
        proof {
            use_type_invariant(self);
        }
        let ghost e = self.entries@;
        let mut r: Vec<String> = Vec::new();
        let mut i: usize = 0;
        while i < self.entries.len()
            invariant
                e == self.entries@,
                keys_unique(e),
                i <= e.len(),
                r@.len() == i,
                forall|j: int| 0 <= j < i ==> (#[trigger] r@[j])@ == assignment(e[j]),
            decreases e.len() - i,
        {
            let mut a = self.entries[i].0.clone();
            push_char(&mut a, '=');
            a.append(self.entries[i].1.as_str());
            r.push(a);
            i += 1;
        }
        assert forall|j: int| 0 <= j < e.len() implies #[trigger] map_of(e).dom().contains(e[j].0@)
            && map_of(e)[e[j].0@] == e[j].1@ by {
            assert(has_key(e, e[j].0@));
            let c = choose|c: int| 0 <= c < e.len() && (#[trigger] e[c]).0@ == e[j].0@;
            assert(c == j);
        }
        assert forall|j: int| 0 <= j < r@.len() implies is_assignment_in(self@, (#[trigger] r@[j])@) by {
            assert(self@ == map_of(e));
            assert(map_of(e).dom().contains(e[j].0@));
            assert(self@.dom().contains(e[j].0@));
            assert(r@[j]@ == e[j].0@ + seq!['='] + self@[e[j].0@]);
        }
        assert forall|k: Seq<char>| #[trigger] self@.dom().contains(k) implies exists|j: int|
            0 <= j < r@.len() && (#[trigger] r@[j])@ == k + seq!['='] + self@[k] by {
            let j = choose|j: int| 0 <= j < e.len() && (#[trigger] e[j]).0@ == k;
            assert(map_of(e).dom().contains(e[j].0@));
            assert(r@[j]@ == assignment(e[j]));
        }
        proof {
            lemma_map_of_len(e);
        }
        r
    }

    /// The number of variables.
    pub fn len(&self) -> (r: usize)
        ensures
            r == self@.len(),
    {
        proof {
            use_type_invariant(self);
            lemma_map_of_len(self.entries@);
        }
        self.entries.len()
    }
}

} // verus!
