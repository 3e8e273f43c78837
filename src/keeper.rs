//! Handle resolution that survives the stages of a container's life.
//!
//! A `Keeper` holds the entities of a run in declaration order beside the
//! handle of each. The index space is fixed when the keeper is first built;
//! later stages swap the entities for those of the next stage, slot by slot,
//! and keep the handles, so a handle resolves to the same slot throughout.

use vstd::prelude::*;

use crate::composition::{handle_of, Composition};
use crate::text::same_text;

verus! {

/// Why a handle does not resolve.
#[derive(Clone, Copy, Debug, PartialEq, Eq, Structural)]
pub enum ResolveError {
    /// No entity has the handle.
    NotFound,
    /// Two or more entities have the handle.
    Collision,
}

/// Whether some slot has handle `h`.
pub open spec fn occurs(hs: Seq<String>, h: Seq<char>) -> bool {
    exists|i: int| 0 <= i < hs.len() && (#[trigger] hs[i])@ == h
}

/// Whether two slots have handle `h`.
pub open spec fn collides(hs: Seq<String>, h: Seq<char>) -> bool {
    exists|i: int, j: int|
        0 <= i < hs.len() && 0 <= j < hs.len() && i != j && (#[trigger] hs[i])@ == h && (
        #[trigger] hs[j])@ == h
}

/// What resolving `h` among the handles `hs` gives: the slot that holds it
/// when exactly one does.
pub open spec fn resolution(hs: Seq<String>, h: Seq<char>) -> Result<int, ResolveError> {
    if collides(hs, h) {
        Err(ResolveError::Collision)
    } else if !occurs(hs, h) {
        Err(ResolveError::NotFound)
    } else {
        Ok(choose|i: int| 0 <= i < hs.len() && (#[trigger] hs[i])@ == h)
    }
}

/// No two slots share a handle.
pub open spec fn handles_distinct(hs: Seq<String>) -> bool {
    forall|i: int, j: int|
        0 <= i < hs.len() && 0 <= j < hs.len() && i != j ==> (#[trigger] hs[i])@ != (#[trigger] hs[j])@
}

/// The entities of one stage, each beside its handle.
#[derive(Clone, Debug)]
pub struct Keeper<T> {
    /// The handle of each slot.
    pub handles: Vec<String>,
    /// The entity of each slot.
    pub kept: Vec<T>,
}

impl<T> Keeper<T> {
    /// One entity per handle.
    pub open spec fn wf(&self) -> bool {
        self.handles@.len() == self.kept@.len()
    }

    /// The slot that `handle` resolves to.
    pub fn resolve(&self, handle: &str) -> (r: Result<usize, ResolveError>)
        ensures
            r matches Ok(i) ==> resolution(self.handles@, handle@) == Ok::<int, ResolveError>(
                i as int,
            ) && i < self.handles@.len(),
            r matches Err(e) ==> resolution(self.handles@, handle@) == Err::<int, ResolveError>(e),
    {
        let n = self.handles.len();
        let mut first: Option<usize> = None;
        let mut i: usize = 0;
        while i < n
            invariant
                n == self.handles@.len(),
                i <= n,
                first is None ==> forall|j: int| 0 <= j < i ==> (#[trigger] self.handles@[j])@
                    != handle@,
                first matches Some(f) ==> f < i && self.handles@[f as int]@ == handle@ && forall|
                    j: int,
                | 0 <= j < i && j != f ==> (#[trigger] self.handles@[j])@ != handle@,
            decreases n - i,
        {
            if same_text(self.handles[i].as_str(), handle) {
                match first {
                    Some(f) => {
                        assert(self.handles@[f as int]@ == handle@);
                        assert(self.handles@[i as int]@ == handle@);
                        assert(collides(self.handles@, handle@));
                        return Err(ResolveError::Collision);
                    },
                    None => {
                        first = Some(i);
                    },
                }
            }
            i += 1;
        }
        match first {
            Some(f) => {
                assert(occurs(self.handles@, handle@)) by {
                    assert(self.handles@[f as int]@ == handle@);
                }
                let ghost c = choose|c: int|
                    0 <= c < self.handles@.len() && (#[trigger] self.handles@[c])@ == handle@;
                assert(c == f);
                Ok(f)
            },
            None => Err(ResolveError::NotFound),
        }
    }

    /// The keeper of the next stage: the same handles, slot by slot, beside
    /// the entities `kept`.
    pub fn with_entities<U>(self, kept: Vec<U>) -> (r: Keeper<U>)
        requires
            kept@.len() == self.handles@.len(),
        ensures
            r.wf(),
            r.handles == self.handles,
            r.kept == kept,
    {
        Keeper { handles: self.handles, kept }
    }
}

/// Builds the keeper of the declared compositions, in declaration order: the
/// handle of each slot is that of its composition. A handle that two
/// compositions share stays in both slots and resolves to neither.
pub fn validate_composition_handlers(compositions: Vec<Composition>) -> (r: Keeper<Composition>)
    ensures
        r.wf(),
        r.kept == compositions,
        forall|i: int| 0 <= i < r.handles@.len() ==> (#[trigger] r.handles@[i])@ == handle_of(
            compositions@[i],
        ),
{
    let mut handles: Vec<String> = Vec::new();
    let mut i: usize = 0;
    while i < compositions.len()
        invariant
            i <= compositions@.len(),
            handles@.len() == i,
            forall|j: int| 0 <= j < i ==> (#[trigger] handles@[j])@ == handle_of(compositions@[j]),
        decreases compositions@.len() - i,
    {
        handles.push(compositions[i].handle());
        i += 1;
    }
    Keeper { handles, kept: compositions }
}

/// With no handle shared, every handle resolves to its own slot.
pub proof fn lemma_distinct_handles_resolve(hs: Seq<String>, i: int)
    requires
        handles_distinct(hs),
        0 <= i < hs.len(),
    ensures
        resolution(hs, hs[i]@) == Ok::<int, ResolveError>(i),
{
    let h = hs[i]@;
    assert(!collides(hs, h));
    assert(occurs(hs, h));
    let c = choose|c: int| 0 <= c < hs.len() && (#[trigger] hs[c])@ == h;
    assert(c == i);
}

/// A handle that two slots share resolves to a collision, while both
/// entities stay in the keeper.
pub proof fn lemma_shared_handle_collides<T>(k: Keeper<T>, i: int, j: int)
    requires
        k.wf(),
        0 <= i < k.handles@.len(),
        0 <= j < k.handles@.len(),
        i != j,
        k.handles@[i]@ == k.handles@[j]@,
    ensures
        resolution(k.handles@, k.handles@[i]@) == Err::<int, ResolveError>(ResolveError::Collision),
        i < k.kept@.len() && j < k.kept@.len(),
{
    assert(collides(k.handles@, k.handles@[i]@));
}

} // verus!
