//! The resolution stage of a run: final container names, named volumes and
//! container names injected into environments, in that order.

use vstd::prelude::*;

use rand::Rng;

use crate::composition::{final_container_name, Composition};
use crate::keeper::Keeper;
use crate::text::{push_char, same_text};

verus! {

/// Relies on `rand::thread_rng` and `Rng::gen_range`: a value drawn from the
/// half-open range `[low, high)`.
#[verifier::external_body]
fn random_byte_in(low: u8, high: u8) -> (r: u8)
    requires
        low < high,
    ensures
        low <= r < high,
{
    rand::thread_rng().gen_range(low, high)
}

/// Whether every character of `s` is a lowercase letter from `a` to `y`.
pub open spec fn is_random_suffix(s: Seq<char>) -> bool {
    forall|i: int| 0 <= i < s.len() ==> 'a' <= #[trigger] s[i] && s[i] < 'z'
}

/// A random string of `len` lowercase letters from `a` to `y`.
pub fn generate_random_string(len: usize) -> (r: String)
    ensures
        r@.len() == len,
        is_random_suffix(r@),
{
    let mut s = String::new();
    let mut i: usize = 0;
    while i < len
        invariant
            i <= len,
            s@.len() == i,
            is_random_suffix(s@),
        decreases len - i,
    {
        let b = random_byte_in(97u8, 122u8);
        let c = b as char;
        push_char(&mut s, c);
        i += 1;
    }
    s
}

/// The identifier of a new run: twenty random lowercase letters.
pub fn new_run_id() -> (r: String)
    ensures
        r@.len() == 20,
        is_random_suffix(r@),
{
    generate_random_string(20)
}

/// The network of the run `run_id`: the external network if one is given,
/// else `dockertest-rs-` and the run's identifier.
pub fn network_name(external: Option<&str>, run_id: &str) -> (r: String)
    ensures
        external matches Some(n) ==> r@ == n@,
        external is None ==> r@ == "dockertest-rs-"@ + run_id@,
{
    match external {
        Some(n) => String::from_str(n),
        None => {
            let mut r = String::from_str("dockertest-rs-");
            r.append(run_id);
            r
        },
    }
}

/// Finalizes the name of every composition with the suffix of its slot.
pub fn resolve_final_container_names_with(
    compositions: &mut Keeper<Composition>,
    namespace: &str,
    suffixes: &Vec<String>,
)
    requires
        suffixes@.len() == old(compositions).kept@.len(),
    ensures
        final(compositions).handles == old(compositions).handles,
        final(compositions).kept@.len() == old(compositions).kept@.len(),
        forall|i: int|
            0 <= i < old(compositions).kept@.len() ==> {
                let c = old(compositions).kept@[i];
                #[trigger] final(compositions).kept@[i] == (Composition {
                    container_name: final(compositions).kept@[i].container_name,
                    ..c
                }) && final(compositions).kept@[i].container_name@ == final_container_name(
                    c,
                    namespace@,
                    suffixes@[i]@,
                )
            },
{
    let n = compositions.kept.len();
    let mut i: usize = 0;
    while i < n
        invariant
            n == old(compositions).kept@.len(),
            n == compositions.kept@.len(),
            suffixes@.len() == n,
            i <= n,
            compositions.handles == old(compositions).handles,
            forall|j: int|
                i <= j < n ==> #[trigger] compositions.kept@[j] == old(compositions).kept@[j],
            forall|j: int|
                0 <= j < i ==> {
                    let c = old(compositions).kept@[j];
                    #[trigger] compositions.kept@[j] == (Composition {
                        container_name: compositions.kept@[j].container_name,
                        ..c
                    }) && compositions.kept@[j].container_name@ == final_container_name(
                        c,
                        namespace@,
                        suffixes@[j]@,
                    )
                },
        decreases n - i,
    {
        compositions.kept[i].configure_container_name(namespace, suffixes[i].as_str());
        i += 1;
    }
}

/// Finalizes the name of every composition with a fresh random suffix of
/// twenty letters, and hands back the suffixes used, slot by slot.
pub fn resolve_final_container_name(compositions: &mut Keeper<Composition>, namespace: &str) -> (r:
    Vec<String>)
    ensures
        r@.len() == old(compositions).kept@.len(),
        forall|i: int| 0 <= i < r@.len() ==> (#[trigger] r@[i])@.len() == 20 && is_random_suffix(
            r@[i]@,
        ),
        final(compositions).handles == old(compositions).handles,
        final(compositions).kept@.len() == old(compositions).kept@.len(),
        forall|i: int|
            0 <= i < old(compositions).kept@.len() ==> {
                let c = old(compositions).kept@[i];
                #[trigger] final(compositions).kept@[i] == (Composition {
                    container_name: final(compositions).kept@[i].container_name,
                    ..c
                }) && final(compositions).kept@[i].container_name@ == final_container_name(
                    c,
                    namespace@,
                    r@[i]@,
                )
            },
{
    let mut suffixes: Vec<String> = Vec::new();
    let mut i: usize = 0;
    while i < compositions.kept.len()
        invariant
            i <= compositions.kept@.len(),
            suffixes@.len() == i,
            forall|j: int|
                0 <= j < i ==> (#[trigger] suffixes@[j])@.len() == 20 && is_random_suffix(
                    suffixes@[j]@,
                ),
        decreases compositions.kept@.len() - i,
    {
        suffixes.push(generate_random_string(20));
        i += 1;
    }
    resolve_final_container_names_with(compositions, namespace, &suffixes);
    suffixes
}

/// The name that the bare volume name `bare` gets in the run `id`.
pub open spec fn suffixed_volume(bare: Seq<char>, id: Seq<char>) -> Seq<char> {
    bare + seq!['-'] + id
}

/// The mount of the bare volume `bare` at `path` in the run `id`.
pub open spec fn volume_mount(bare: Seq<char>, id: Seq<char>, path: Seq<char>) -> Seq<char> {
    suffixed_volume(bare, id) + seq![':'] + path
}

/// No two of `names` hold the same characters.
pub open spec fn views_distinct(names: Seq<String>) -> bool {
    forall|m: int, n: int|
        0 <= m < names.len() && 0 <= n < names.len() && m != n ==> (#[trigger] names[m])@ != (
        #[trigger] names[n])@
}

/// Whether some of `names` holds `x`.
pub open spec fn holds_name(names: Seq<String>, x: Seq<char>) -> bool {
    exists|m: int| 0 <= m < names.len() && (#[trigger] names[m])@ == x
}

/// Whether `x` is the run's name of some volume of `vols`.
pub open spec fn names_volume_of(x: Seq<char>, vols: Seq<(String, String)>, id: Seq<char>) -> bool {
    exists|k: int| 0 <= k < vols.len() && x == suffixed_volume((#[trigger] vols[k]).0@, id)
}

/// Whether `names` holds the run's name of every volume of `vols`.
pub open spec fn covers(names: Seq<String>, vols: Seq<(String, String)>, id: Seq<char>) -> bool {
    forall|k: int| 0 <= k < vols.len() ==> holds_name(names, suffixed_volume((#[trigger] vols[k]).0@, id))
}

proof fn lemma_covers_grow(
    before: Seq<String>,
    after: Seq<String>,
    vols: Seq<(String, String)>,
    id: Seq<char>,
)
    requires
        after.len() >= before.len(),
        after.subrange(0, before.len() as int) == before,
        covers(before, vols, id),
    ensures
        covers(after, vols, id),
{
    assert forall|k: int| 0 <= k < vols.len() implies holds_name(
        after,
        suffixed_volume((#[trigger] vols[k]).0@, id),
    ) by {
        let x = suffixed_volume(vols[k].0@, id);
        assert(holds_name(before, x));
        let m = choose|m: int| 0 <= m < before.len() && (#[trigger] before[m])@ == x;
        assert(after[m] == after.subrange(0, before.len() as int)[m]);
    }
}

/// Whether `name` is the run's name of a volume of one of the first `upto`
/// compositions.
pub open spec fn declared_volume(
    cs: Seq<Composition>,
    upto: int,
    id: Seq<char>,
    name: Seq<char>,
) -> bool {
    exists|i: int, k: int|
        0 <= i < upto && 0 <= k < cs[i].named_volumes@.len() && name == suffixed_volume(
            (#[trigger] cs[i].named_volumes@[k]).0@,
            id,
        )
}

/// Resolves the volumes `vols` of one composition: the mounts, in order, and
/// the run's names added to `names` where they are not there yet.
fn resolve_volumes_of(vols: &Vec<(String, String)>, run_id: &str, names: &mut Vec<String>) -> (r:
    Vec<String>)
    requires
        views_distinct(old(names)@),
    ensures
        r@.len() == vols@.len(),
        forall|k: int|
            0 <= k < vols@.len() ==> (#[trigger] r@[k])@ == volume_mount(
                vols@[k].0@,
                run_id@,
                vols@[k].1@,
            ),
        views_distinct(final(names)@),
        final(names)@.len() >= old(names)@.len(),
        final(names)@.subrange(0, old(names)@.len() as int) == old(names)@,
        forall|m: int|
            old(names)@.len() <= m < final(names)@.len() ==> names_volume_of(
                (#[trigger] final(names)@[m])@,
                vols@,
                run_id@,
            ),
        covers(final(names)@, vols@, run_id@),
{
    let mut mounts: Vec<String> = Vec::new();
    let mut k: usize = 0;
    while k < vols.len()
        invariant
            k <= vols@.len(),
            mounts@.len() == k,
            forall|j: int|
                0 <= j < k ==> (#[trigger] mounts@[j])@ == volume_mount(
                    vols@[j].0@,
                    run_id@,
                    vols@[j].1@,
                ),
            views_distinct(names@),
            names@.len() >= old(names)@.len(),
            names@.subrange(0, old(names)@.len() as int) == old(names)@,
            forall|m: int|
                old(names)@.len() <= m < names@.len() ==> names_volume_of(
                    (#[trigger] names@[m])@,
                    vols@,
                    run_id@,
                ),
            covers(names@, vols@.subrange(0, k as int), run_id@),
        decreases vols@.len() - k,
    {
        let bare = vols[k].0.as_str();
        let mut suffixed = String::from_str(bare);
        push_char(&mut suffixed, '-');
        suffixed.append(run_id);
        assert(suffixed@ == suffixed_volume(vols@[k as int].0@, run_id@));
        let mut mount = suffixed.clone();
        push_char(&mut mount, ':');
        mount.append(vols[k].1.as_str());
        let mut m: usize = 0;
        let mut seen = false;
        while m < names.len()
            invariant
                m <= names@.len(),
                !seen ==> forall|n: int| 0 <= n < m ==> (#[trigger] names@[n])@ != suffixed@,
                seen ==> exists|n: int| 0 <= n < names@.len() && (#[trigger] names@[n])@ == suffixed@,
            decreases names@.len() - m,
        {
            if same_text(names[m].as_str(), suffixed.as_str()) {
                seen = true;
            }
            m += 1;
        }
        let ghost before = names@;
        if !seen {
            names.push(suffixed);
            assert(names@[before.len() as int]@ == suffixed_volume(vols@[k as int].0@, run_id@));
        }
        let ghost done = vols@.subrange(0, k + 1);
        assert forall|j: int| 0 <= j < k + 1 implies holds_name(
            names@,
            suffixed_volume((#[trigger] done[j]).0@, run_id@),
        ) by {
            if j < k {
                assert(vols@.subrange(0, k as int)[j] == done[j]);
                let x = suffixed_volume(done[j].0@, run_id@);
                assert(holds_name(before, x));
                let n = choose|n: int| 0 <= n < before.len() && (#[trigger] before[n])@ == x;
                assert(names@[n] == before[n]);
            } else if seen {
                assert(done[j] == vols@[k as int]);
                let n = choose|n: int| 0 <= n < before.len() && (#[trigger] before[n])@ == suffixed@;
                assert(names@[n] == before[n]);
            } else {
                assert(done[j] == vols@[k as int]);
                assert(names@[before.len() as int]@ == suffixed@);
            }
        }
        assert(names@.subrange(0, old(names)@.len() as int) == before.subrange(
            0,
            old(names)@.len() as int,
        ));
        assert forall|m: int| old(names)@.len() <= m < names@.len() implies names_volume_of(
            (#[trigger] names@[m])@,
            vols@,
            run_id@,
        ) by {
            if m < before.len() {
                assert(names@[m] == before[m]);
            } else {
                assert(names@[m]@ == suffixed_volume(vols@[k as int].0@, run_id@));
            }
        }
        mounts.push(mount);
        k += 1;
    }
    assert(vols@.subrange(0, vols@.len() as int) == vols@);
    mounts
}

/// Composition `d` is `c` with the mounts of its named volumes resolved for
/// the run `id`.
pub open spec fn mounts_resolved(c: Composition, d: Composition, id: Seq<char>) -> bool {
    &&& d == (Composition { final_named_volume_names: d.final_named_volume_names, ..c })
    &&& d.final_named_volume_names@.len() == c.named_volumes@.len()
    &&& forall|k: int|
        0 <= k < c.named_volumes@.len() ==> (#[trigger] d.final_named_volume_names@[k])@
            == volume_mount(c.named_volumes@[k].0@, id, c.named_volumes@[k].1@)
}

/// The compositions `after` are `before` with their named volumes resolved
/// for the run `id`, and `names` lists the run's volume names, each once.
pub open spec fn volumes_resolved(
    before: Seq<Composition>,
    after: Seq<Composition>,
    names: Seq<String>,
    id: Seq<char>,
) -> bool {
    &&& after.len() == before.len()
    &&& forall|i: int|
        0 <= i < before.len() ==> mounts_resolved(before[i], #[trigger] after[i], id)
    &&& views_distinct(names)
    &&& forall|m: int|
        0 <= m < names.len() ==> declared_volume(before, before.len() as int, id, (
        #[trigger] names[m])@)
    &&& forall|i: int| 0 <= i < before.len() ==> covers(names, (#[trigger] before[i]).named_volumes@, id)
}

/// Resolves the named volumes of every composition for the run `run_id`:
/// each bare name gets the run's id as a suffix, the same bare name always
/// the same suffixed name, and each composition its mounts. Hands back the
/// run's volume names, each once.
pub fn resolve_named_volumes(compositions: &mut Keeper<Composition>, run_id: &str) -> (r: Vec<
    String,
>)
    ensures
        final(compositions).handles == old(compositions).handles,
        volumes_resolved(old(compositions).kept@, final(compositions).kept@, r@, run_id@),
{
    let ghost cs = compositions.kept@;
    let mut names: Vec<String> = Vec::new();
    let n = compositions.kept.len();
    let mut i: usize = 0;
    while i < n
        invariant
            n == cs.len(),
            n == compositions.kept@.len(),
            cs == old(compositions).kept@,
            i <= n,
            compositions.handles == old(compositions).handles,
            forall|j: int| i <= j < n ==> #[trigger] compositions.kept@[j] == cs[j],
            forall|j: int|
                0 <= j < i ==> mounts_resolved(cs[j], #[trigger] compositions.kept@[j], run_id@),
            views_distinct(names@),
            forall|m: int|
                0 <= m < names@.len() ==> declared_volume(
                    cs,
                    i as int,
                    run_id@,
                    (#[trigger] names@[m])@,
                ),
            forall|j: int| 0 <= j < i ==> covers(names@, (#[trigger] cs[j]).named_volumes@, run_id@),
        decreases n - i,
    {
        let ghost before = names@;
        assert(compositions.kept@[i as int] == cs[i as int]);
        let mounts = resolve_volumes_of(&compositions.kept[i].named_volumes, run_id, &mut names);
        compositions.kept[i].final_named_volume_names = mounts;
        assert forall|m: int| 0 <= m < names@.len() implies declared_volume(
            cs,
            i + 1,
            run_id@,
            (#[trigger] names@[m])@,
        ) by {
            if m < before.len() {
                assert(names@[m] == names@.subrange(0, before.len() as int)[m]);
                assert(declared_volume(cs, i as int, run_id@, before[m]@));
            } else {
                assert(names_volume_of(names@[m]@, cs[i as int].named_volumes@, run_id@));
                let b = choose|b: int|
                    0 <= b < cs[i as int].named_volumes@.len() && names@[m]@ == suffixed_volume(
                        (#[trigger] cs[i as int].named_volumes@[b]).0@,
                        run_id@,
                    );
                assert(names@[m]@ == suffixed_volume(cs[i as int].named_volumes@[b].0@, run_id@));
            }
        }
        assert forall|j: int| 0 <= j < i + 1 implies covers(
            names@,
            (#[trigger] cs[j]).named_volumes@,
            run_id@,
        ) by {
            if j < i {
                lemma_covers_grow(before, names@, cs[j].named_volumes@, run_id@);
            }
        }
        i += 1;
    }
    names
}

/// A bare volume name declared twice, by one composition or by two, is
/// mounted under one and the same suffixed name, which the run's volume list
/// holds exactly once.
pub proof fn lemma_same_bare_name_same_volume(
    before: Seq<Composition>,
    after: Seq<Composition>,
    names: Seq<String>,
    id: Seq<char>,
    i1: int,
    k1: int,
    i2: int,
    k2: int,
)
    requires
        volumes_resolved(before, after, names, id),
        0 <= i1 < before.len(),
        0 <= k1 < before[i1].named_volumes@.len(),
        0 <= i2 < before.len(),
        0 <= k2 < before[i2].named_volumes@.len(),
        before[i1].named_volumes@[k1].0@ == before[i2].named_volumes@[k2].0@,
    ensures
        ({
            let bare = before[i1].named_volumes@[k1].0@;
            &&& after[i1].final_named_volume_names@[k1]@ == suffixed_volume(bare, id) + seq![':']
                + before[i1].named_volumes@[k1].1@
            &&& after[i2].final_named_volume_names@[k2]@ == suffixed_volume(bare, id) + seq![':']
                + before[i2].named_volumes@[k2].1@
            &&& exists|m: int|
                0 <= m < names.len() && (#[trigger] names[m])@ == suffixed_volume(bare, id) && forall|
                    n: int,
                | 0 <= n < names.len() && n != m ==> (#[trigger] names[n])@ != suffixed_volume(bare, id)
        }),
{
    let bare = before[i1].named_volumes@[k1].0@;
    assert(mounts_resolved(before[i1], after[i1], id));
    assert(mounts_resolved(before[i2], after[i2], id));
    assert(after[i1].final_named_volume_names@[k1]@ == volume_mount(bare, id, before[i1].named_volumes@[k1].1@));
    assert(after[i2].final_named_volume_names@[k2]@ == volume_mount(bare, id, before[i2].named_volumes@[k2].1@));
    assert(covers(names, before[i1].named_volumes@, id));
    assert(holds_name(names, suffixed_volume(before[i1].named_volumes@[k1].0@, id)));
    let m = choose|m: int| 0 <= m < names.len() && (#[trigger] names[m])@ == suffixed_volume(bare, id);
    assert(forall|n: int| 0 <= n < names.len() && n != m ==> (#[trigger] names[n])@ != names[m]@);
}

} // verus!
