//! Injection of final container names into the environment of the
//! compositions that ask for them.

use vstd::prelude::*;

use crate::composition::{handle_of, Composition};
use crate::error::DockerTestError;
use crate::keeper::{resolution, Keeper, ResolveError};

verus! {

/// The final name of the container that handle `h` resolves to.
pub open spec fn injected_name(hs: Seq<String>, cs: Seq<Composition>, h: Seq<char>) -> Seq<char> {
    cs[resolution(hs, h)->Ok_0].container_name@
}

/// The environment `env` after the requests `inj`, in order: each sets its
/// variable to the final name of the container its handle resolves to.
pub open spec fn injected_env(
    env: Map<Seq<char>, Seq<char>>,
    inj: Seq<(String, String)>,
    hs: Seq<String>,
    cs: Seq<Composition>,
) -> Map<Seq<char>, Seq<char>>
    decreases inj.len(),
{
    if inj.len() == 0 {
        env
    } else {
        injected_env(env, inj.drop_last(), hs, cs).insert(
            inj.last().1@,
            injected_name(hs, cs, inj.last().0@),
        )
    }
}

/// Whether request `k` of composition `i` overwrites a variable that was
/// already set when its turn came.
pub open spec fn overwrites(hs: Seq<String>, cs: Seq<Composition>, i: int, k: int) -> bool {
    let inj = cs[i].inject_container_name_env@;
    injected_env(cs[i].env@, inj.take(k), hs, cs).dom().contains(inj[k].1@)
}

/// Whether every request before request `k` of composition `i`, in
/// declaration order, names a handle that resolves.
pub open spec fn resolve_before(hs: Seq<String>, cs: Seq<Composition>, i: int, k: int) -> bool {
    forall|a: int, b: int|
        (0 <= a < i && 0 <= b < cs[a].inject_container_name_env@.len()) || (a == i && 0 <= b < k)
            ==> resolution(hs, (#[trigger] cs[a].inject_container_name_env@[b]).0@) is Ok
}

/// Whether request `b` of composition `i` names a handle that does not
/// resolve, and `e` is the error that says so.
pub open spec fn fails_with(
    hs: Seq<String>,
    cs: Seq<Composition>,
    i: int,
    b: int,
    e: DockerTestError,
) -> bool {
    let h = cs[i].inject_container_name_env@[b].0@;
    &&& resolution(hs, h) is Err
    &&& e is Startup
    &&& e->Startup_0@ == injection_error(handle_of(cs[i]), h, resolution(hs, h)->Err_0)
}

/// The text of the error for a request of the composition with handle
/// `owner` on handle `h`.
pub open spec fn injection_error(owner: Seq<char>, h: Seq<char>, e: ResolveError) -> Seq<char> {
    match e {
        ResolveError::Collision => "composition `"@ + owner
            + "` attempted to inject_container_name_env on duplicate handle `"@ + h + "`"@,
        ResolveError::NotFound => "composition `"@ + owner
            + "` attempted to inject_container_name_env on non-existent handle `"@ + h + "`"@,
    }
}

fn injection_error_text(owner: &str, h: &str, e: ResolveError) -> (r: String)
    ensures
        r@ == injection_error(owner@, h@, e),
{
    let mut m = String::from_str("composition `");
    m.append(owner);
    match e {
        ResolveError::Collision => m.append(
            "` attempted to inject_container_name_env on duplicate handle `",
        ),
        ResolveError::NotFound => m.append(
            "` attempted to inject_container_name_env on non-existent handle `",
        ),
    }
    m.append(h);
    m.append("`");
    m
}

/// The final name for each request of each composition, or the error of the
/// first request, in declaration order, whose handle does not resolve.
fn resolve_injections(k: &Keeper<Composition>) -> (r: Result<Vec<Vec<String>>, DockerTestError>)
    requires
        k.wf(),
    ensures
        r is Ok <==> resolve_before(k.handles@, k.kept@, k.kept@.len() as int, 0),
        r matches Ok(names) ==> names@.len() == k.kept@.len() && forall|i: int|
            0 <= i < k.kept@.len() ==> {
                let inj = (#[trigger] k.kept@[i]).inject_container_name_env@;
                &&& names@[i]@.len() == inj.len()
                &&& forall|b: int|
                    0 <= b < inj.len() ==> (#[trigger] names@[i]@[b])@ == injected_name(
                        k.handles@,
                        k.kept@,
                        inj[b].0@,
                    )
            },
        r matches Err(e) ==> exists|i: int, b: int|
            0 <= i < k.kept@.len() && 0 <= b < k.kept@[i].inject_container_name_env@.len()
                && resolve_before(k.handles@, k.kept@, i, b) && #[trigger] fails_with(
                k.handles@,
                k.kept@,
                i,
                b,
                e,
            ),
{
    let ghost hs = k.handles@;
    let ghost cs = k.kept@;
    let mut names: Vec<Vec<String>> = Vec::new();
    let mut i: usize = 0;
    while i < k.kept.len()
        invariant
            hs == k.handles@,
            cs == k.kept@,
            k.wf(),
            i <= cs.len(),
            names@.len() == i,
            resolve_before(hs, cs, i as int, 0),
            forall|a: int|
                0 <= a < i ==> {
                    let inj = (#[trigger] cs[a]).inject_container_name_env@;
                    &&& names@[a]@.len() == inj.len()
                    &&& forall|b: int|
                        0 <= b < inj.len() ==> (#[trigger] names@[a]@[b])@ == injected_name(
                            hs,
                            cs,
                            inj[b].0@,
                        )
                },
        decreases cs.len() - i,
    {
        let c = &k.kept[i];
        let inj = &c.inject_container_name_env;
        let mut row: Vec<String> = Vec::new();
        let mut b: usize = 0;
        while b < inj.len()
            invariant
                hs == k.handles@,
                cs == k.kept@,
                k.wf(),
                i < cs.len(),
                *c == cs[i as int],
                inj@ == cs[i as int].inject_container_name_env@,
                b <= inj@.len(),
                row@.len() == b,
                resolve_before(hs, cs, i as int, b as int),
                forall|d: int|
                    0 <= d < b ==> (#[trigger] row@[d])@ == injected_name(hs, cs, inj@[d].0@),
            decreases inj@.len() - b,
        {
            let h = inj[b].0.as_str();
            match k.resolve(h) {
                Ok(idx) => {
                    row.push(k.kept[idx].container_name.clone());
                    assert(resolve_before(hs, cs, i as int, b + 1)) by {
                        assert(resolution(hs, cs[i as int].inject_container_name_env@[b as int].0@)
                            is Ok);
                    }
                },
                Err(e) => {
                    let owner = c.handle();
                    let text = injection_error_text(owner.as_str(), h, e);
                    let err = DockerTestError::Startup(text);
                    assert(fails_with(hs, cs, i as int, b as int, err));
                    return Err(err);
                },
            }
            b += 1;
        }
        names.push(row);
        assert(resolve_before(hs, cs, i + 1, 0)) by {
            assert forall|a: int, d: int|
                (0 <= a < i + 1 && 0 <= d < cs[a].inject_container_name_env@.len()) || (a == i + 1
                    && 0 <= d < 0) implies resolution(
                hs,
                (#[trigger] cs[a].inject_container_name_env@[d]).0@,
            ) is Ok by {
                assert((0 <= a < i && 0 <= d < cs[a].inject_container_name_env@.len()) || (a == i
                    && 0 <= d < inj@.len()));
            }
        }
        i += 1;
    }
    Ok(names)
}

/// Composition `d` is `c` of the compositions `cs` with the handles `hs`,
/// after its requests were applied to its environment.
pub open spec fn injected(hs: Seq<String>, cs: Seq<Composition>, c: Composition, d: Composition) -> bool {
    &&& d == (Composition { env: d.env, ..c })
    &&& d.env@ == injected_env(c.env@, c.inject_container_name_env@, hs, cs)
}

/// Applies the resolved names, request by request; hands back the
/// (composition, request) pairs that overwrote a variable already set.
fn apply_injections(k: &mut Keeper<Composition>, names: &Vec<Vec<String>>) -> (r: Vec<(usize, usize)>)
    requires
        old(k).wf(),
        names@.len() == old(k).kept@.len(),
        forall|i: int|
            0 <= i < old(k).kept@.len() ==> {
                let inj = (#[trigger] old(k).kept@[i]).inject_container_name_env@;
                &&& names@[i]@.len() == inj.len()
                &&& forall|b: int|
                    0 <= b < inj.len() ==> (#[trigger] names@[i]@[b])@ == injected_name(
                        old(k).handles@,
                        old(k).kept@,
                        inj[b].0@,
                    )
            },
    ensures
        final(k).handles == old(k).handles,
        final(k).kept@.len() == old(k).kept@.len(),
        forall|i: int|
            0 <= i < old(k).kept@.len() ==> injected(
                old(k).handles@,
                old(k).kept@,
                old(k).kept@[i],
                #[trigger] final(k).kept@[i],
            ),
        forall|p: (usize, usize)|
            r@.contains(p) ==> p.0 < old(k).kept@.len() && p.1
                < old(k).kept@[p.0 as int].inject_container_name_env@.len() && overwrites(
                old(k).handles@,
                old(k).kept@,
                p.0 as int,
                p.1 as int,
            ),
        forall|i: int, b: int|
            0 <= i < old(k).kept@.len() && 0 <= b < old(k).kept@[i].inject_container_name_env@.len()
                && #[trigger] overwrites(old(k).handles@, old(k).kept@, i, b) ==> r@.contains(
                (i as usize, b as usize),
            ),
{
    let ghost hs = k.handles@;
    let ghost cs = k.kept@;
    let mut over: Vec<(usize, usize)> = Vec::new();
    let n = k.kept.len();
    let mut i: usize = 0;
    while i < n
        invariant
            hs == old(k).handles@,
            cs == old(k).kept@,
            k.handles == old(k).handles,
            n == cs.len(),
            k.kept@.len() == n,
            names@.len() == n,
            forall|a: int|
                0 <= a < n ==> {
                    let inj = (#[trigger] cs[a]).inject_container_name_env@;
                    &&& names@[a]@.len() == inj.len()
                    &&& forall|b: int|
                        0 <= b < inj.len() ==> (#[trigger] names@[a]@[b])@ == injected_name(
                            hs,
                            cs,
                            inj[b].0@,
                        )
                },
            i <= n,
            forall|a: int| i <= a < n ==> #[trigger] k.kept@[a] == cs[a],
            forall|a: int| 0 <= a < i ==> injected(hs, cs, cs[a], #[trigger] k.kept@[a]),
            forall|p: (usize, usize)|
                over@.contains(p) ==> p.0 < i && p.1 < cs[p.0 as int].inject_container_name_env@.len()
                    && overwrites(hs, cs, p.0 as int, p.1 as int),
            forall|a: int, b: int|
                0 <= a < i && 0 <= b < cs[a].inject_container_name_env@.len() && #[trigger] overwrites(
                    hs,
                    cs,
                    a,
                    b,
                ) ==> over@.contains((a as usize, b as usize)),
        decreases n - i,
    {
        let m = k.kept[i].inject_container_name_env.len();
        let ghost inj = cs[i as int].inject_container_name_env@;
        let mut b: usize = 0;
        while b < m
            invariant
                hs == old(k).handles@,
                cs == old(k).kept@,
                k.handles == old(k).handles,
                n == cs.len(),
                k.kept@.len() == n,
                i < n,
                m == inj.len(),
                inj == cs[i as int].inject_container_name_env@,
                names@.len() == n,
                names@[i as int]@.len() == m,
                forall|d: int|
                    0 <= d < m ==> (#[trigger] names@[i as int]@[d])@ == injected_name(
                        hs,
                        cs,
                        inj[d].0@,
                    ),
                forall|a: int| 0 <= a < n && a != i ==> #[trigger] k.kept@[a] == old(k).kept@[a]
                    || a < i,
                forall|a: int| i < a < n ==> #[trigger] k.kept@[a] == cs[a],
                forall|a: int| 0 <= a < i ==> injected(hs, cs, cs[a], #[trigger] k.kept@[a]),
                b <= m,
                k.kept@[i as int] == (Composition { env: k.kept@[i as int].env, ..cs[i as int] }),
                k.kept@[i as int].env@ == injected_env(cs[i as int].env@, inj.take(b as int), hs, cs),
                forall|p: (usize, usize)|
                    over@.contains(p) ==> (p.0 < i || (p.0 == i && p.1 < b)) && p.1 < cs[p.0 as int].inject_container_name_env@.len()
                        && overwrites(hs, cs, p.0 as int, p.1 as int),
                forall|a: int, d: int|
                    ((0 <= a < i && 0 <= d < cs[a].inject_container_name_env@.len()) || (a == i && 0 <= d < b)) && #[trigger] overwrites(
                        hs,
                        cs,
                        a,
                        d,
                    ) ==> over@.contains((a as usize, d as usize)),
            decreases m - b,
        {
            let var = k.kept[i].inject_container_name_env[b].1.clone();
            let prev = k.kept[i].env.insert(var.as_str(), names[i][b].as_str());
            let ghost before = over@;
            if prev.is_some() {
                over.push((i, b));
            }
            assert(inj.take(b + 1).drop_last() == inj.take(b as int));
            assert(inj.take(b + 1).last() == inj[b as int]);
            assert forall|p: (usize, usize)| over@.contains(p) implies (p.0 < i || (p.0 == i && p.1 < b + 1))
                && p.1 < cs[p.0 as int].inject_container_name_env@.len() && overwrites(
                hs,
                cs,
                p.0 as int,
                p.1 as int,
            ) by {
                if !before.contains(p) {
                    assert(p == (i, b));
                }
            }
            assert forall|a: int, d: int|
                ((0 <= a < i && 0 <= d < cs[a].inject_container_name_env@.len()) || (a == i && 0 <= d < b + 1)) && #[trigger] overwrites(
                    hs,
                    cs,
                    a,
                    d,
                ) implies over@.contains((a as usize, d as usize)) by {
                if a == i && d == b {
                    assert(over@.last() == (i, b));
                } else {
                    assert(before.contains((a as usize, d as usize)));
                    let w = choose|w: int| 0 <= w < before.len() && before[w] == (a as usize, d as usize);
                    assert(over@[w] == before[w]);
                }
            }
            b += 1;
        }
        assert(inj.take(m as int) == inj);
        i += 1;
    }
    over
}

/// Sets, in each composition, every variable it asked for to the final name
/// of the container whose handle it gave. Nothing changes when a handle does
/// not resolve: the error names the first such request, in declaration
/// order, and its composition. On success, hands back the (composition,
/// request) pairs that overwrote a variable already set.
pub fn resolve_inject_container_name_env(k: &mut Keeper<Composition>) -> (r: Result<
    Vec<(usize, usize)>,
    DockerTestError,
>)
    requires
        old(k).wf(),
    ensures
        r is Ok <==> resolve_before(old(k).handles@, old(k).kept@, old(k).kept@.len() as int, 0),
        r is Err ==> *final(k) == *old(k),
        r matches Err(e) ==> exists|i: int, b: int|
            0 <= i < old(k).kept@.len() && 0 <= b < old(k).kept@[i].inject_container_name_env@.len()
                && resolve_before(old(k).handles@, old(k).kept@, i, b) && #[trigger] fails_with(
                old(k).handles@,
                old(k).kept@,
                i,
                b,
                e,
            ),
        r is Ok ==> final(k).handles == old(k).handles && final(k).kept@.len()
            == old(k).kept@.len() && forall|i: int|
            0 <= i < old(k).kept@.len() ==> injected(
                old(k).handles@,
                old(k).kept@,
                old(k).kept@[i],
                #[trigger] final(k).kept@[i],
            ),
        r matches Ok(over) ==> forall|p: (usize, usize)|
            over@.contains(p) ==> p.0 < old(k).kept@.len() && p.1
                < old(k).kept@[p.0 as int].inject_container_name_env@.len() && overwrites(
                old(k).handles@,
                old(k).kept@,
                p.0 as int,
                p.1 as int,
            ),
        r matches Ok(over) ==> forall|i: int, b: int|
            0 <= i < old(k).kept@.len() && 0 <= b < old(k).kept@[i].inject_container_name_env@.len()
                && #[trigger] overwrites(old(k).handles@, old(k).kept@, i, b) ==> over@.contains(
                (i as usize, b as usize),
            ),
{
    match resolve_injections(k) {
        Ok(names) => Ok(apply_injections(k, &names)),
        Err(e) => Err(e),
    }
}

} // verus!
