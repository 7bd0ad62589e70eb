//! Ordering and truncation of search results: every discovered path
//! is given a fuzzy-match weight against the query, the list is sorted
//! by weight, the best ten are kept, and each kept path becomes a
//! [`Runnable`] with its display name.

use vstd::prelude::*;

use crate::entry::display_name;
use crate::entry::display_name_of;
use crate::entry::Runnable;
use crate::fuzzy::weight;
use crate::fuzzy::weight_of;

verus! {

/// At most this many results are returned for one query.
pub const MAX_RESULTS: usize = 10;

/// One candidate while ranking: its weight under the query, its
/// position in the discovered list, and the path itself.
struct Scored {
    weight: u64,
    idx: usize,
    path: String,
}

/// Strict ranking order on candidates: higher weight first; among
/// equal weights, the candidate discovered later first.
spec fn above(a: Scored, b: Scored) -> bool {
    ||| a.weight > b.weight
    ||| (a.weight == b.weight && a.idx > b.idx)
}

/// Every pair of the sequence stands in ranking order.
spec fn sorted_desc(s: Seq<Scored>) -> bool {
    forall|k1: int, k2: int| 0 <= k1 < k2 < s.len() ==> above(#[trigger] s[k1], #[trigger] s[k2])
}

/// No two candidates of the sequence carry the same list position,
/// which makes the ranking order above strict and total on them.
spec fn distinct_positions(s: Seq<Scored>) -> bool {
    forall|k1: int, k2: int|
        0 <= k1 < k2 < s.len() ==> (#[trigger] s[k1]).idx != (#[trigger] s[k2]).idx
}

/// Sorts the candidates into ranking order. The result holds exactly
/// the elements of the input: since their positions are distinct, the
/// order fixes the result completely.
fn sort_scored(v: Vec<Scored>) -> (r: Vec<Scored>)
    requires
        distinct_positions(v@),
    ensures
        r@.len() == v@.len(),
        sorted_desc(r@),
        forall|e: Scored| v@.contains(e) <==> r@.contains(e),
{
    let mut rest = v;
    let mut out: Vec<Scored> = Vec::new();
    while rest.len() > 0
        invariant
            out@.len() + rest@.len() == v@.len(),
            sorted_desc(out@),
            distinct_positions(rest@),
            forall|k1: int, k2: int|
                0 <= k1 < out@.len() && 0 <= k2 < rest@.len() ==> above(
                    #[trigger] out@[k1],
                    #[trigger] rest@[k2],
                ),
            forall|e: Scored| v@.contains(e) <==> (out@.contains(e) || rest@.contains(e)),
        decreases rest@.len(),
    {
        let mut m: usize = 0;
        let mut k: usize = 1;
        while k < rest.len()
            invariant
                0 < rest@.len(),
                m < k,
                k <= rest@.len(),
                distinct_positions(rest@),
                forall|j: int|
                    0 <= j < k && j != m ==> above(rest@[m as int], #[trigger] rest@[j]),
            decreases rest@.len() - k,
        {
            let better = rest[k].weight > rest[m].weight || (rest[k].weight == rest[m].weight
                && rest[k].idx > rest[m].idx);
            if better {
                m = k;
            }
            k = k + 1;
        }
        let ghost prev = rest@;
        let ghost prev_out = out@;
        let x = rest.remove(m);
        proof {
            prev.remove_ensures(m as int);
        }
        out.push(x);
        proof {
            // Every remaining element sat at some other position of
            // `prev`, so the selected maximum ranks above it.
            assert forall|k2: int| 0 <= k2 < rest@.len() implies above(x, rest@[k2]) by {
                if k2 < m {
                    assert(rest@[k2] == prev[k2]);
                } else {
                    assert(rest@[k2] == prev[k2 + 1]);
                }
            }
            assert forall|k1: int, k2: int|
                0 <= k1 < out@.len() && 0 <= k2 < rest@.len() implies above(
                out@[k1],
                rest@[k2],
            ) by {
                if k1 < prev_out.len() {
                    assert(out@[k1] == prev_out[k1]);
                    if k2 < m {
                        assert(rest@[k2] == prev[k2]);
                    } else {
                        assert(rest@[k2] == prev[k2 + 1]);
                    }
                } else {
                    assert(out@[k1] == x);
                }
            }
            assert forall|k1: int, k2: int| 0 <= k1 < k2 < out@.len() implies above(
                out@[k1],
                out@[k2],
            ) by {
                if k2 < prev_out.len() {
                    assert(out@[k1] == prev_out[k1]);
                    assert(out@[k2] == prev_out[k2]);
                } else {
                    assert(out@[k2] == x);
                    assert(out@[k1] == prev_out[k1]);
                    assert(above(prev_out[k1], prev[m as int]));
                }
            }
            assert forall|k1: int, k2: int|
                0 <= k1 < k2 < rest@.len() implies (rest@[k1]).idx != (rest@[k2]).idx by {
                let j1: int = if k1 < m {
                    k1
                } else {
                    k1 + 1
                };
                let j2: int = if k2 < m {
                    k2
                } else {
                    k2 + 1
                };
                assert(rest@[k1] == prev[j1]);
                assert(rest@[k2] == prev[j2]);
            }
            // An element lies in `prev` exactly when it is the removed
            // maximum or lies in what remains.
            assert forall|e: Scored| v@.contains(e) implies (out@.contains(e) || rest@.contains(
                e,
            )) by {
                if prev_out.contains(e) {
                    let j = choose|j: int| 0 <= j < prev_out.len() && prev_out[j] == e;
                    assert(out@[j] == e);
                } else {
                    assert(prev.contains(e));
                    let j = choose|j: int| 0 <= j < prev.len() && prev[j] == e;
                    if j == m {
                        assert(out@[out@.len() - 1] == e);
                    } else if j < m {
                        assert(rest@[j] == e);
                    } else {
                        assert(rest@[j - 1] == e);
                    }
                }
            }
            assert forall|e: Scored| (out@.contains(e) || rest@.contains(e)) implies v@.contains(
                e,
            ) by {
                if out@.contains(e) {
                    let j = choose|j: int| 0 <= j < out@.len() && out@[j] == e;
                    if j < prev_out.len() {
                        assert(prev_out[j] == e);
                    } else {
                        assert(e == x);
                        assert(prev[m as int] == e);
                        assert(prev.contains(e));
                    }
                } else {
                    let j = choose|j: int| 0 <= j < rest@.len() && rest@[j] == e;
                    if j < m {
                        assert(prev[j] == e);
                    } else {
                        assert(prev[j + 1] == e);
                    }
                    assert(prev.contains(e));
                }
            }
        }
    }
    out
}

/// The ranking order carried over to positions of the discovered
/// list: position `i` ranks above position `j` when its path weighs
/// more under the query, or weighs the same and was discovered later.
pub open spec fn rank_key_above(pattern: Seq<char>, apps: Seq<String>, i: int, j: int) -> bool {
    ||| weight_of(apps[i]@, pattern) > weight_of(apps[j]@, pattern)
    ||| (weight_of(apps[i]@, pattern) == weight_of(apps[j]@, pattern) && i > j)
}

/// What `rank_apps` returns: `perm` lists all positions of the
/// discovered list in strict ranking order, and the results are the
/// first [`MAX_RESULTS`] of them, each turned into a [`Runnable`]
/// carrying the path and its display name.
pub open spec fn ranked_by(
    pattern: Seq<char>,
    apps: Seq<String>,
    sep: char,
    perm: Seq<int>,
    results: Seq<Runnable>,
) -> bool {
    &&& perm.len() == apps.len()
    &&& forall|k: int| 0 <= k < perm.len() ==> 0 <= #[trigger] perm[k] < apps.len()
    &&& forall|k1: int, k2: int|
        0 <= k1 < k2 < perm.len() ==> rank_key_above(pattern, apps, perm[k1], perm[k2])
    &&& results.len() == if apps.len() < MAX_RESULTS { apps.len() as int } else { MAX_RESULTS as int }
    &&& forall|k: int|
        0 <= k < results.len() ==> (#[trigger] results[k])@.exec_path == apps[perm[k]]@
            && results[k]@.name == display_name_of(apps[perm[k]]@, sep)
}

/// Ranks the discovered application paths against the typed query:
/// the paths reordered by descending fuzzy-match weight (ties going
/// to the path discovered later), cut to the best [`MAX_RESULTS`],
/// each coupled with the display name its path yields under the
/// separator `sep`.
pub fn rank_apps(search_input: &str, apps: Vec<String>, sep: char) -> (r: Vec<Runnable>)
    ensures
        r@.len() == if apps@.len() < MAX_RESULTS { apps@.len() as int } else { MAX_RESULTS as int },
        exists|perm: Seq<int>| ranked_by(search_input@, apps@, sep, perm, r@),
{
    let n = apps.len();
    let mut scored: Vec<Scored> = Vec::new();
    let mut i: usize = 0;
    while i < n
        invariant
            n == apps@.len(),
            i <= n,
            scored@.len() == i,
            forall|j: int|
                0 <= j < i ==> (#[trigger] scored@[j]).idx == j && scored@[j].path@ == apps@[j]@
                    && scored@[j].weight as int == weight_of(apps@[j]@, search_input@),
        decreases n - i,
    {
        let w = weight(apps[i].as_str(), search_input);
        let p = apps[i].clone();
        scored.push(Scored { weight: w, idx: i, path: p });
        i = i + 1;
    }
    let ghost full = scored@;
    assert(distinct_positions(full));
    let sorted = sort_scored(scored);
    proof {
        assert forall|k: int| 0 <= k < sorted@.len() implies (#[trigger] sorted@[k]).idx < n
            && sorted@[k].path@ == apps@[sorted@[k].idx as int]@ && sorted@[k].weight as int
            == weight_of(apps@[sorted@[k].idx as int]@, search_input@) by {
            assert(sorted@.contains(sorted@[k]));
            assert(full.contains(sorted@[k]));
            let j = choose|j: int| 0 <= j < full.len() && full[j] == sorted@[k];
            assert(full[j].idx == j);
        }
    }
    let m = if n < MAX_RESULTS {
        n
    } else {
        MAX_RESULTS
    };
    let mut r: Vec<Runnable> = Vec::new();
    let mut k: usize = 0;
    while k < m
        invariant
            m <= sorted@.len(),
            k <= m,
            r@.len() == k,
            forall|k2: int|
                0 <= k2 < k ==> (#[trigger] r@[k2])@.exec_path == sorted@[k2].path@
                    && r@[k2]@.name == display_name_of(sorted@[k2].path@, sep),
        decreases m - k,
    {
        let name = display_name(sorted[k].path.as_str(), sep);
        let path = sorted[k].path.clone();
        r.push(Runnable::new(name, path));
        k = k + 1;
    }
    proof {
        let perm = Seq::new(sorted@.len(), |k: int| sorted@[k].idx as int);
        assert forall|k1: int, k2: int| 0 <= k1 < k2 < perm.len() implies rank_key_above(
            search_input@,
            apps@,
            perm[k1],
            perm[k2],
        ) by {
            assert(above(sorted@[k1], sorted@[k2]));
        }
        assert(ranked_by(search_input@, apps@, sep, perm, r@));
    }
    r
}

} // verus!
