//! Scan aggregation: the directory tree seen by a walk, its per-directory
//! size roll-up, the candidates for the report, and the largest files.
//!
//! Directories are identified by number in the order they were first seen;
//! directory 0 is the scan root and every other directory's parent has a
//! smaller number.

use vstd::prelude::*;
use crate::order::{desc_order, stable_desc_order};
use crate::paths::{
    lemma_keys_after_irreflexive, lemma_keys_after_total, lemma_keys_after_transitive, path_after,
    path_after_exec, path_keys,
};
use crate::text::{chars_of, string_of};
use crate::types::{FileStat, ScanProgress};

verus! {

/// Why a scan could not start.
#[derive(Debug)]
pub enum ScanError {
    /// The path does not exist or is not a directory.
    RootNotFound(String),
}

/// Directory 0 is the root; every other directory's parent was seen before it.
pub open spec fn is_tree(parents: Seq<usize>) -> bool {
    &&& parents.len() >= 1
    &&& forall|x: int| 0 < x < parents.len() ==> #[trigger] parents[x] < x
}

/// Whether directory `a` is `x` or one of its ancestors.
pub open spec fn is_ancestor(parents: Seq<usize>, a: int, x: int) -> bool
    decreases x,
{
    if x == a {
        true
    } else if 0 < x < parents.len() && parents[x] < x {
        is_ancestor(parents, a, parents[x] as int)
    } else {
        false
    }
}

/// Bytes of files directly inside directories `0..n` that lie in the subtree of `a`.
pub open spec fn subtree_bytes(parents: Seq<usize>, direct: Seq<u64>, a: int, n: int) -> int
    decreases n,
{
    if n <= 0 {
        0
    } else {
        subtree_bytes(parents, direct, a, n - 1) + if is_ancestor(parents, a, n - 1) {
            direct[n - 1] as int
        } else {
            0
        }
    }
}

/// Bytes of files directly inside directories `0..n`.
pub open spec fn sum_bytes(direct: Seq<u64>, n: int) -> int
    decreases n,
{
    if n <= 0 {
        0
    } else {
        sum_bytes(direct, n - 1) + direct[n - 1] as int
    }
}

/// An ancestor never has a larger number.
pub proof fn lemma_ancestor_le(parents: Seq<usize>, a: int, x: int)
    requires
        is_ancestor(parents, a, x),
    ensures
        a <= x,
    decreases x,
{
    if x != a {
        lemma_ancestor_le(parents, a, parents[x] as int);
    }
}

/// The parent of an ancestor is an ancestor too.
proof fn lemma_ancestor_parent(parents: Seq<usize>, c: int, i: int)
    requires
        is_tree(parents),
        0 < c < parents.len(),
        is_ancestor(parents, c, i),
    ensures
        is_ancestor(parents, parents[c] as int, i),
    decreases i,
{
    if i == c {
        assert(is_ancestor(parents, parents[c] as int, parents[c] as int));
    } else {
        lemma_ancestor_parent(parents, c, parents[i] as int);
    }
}

/// The ancestors of a directory form a chain.
proof fn lemma_ancestor_chain(parents: Seq<usize>, d: int, c: int, i: int)
    requires
        is_ancestor(parents, d, i),
        is_ancestor(parents, c, i),
    ensures
        is_ancestor(parents, d, c) || is_ancestor(parents, c, d),
    decreases i,
{
    if i != d && i != c {
        lemma_ancestor_chain(parents, d, c, parents[i] as int);
    }
}

/// The root is an ancestor of every directory.
pub proof fn lemma_root_ancestor(parents: Seq<usize>, x: int)
    requires
        is_tree(parents),
        0 <= x < parents.len(),
    ensures
        is_ancestor(parents, 0, x),
    decreases x,
{
    if x > 0 {
        lemma_root_ancestor(parents, parents[x] as int);
    }
}

proof fn lemma_subtree_le_sum(parents: Seq<usize>, direct: Seq<u64>, a: int, n: int)
    ensures
        0 <= subtree_bytes(parents, direct, a, n) <= sum_bytes(direct, n),
    decreases n,
{
    if n > 0 {
        lemma_subtree_le_sum(parents, direct, a, n - 1);
    }
}

proof fn lemma_sum_monotone(direct: Seq<u64>, k: int, n: int)
    requires
        0 <= k <= n,
    ensures
        sum_bytes(direct, k) <= sum_bytes(direct, n),
    decreases n,
{
    if k < n {
        lemma_sum_monotone(direct, k, n - 1);
    }
}

/// The root's subtree holds every byte.
pub proof fn lemma_root_subtree(parents: Seq<usize>, direct: Seq<u64>, n: int)
    requires
        is_tree(parents),
        0 <= n <= parents.len(),
    ensures
        subtree_bytes(parents, direct, 0, n) == sum_bytes(direct, n),
    decreases n,
{
    if n > 0 {
        lemma_root_subtree(parents, direct, n - 1);
        lemma_root_ancestor(parents, n - 1);
    }
}

/// For every directory, the bytes of all files in its subtree.
pub fn roll_up(parents: &Vec<usize>, direct: &Vec<u64>) -> (totals: Vec<u64>)
    requires
        is_tree(parents@),
        direct.len() == parents.len(),
        sum_bytes(direct@, direct.len() as int) <= u64::MAX,
    ensures
        totals.len() == parents.len(),
        forall|d: int|
            0 <= d < totals.len() ==> #[trigger] totals@[d] == subtree_bytes(
                parents@,
                direct@,
                d,
                parents.len() as int,
            ),
{
    let n = parents.len();
    let mut cum: Vec<u64> = Vec::new();
    for k in 0..n
        invariant
            cum.len() == k,
            forall|d: int| 0 <= d < k ==> #[trigger] cum@[d] == 0,
    {
        cum.push(0);
    }
    for i in 0..n
        invariant
            n == parents.len(),
            n == direct.len(),
            is_tree(parents@),
            sum_bytes(direct@, n as int) <= u64::MAX,
            cum.len() == n,
            forall|d: int|
                0 <= d < n ==> #[trigger] cum@[d] == subtree_bytes(parents@, direct@, d, i as int),
    {
        let amount = direct[i];
        let mut cur = i;
        proof {
            lemma_sum_monotone(direct@, i + 1, n as int);
            assert forall|d: int| 0 <= d < n && is_ancestor(parents@, d, i as int) implies d <= i by {
                lemma_ancestor_le(parents@, d, i as int);
            }
        }
        while cur > 0
            invariant
                n == parents.len(),
                n == direct.len(),
                i < n,
                amount == direct@[i as int],
                is_tree(parents@),
                sum_bytes(direct@, i + 1) <= u64::MAX,
                cum.len() == n,
                cur <= i,
                is_ancestor(parents@, cur as int, i as int),
                forall|d: int|
                    0 <= d < n ==> #[trigger] cum@[d] == subtree_bytes(parents@, direct@, d, i as int)
                        + if is_ancestor(parents@, d, i as int) && d > cur {
                        amount as int
                    } else {
                        0
                    },
            decreases cur,
        {
            proof {
                lemma_subtree_le_sum(parents@, direct@, cur as int, i as int);
            }
            let next = parents[cur];
            cum.set(cur, cum[cur] + amount);
            proof {
                lemma_ancestor_parent(parents@, cur as int, i as int);
                assert forall|d: int| 0 <= d < n implies #[trigger] cum@[d] == subtree_bytes(
                    parents@,
                    direct@,
                    d,
                    i as int,
                ) + if is_ancestor(parents@, d, i as int) && d > next {
                    amount as int
                } else {
                    0
                } by {
                    if is_ancestor(parents@, d, i as int) && d <= cur && d != cur {
                        lemma_ancestor_chain(parents@, d, cur as int, i as int);
                        if is_ancestor(parents@, cur as int, d) {
                            lemma_ancestor_le(parents@, cur as int, d);
                        } else {
                            assert(is_ancestor(parents@, d, next as int));
                            lemma_ancestor_le(parents@, d, next as int);
                        }
                    }
                }
            }
            cur = next;
        }
        proof {
            lemma_subtree_le_sum(parents@, direct@, 0, i as int);
            lemma_root_ancestor(parents@, i as int);
        }
        cum.set(0, cum[0] + amount);
        proof {
            assert forall|d: int| 0 <= d < n implies #[trigger] cum@[d] == subtree_bytes(
                parents@,
                direct@,
                d,
                i + 1,
            ) by {
                if is_ancestor(parents@, d, i as int) && d > 0 {
                    lemma_ancestor_le(parents@, d, i as int);
                }
            }
        }
    }
    cum
}

/// The largest subtree total among the children (in `1..k`) of directory `p`.
pub open spec fn largest_child(parents: Seq<usize>, totals: Seq<u64>, p: int, k: int) -> Option<u64>
    decreases k,
{
    if k <= 1 {
        None
    } else {
        let prev = largest_child(parents, totals, p, k - 1);
        if parents[k - 1] == p {
            Some(
                match prev {
                    Some(m) => if m >= totals[k - 1] {
                        m
                    } else {
                        totals[k - 1]
                    },
                    None => totals[k - 1],
                },
            )
        } else {
            prev
        }
    }
}

/// A directory that may be reported: its number, its subtree total, and
/// the largest subtree total among its children (if it has any).
#[derive(Clone, Copy, Debug)]
pub struct DirCandidate {
    pub dir: usize,
    pub bytes: u64,
    pub largest_child: Option<u64>,
}

/// A candidate as plain values.
pub open spec fn candidate_view(c: DirCandidate) -> (usize, u64, Option<u64>) {
    (c.dir, c.bytes, c.largest_child)
}

/// The non-root directories among `1..k` with a non-zero total, in order.
pub open spec fn spec_candidates(parents: Seq<usize>, totals: Seq<u64>, k: int) -> Seq<
    (usize, u64, Option<u64>),
>
    decreases k,
{
    if k <= 1 {
        Seq::empty()
    } else {
        let prev = spec_candidates(parents, totals, k - 1);
        let d = k - 1;
        if totals[d] != 0 {
            prev.push((d as usize, totals[d], largest_child(parents, totals, d, parents.len() as int)))
        } else {
            prev
        }
    }
}

/// The report candidates: every directory but the root whose total is not
/// zero, with the largest of its children's totals.
pub fn dir_candidates(parents: &Vec<usize>, totals: &Vec<u64>) -> (out: Vec<DirCandidate>)
    requires
        is_tree(parents@),
        totals.len() == parents.len(),
    ensures
        out@.map_values(|c: DirCandidate| candidate_view(c)) == spec_candidates(
            parents@,
            totals@,
            parents.len() as int,
        ),
{
    let n = parents.len();
    let mut largest: Vec<Option<u64>> = Vec::new();
    for k in 0..n
        invariant
            largest.len() == k,
            forall|p: int| 0 <= p < k ==> #[trigger] largest@[p] == None::<u64>,
    {
        largest.push(None);
    }
    for c in 1..n
        invariant
            n == parents.len(),
            n == totals.len(),
            is_tree(parents@),
            largest.len() == n,
            forall|p: int|
                0 <= p < n ==> #[trigger] largest@[p] == largest_child(
                    parents@,
                    totals@,
                    p,
                    c as int,
                ),
    {
        let p = parents[c];
        let t = totals[c];
        let updated = match largest[p] {
            Some(m) => if m >= t {
                m
            } else {
                t
            },
            None => t,
        };
        largest.set(p, Some(updated));
    }
    let mut out: Vec<DirCandidate> = Vec::new();
    for d in 1..n
        invariant
            n == parents.len(),
            n == totals.len(),
            largest.len() == n,
            forall|p: int|
                0 <= p < n ==> #[trigger] largest@[p] == largest_child(
                    parents@,
                    totals@,
                    p,
                    n as int,
                ),
            out@.map_values(|c: DirCandidate| candidate_view(c)) == spec_candidates(
                parents@,
                totals@,
                d as int,
            ),
    {
        if totals[d] != 0 {
            let ghost before = out@.map_values(|c: DirCandidate| candidate_view(c));
            out.push(DirCandidate { dir: d, bytes: totals[d], largest_child: largest[d] });
            proof {
                assert(out@.map_values(|c: DirCandidate| candidate_view(c)) =~= before.push(
                    (d, totals@[d as int], largest@[d as int]),
                ));
            }
        }
    }
    out
}

/// The candidates rearranged in the order `order` gives.
pub open spec fn reorder(c: Seq<DirCandidate>, order: Seq<usize>) -> Seq<DirCandidate> {
    Seq::new(order.len(), |j: int| c[order[j] as int])
}

/// The subtree totals of the candidates.
pub open spec fn candidate_bytes(c: Seq<DirCandidate>) -> Seq<u64> {
    c.map_values(|x: DirCandidate| x.bytes)
}

/// The `top` largest candidates, largest first (ties in their given order).
pub fn rank_dirs(candidates: &Vec<DirCandidate>, top: usize) -> (out: Vec<DirCandidate>)
    ensures
        exists|order: Seq<usize>|
            desc_order(candidate_bytes(candidates@), order) && out@ == reorder(
                candidates@,
                order,
            ).take(
                if top < candidates.len() {
                    top as int
                } else {
                    candidates.len() as int
                },
            ),
{
    let n = candidates.len();
    let mut keys: Vec<u64> = Vec::new();
    for i in 0..n
        invariant
            n == candidates.len(),
            keys@ == candidate_bytes(candidates@).take(i as int),
    {
        keys.push(candidates[i].bytes);
        proof {
            assert(candidate_bytes(candidates@).take(i + 1) =~= candidate_bytes(candidates@).take(
                i as int,
            ).push(candidates@[i as int].bytes));
        }
    }
    proof {
        assert(candidate_bytes(candidates@).take(n as int) =~= candidate_bytes(candidates@));
    }
    let order = stable_desc_order(&keys);
    let count = if top < n {
        top
    } else {
        n
    };
    let mut out: Vec<DirCandidate> = Vec::new();
    for j in 0..count
        invariant
            count <= n,
            n == candidates.len(),
            order.len() == n,
            desc_order(keys@, order@),
            out@ == reorder(candidates@, order@).take(j as int),
    {
        let c = candidates[order[j]];
        out.push(c);
        proof {
            assert(reorder(candidates@, order@).take(j + 1) =~= reorder(candidates@, order@).take(
                j as int,
            ).push(c));
        }
    }
    out
}

/// Files rank by size; equal sizes by path, the path that sorts later
/// first (as std orders the paths of one walk); and files whose paths
/// compare equal by the order they were seen, the later first.
pub open spec fn ranks_above(a: (u64, u64, Seq<char>), b: (u64, u64, Seq<char>)) -> bool {
    ||| a.0 > b.0
    ||| (a.0 == b.0 && path_after(a.2, b.2))
    ||| (a.0 == b.0 && path_keys(a.2) == path_keys(b.2) && a.1 > b.1)
}

/// A file kept for the largest-files list.
struct RankedFile {
    chars: Vec<char>,
    bytes: u64,
    seq: u64,
}

/// Whether the file with sequence number `s` is among the kept files.
pub open spec fn is_kept(kept: Seq<(u64, u64, Seq<char>)>, s: int) -> bool {
    exists|j: int| 0 <= j < kept.len() && (#[trigger] kept[j]).1 == s
}

/// `kept` (bytes, sequence number, path) holds the `top` highest-ranked of
/// the files `seen` (bytes, path; a file's sequence number is its
/// position), highest first.
pub open spec fn keeps_largest(
    kept: Seq<(u64, u64, Seq<char>)>,
    seen: Seq<(u64, Seq<char>)>,
    top: nat,
) -> bool {
    &&& kept.len() == if top < seen.len() {
        top
    } else {
        seen.len()
    }
    &&& forall|j: int|
        0 <= j < kept.len() ==> {
            &&& (#[trigger] kept[j]).1 < seen.len()
            &&& seen[kept[j].1 as int] == (kept[j].0, kept[j].2)
        }
    &&& forall|j1: int, j2: int|
        0 <= j1 < j2 < kept.len() ==> ranks_above(#[trigger] kept[j1], #[trigger] kept[j2])
    &&& kept.len() < top ==> forall|s: int| 0 <= s < seen.len() ==> #[trigger] is_kept(kept, s)
    &&& forall|s: int|
        0 <= s < seen.len() ==> {
            ||| is_kept(kept, s)
            ||| forall|j: int|
                0 <= j < kept.len() ==> ranks_above(
                    #[trigger] kept[j],
                    (seen[s].0, s as u64, seen[s].1),
                )
        }
}

/// The kept list after a new file is placed at `pos` and, when the list
/// is then too long, the lowest-ranked entry dropped.
pub open spec fn insert_ranked(
    kept: Seq<(u64, u64, Seq<char>)>,
    f: (u64, u64, Seq<char>),
    pos: int,
    top: nat,
) -> Seq<(u64, u64, Seq<char>)> {
    let k1 = kept.insert(pos, f);
    if k1.len() > top {
        k1.drop_last()
    } else {
        k1
    }
}

proof fn lemma_ranks_above_transitive(
    a: (u64, u64, Seq<char>),
    b: (u64, u64, Seq<char>),
    c: (u64, u64, Seq<char>),
)
    requires
        ranks_above(a, b),
        ranks_above(b, c),
    ensures
        ranks_above(a, c),
{
    if path_after(a.2, b.2) && path_after(b.2, c.2) {
        lemma_keys_after_transitive(path_keys(a.2), path_keys(b.2), path_keys(c.2));
    }
}

/// Two files with different sequence numbers are ranked one way or the other.
proof fn lemma_ranks_above_total(a: (u64, u64, Seq<char>), b: (u64, u64, Seq<char>))
    requires
        a.1 != b.1,
    ensures
        ranks_above(a, b) || ranks_above(b, a),
{
    lemma_keys_after_total(path_keys(a.2), path_keys(b.2));
}

/// Placing a new file after every kept file that ranks above it and before
/// the rest keeps the `top` highest-ranked.
proof fn lemma_insert_keeps_largest(
    kept: Seq<(u64, u64, Seq<char>)>,
    seen: Seq<(u64, Seq<char>)>,
    top: nat,
    bytes: u64,
    path: Seq<char>,
    pos: int,
)
    requires
        keeps_largest(kept, seen, top),
        seen.len() < u64::MAX,
        0 <= pos <= kept.len(),
        forall|j: int|
            0 <= j < pos ==> ranks_above(#[trigger] kept[j], (bytes, seen.len() as u64, path)),
        pos < kept.len() ==> ranks_above((bytes, seen.len() as u64, path), kept[pos]),
    ensures
        keeps_largest(
            insert_ranked(kept, (bytes, seen.len() as u64, path), pos, top),
            seen.push((bytes, path)),
            top,
        ),
{
    let n = seen.len();
    let f = (bytes, n as u64, path);
    let k1 = kept.insert(pos, f);
    let k2 = insert_ranked(kept, f, pos, top);
    let seen2 = seen.push((bytes, path));
    assert(k1.len() == kept.len() + 1);
    // Where each entry of k1 came from.
    assert forall|j: int| 0 <= j < k1.len() implies #[trigger] k1[j] == if j < pos {
        kept[j]
    } else if j == pos {
        f
    } else {
        kept[j - 1]
    } by {}
    // Entries of k1 are seen files.
    assert forall|j: int| 0 <= j < k1.len() implies {
        &&& (#[trigger] k1[j]).1 < seen2.len()
        &&& seen2[k1[j].1 as int] == (k1[j].0, k1[j].2)
    } by {
        if j != pos {
            let i = if j < pos { j } else { j - 1 };
            assert(kept[i].1 < seen.len());
        }
    }
    // k1 is ordered.
    assert forall|j1: int, j2: int| 0 <= j1 < j2 < k1.len() implies ranks_above(
        #[trigger] k1[j1],
        #[trigger] k1[j2],
    ) by {
        if j2 < pos {
            assert(k1[j1] == kept[j1] && k1[j2] == kept[j2]);
        } else if j2 == pos {
            assert(k1[j1] == kept[j1] && k1[j2] == f);
        } else if j1 > pos {
            assert(k1[j1] == kept[j1 - 1] && k1[j2] == kept[j2 - 1]);
        } else if j1 == pos {
            assert(k1[j1] == f && k1[j2] == kept[j2 - 1]);
            if j2 - 1 > pos {
                assert(ranks_above(kept[pos], kept[j2 - 1]));
                lemma_ranks_above_transitive(f, kept[pos], kept[j2 - 1]);
            }
        } else {
            assert(k1[j1] == kept[j1] && k1[j2] == kept[j2 - 1]);
            assert(ranks_above(kept[j1], kept[j2 - 1]));
        }
    }
    // Every seen file is in k1, or k1 is full and everything in it ranks above.
    if kept.len() < top {
        assert(k2 == k1);
        assert forall|s: int| 0 <= s < seen2.len() implies #[trigger] is_kept(k2, s) by {
            if s == n {
                assert(k2[pos].1 == s);
            } else {
                assert(is_kept(kept, s));
                let j = choose|j: int| 0 <= j < kept.len() && (#[trigger] kept[j]).1 == s;
                if j < pos {
                    assert(k2[j].1 == s);
                } else {
                    assert(k2[j + 1].1 == s);
                }
            }
        }
    } else {
        assert(kept.len() == top);
        assert(k2 == k1.drop_last());
        assert forall|s: int| 0 <= s < seen2.len() implies {
            ||| is_kept(k2, s)
            ||| forall|j: int|
                0 <= j < k2.len() ==> ranks_above(
                    #[trigger] k2[j],
                    (seen2[s].0, s as u64, seen2[s].1),
                )
        } by {
            let last = k1.len() - 1;
            if s == n {
                if pos < last {
                    assert(k2[pos].1 == s);
                } else {
                    assert forall|j: int| 0 <= j < k2.len() implies ranks_above(
                        #[trigger] k2[j],
                        (seen2[s].0, s as u64, seen2[s].1),
                    ) by {
                        assert(k2[j] == kept[j]);
                        assert((seen2[s].0, s as u64, seen2[s].1) == f);
                    }
                }
            } else if is_kept(kept, s) {
                let j = choose|j: int| 0 <= j < kept.len() && (#[trigger] kept[j]).1 == s;
                let j1 = if j < pos { j } else { j + 1 };
                assert(k1[j1].1 == s);
                if j1 < last {
                    assert(k2[j1].1 == s);
                } else {
                    assert(seen2[s] == seen[s]);
                    assert(seen[s] == (k1[last].0, k1[last].2));
                    assert((seen2[s].0, s as u64, seen2[s].1) == k1[last]);
                    assert forall|q: int| 0 <= q < k2.len() implies ranks_above(
                        #[trigger] k2[q],
                        (seen2[s].0, s as u64, seen2[s].1),
                    ) by {
                        assert(k2[q] == k1[q]);
                        assert(ranks_above(k1[q], k1[last]));
                    }
                }
            } else {
                assert(seen2[s] == seen[s]);
                let ss = (seen[s].0, s as u64, seen[s].1);
                assert forall|q: int| 0 <= q < k2.len() implies ranks_above(
                    #[trigger] k2[q],
                    (seen2[s].0, s as u64, seen2[s].1),
                ) by {
                    if q < pos {
                        assert(k2[q] == kept[q]);
                    } else if q == pos {
                        assert(pos < kept.len());
                        assert(ranks_above(kept[pos], ss));
                        lemma_ranks_above_transitive(f, kept[pos], ss);
                    } else {
                        assert(k2[q] == kept[q - 1]);
                    }
                }
            }
        }
    }
}

/// Whether kept file `f` ranks above a new file of `bytes` bytes at
/// `chars`, which was seen after every kept file.
fn ranks_above_new(f: &RankedFile, bytes: u64, chars: &Vec<char>) -> (r: bool)
    ensures
        r == (f.bytes > bytes || (f.bytes == bytes && path_after(f.chars@, chars@))),
{
    if f.bytes > bytes {
        true
    } else if f.bytes == bytes {
        path_after_exec(&f.chars, chars)
    } else {
        false
    }
}

/// Nanoseconds between walking-progress events.
pub open spec fn walk_progress_interval() -> u64 {
    150_000_000
}

/// The running state of a walk: the directory tree seen so far with the
/// bytes of the files directly in each directory, the counters, the largest
/// files, and when progress was last reported.
pub struct ScanTally {
    parents: Vec<usize>,
    direct: Vec<u64>,
    bytes_seen: u64,
    file_count: u64,
    dir_count: u64,
    skipped: u64,
    top_files: usize,
    largest: Vec<RankedFile>,
    seen: Ghost<Seq<(u64, Seq<char>)>>,
    last_emit: u64,
}

impl ScanTally {
    /// Parent numbers of the directories seen (directory 0 is the root).
    pub closed spec fn dirs(&self) -> Seq<usize> {
        self.parents@
    }

    /// Bytes of the files directly inside each directory.
    pub closed spec fn direct_bytes(&self) -> Seq<u64> {
        self.direct@
    }

    /// Sizes and paths of the files recorded, in order.
    pub closed spec fn files_seen(&self) -> Seq<(u64, Seq<char>)> {
        self.seen@
    }

    /// The files kept for the largest-files list: bytes, sequence number, path.
    pub closed spec fn kept_files(&self) -> Seq<(u64, u64, Seq<char>)> {
        self.largest@.map_values(|f: RankedFile| (f.bytes, f.seq, f.chars@))
    }

    pub closed spec fn bytes_total(&self) -> u64 {
        self.bytes_seen
    }

    pub closed spec fn files(&self) -> u64 {
        self.file_count
    }

    pub closed spec fn dir_entries(&self) -> u64 {
        self.dir_count
    }

    pub closed spec fn skipped_entries(&self) -> u64 {
        self.skipped
    }

    pub closed spec fn top(&self) -> nat {
        self.top_files as nat
    }

    pub closed spec fn last_report(&self) -> u64 {
        self.last_emit
    }

    /// A file of `bytes` bytes in directory `parent` can be counted: the
    /// directory is known and no counter would pass `u64::MAX`.
    pub open spec fn can_record_file(&self, bytes: u64, parent: usize) -> bool {
        &&& parent < self.dirs().len()
        &&& self.bytes_total() + bytes <= u64::MAX
        &&& self.files() < u64::MAX
    }

    /// `entry` can be counted without a counter passing `u64::MAX`.
    pub open spec fn can_record(&self, entry: WalkEntry) -> bool {
        match entry {
            WalkEntry::Unreadable => self.skipped_entries() < u64::MAX,
            WalkEntry::Directory => self.dir_entries() < u64::MAX,
            WalkEntry::Other => true,
            WalkEntry::File { bytes, parent, .. } => self.can_record_file(bytes, parent),
        }
    }

    /// The tally is internally consistent: a tree, a byte total that is the
    /// sum of the per-directory bytes, and the largest files kept.
    pub closed spec fn wf(self) -> bool {
        &&& is_tree(self.parents@)
        &&& self.direct@.len() == self.parents@.len()
        &&& sum_bytes(self.direct@, self.direct@.len() as int) == self.bytes_seen
        &&& self.seen@.len() == self.file_count
        &&& keeps_largest(
            self.largest@.map_values(|f: RankedFile| (f.bytes, f.seq, f.chars@)),
            self.seen@,
            self.top_files as nat,
        )
    }
}

/// Changing one entry changes the sum by the difference.
proof fn lemma_sum_update(direct: Seq<u64>, p: int, v: u64, n: int)
    requires
        0 <= p < n <= direct.len(),
    ensures
        sum_bytes(direct.update(p, v), n) == sum_bytes(direct, n) - direct[p] + v,
    decreases n,
{
    if n - 1 > p {
        lemma_sum_update(direct, p, v, n - 1);
    } else {
        lemma_sum_same(direct.update(p, v), direct, n - 1);
    }
}

/// Sums over equal prefixes are equal.
proof fn lemma_sum_same(a: Seq<u64>, b: Seq<u64>, n: int)
    requires
        0 <= n <= a.len(),
        n <= b.len(),
        forall|i: int| 0 <= i < n ==> a[i] == b[i],
    ensures
        sum_bytes(a, n) == sum_bytes(b, n),
    decreases n,
{
    if n > 0 {
        lemma_sum_same(a, b, n - 1);
    }
}

/// One entry's bytes never exceed the sum.
proof fn lemma_entry_le_sum(direct: Seq<u64>, p: int, n: int)
    requires
        0 <= p < n <= direct.len(),
    ensures
        direct[p] <= sum_bytes(direct, n),
    decreases n,
{
    if n - 1 > p {
        lemma_entry_le_sum(direct, p, n - 1);
    }
    lemma_sum_nonneg(direct, n - 1);
}

proof fn lemma_sum_nonneg(direct: Seq<u64>, n: int)
    ensures
        sum_bytes(direct, n) >= 0,
    decreases n,
{
    if n > 0 {
        lemma_sum_nonneg(direct, n - 1);
    }
}

/// What recording a file does to a tally: the file is counted with its
/// bytes added to its directory, it joins the files seen, the largest
/// files are kept, and `emit` says whether a walking progress event is due
/// at `now` (then `now` becomes the last report time).
pub open spec fn file_recorded(
    before: ScanTally,
    after: ScanTally,
    bytes: u64,
    parent: usize,
    path: Seq<char>,
    now: u64,
    emit: bool,
) -> bool {
    &&& after.files() == before.files() + 1
    &&& after.bytes_total() == before.bytes_total() + bytes
    &&& after.direct_bytes() == before.direct_bytes().update(
        parent as int,
        (before.direct_bytes()[parent as int] + bytes) as u64,
    )
    &&& after.files_seen() == before.files_seen().push((bytes, path))
    &&& keeps_largest(after.kept_files(), after.files_seen(), after.top())
    &&& after.dirs() == before.dirs()
    &&& after.dir_entries() == before.dir_entries()
    &&& after.skipped_entries() == before.skipped_entries()
    &&& after.top() == before.top()
    &&& emit == (now >= before.last_report() && now - before.last_report()
        >= walk_progress_interval())
    &&& after.last_report() == if emit {
        now
    } else {
        before.last_report()
    }
}

/// Everything but the entry counters is unchanged.
pub open spec fn same_but_counters(before: ScanTally, after: ScanTally) -> bool {
    &&& after.dirs() == before.dirs()
    &&& after.direct_bytes() == before.direct_bytes()
    &&& after.files_seen() == before.files_seen()
    &&& after.kept_files() == before.kept_files()
    &&& after.bytes_total() == before.bytes_total()
    &&& after.files() == before.files()
    &&& after.top() == before.top()
    &&& after.last_report() == before.last_report()
}

/// One entry of a walk, as the tally sees it.
pub enum WalkEntry {
    /// The walk could not read the entry or its size.
    Unreadable,
    /// A directory.
    Directory,
    /// Neither a file nor a directory (a link, which is not followed).
    Other,
    /// A file of `bytes` bytes directly inside directory `parent`.
    File { bytes: u64, parent: usize, path: String },
}

/// What recording `entry` does to a tally, and whether a walking progress
/// event is due.
pub open spec fn entry_recorded(
    before: ScanTally,
    after: ScanTally,
    entry: WalkEntry,
    now: u64,
    emit: bool,
) -> bool {
    match entry {
        WalkEntry::Unreadable => {
            &&& same_but_counters(before, after)
            &&& after.skipped_entries() == before.skipped_entries() + 1
            &&& after.dir_entries() == before.dir_entries()
            &&& !emit
        },
        WalkEntry::Directory => {
            &&& same_but_counters(before, after)
            &&& after.skipped_entries() == before.skipped_entries()
            &&& after.dir_entries() == before.dir_entries() + 1
            &&& !emit
        },
        WalkEntry::Other => {
            &&& same_but_counters(before, after)
            &&& after.skipped_entries() == before.skipped_entries()
            &&& after.dir_entries() == before.dir_entries()
            &&& !emit
        },
        WalkEntry::File { bytes, parent, path } => file_recorded(
            before,
            after,
            bytes,
            parent,
            path@,
            now,
            emit,
        ),
    }
}

/// The subtree totals of every directory.
pub open spec fn spec_totals(parents: Seq<usize>, direct: Seq<u64>) -> Seq<u64> {
    Seq::new(
        parents.len(),
        |d: int| subtree_bytes(parents, direct, d, parents.len() as int) as u64,
    )
}

impl ScanTally {
    /// A tally with only the root directory, keeping the `top_files`
    /// largest files, last reported at `now` (nanoseconds).
    pub fn new(top_files: usize, now: u64) -> (t: Self)
        ensures
            t.wf(),
            t.dirs() == seq![0usize],
            t.direct_bytes() == seq![0u64],
            t.files_seen() == Seq::<(u64, Seq<char>)>::empty(),
            t.kept_files() == Seq::<(u64, u64, Seq<char>)>::empty(),
            t.bytes_total() == 0,
            t.files() == 0,
            t.dir_entries() == 0,
            t.skipped_entries() == 0,
            t.top() == top_files,
            t.last_report() == now,
    {
        let mut parents: Vec<usize> = Vec::new();
        parents.push(0);
        let mut direct: Vec<u64> = Vec::new();
        direct.push(0);
        let t = ScanTally {
            parents,
            direct,
            bytes_seen: 0,
            file_count: 0,
            dir_count: 0,
            skipped: 0,
            top_files,
            largest: Vec::new(),
            seen: Ghost(Seq::empty()),
            last_emit: now,
        };
        proof {
            assert(t.largest@.map_values(|f: RankedFile| (f.bytes, f.seq, f.chars@)) =~= Seq::<
                (u64, u64, Seq<char>),
            >::empty());
            assert(t.parents@ =~= seq![0usize]);
            assert(t.direct@ =~= seq![0u64]);
            assert(sum_bytes(t.direct@, 0) == 0);
            assert(sum_bytes(t.direct@, 1) == 0);
        }
        t
    }

    /// Registers a directory below `parent`; returns its number.
    pub fn add_dir(&mut self, parent: usize) -> (id: usize)
        requires
            old(self).wf(),
            parent < old(self).dirs().len(),
            old(self).dirs().len() < usize::MAX,
        ensures
            final(self).wf(),
            id == old(self).dirs().len(),
            final(self).dirs() == old(self).dirs().push(parent),
            final(self).direct_bytes() == old(self).direct_bytes().push(0),
            final(self).files_seen() == old(self).files_seen(),
            final(self).kept_files() == old(self).kept_files(),
            final(self).bytes_total() == old(self).bytes_total(),
            final(self).files() == old(self).files(),
            final(self).dir_entries() == old(self).dir_entries(),
            final(self).skipped_entries() == old(self).skipped_entries(),
            final(self).top() == old(self).top(),
            final(self).last_report() == old(self).last_report(),
    {
        let id = self.parents.len();
        let ghost old_direct = self.direct@;
        proof {
            lemma_sum_same(old_direct.push(0), old_direct, old_direct.len() as int);
        }
        self.parents.push(parent);
        self.direct.push(0);
        id
    }

    /// Counts an entry the walk could not read.
    pub fn record_entry_error(&mut self)
        requires
            old(self).wf(),
            old(self).skipped_entries() < u64::MAX,
        ensures
            final(self).wf(),
            final(self).skipped_entries() == old(self).skipped_entries() + 1,
            final(self).dirs() == old(self).dirs(),
            final(self).direct_bytes() == old(self).direct_bytes(),
            final(self).files_seen() == old(self).files_seen(),
            final(self).kept_files() == old(self).kept_files(),
            final(self).bytes_total() == old(self).bytes_total(),
            final(self).files() == old(self).files(),
            final(self).dir_entries() == old(self).dir_entries(),
            final(self).top() == old(self).top(),
            final(self).last_report() == old(self).last_report(),
    {
        self.skipped = self.skipped + 1;
    }

    /// Counts a directory entry.
    pub fn record_dir(&mut self)
        requires
            old(self).wf(),
            old(self).dir_entries() < u64::MAX,
        ensures
            final(self).wf(),
            final(self).dir_entries() == old(self).dir_entries() + 1,
            final(self).dirs() == old(self).dirs(),
            final(self).direct_bytes() == old(self).direct_bytes(),
            final(self).files_seen() == old(self).files_seen(),
            final(self).kept_files() == old(self).kept_files(),
            final(self).bytes_total() == old(self).bytes_total(),
            final(self).files() == old(self).files(),
            final(self).skipped_entries() == old(self).skipped_entries(),
            final(self).top() == old(self).top(),
            final(self).last_report() == old(self).last_report(),
    {
        self.dir_count = self.dir_count + 1;
    }

    /// Counts a file of `bytes` bytes directly inside directory `parent`,
    /// considers it for the largest-files list, and says whether a walking
    /// progress event is due at `now` (nanoseconds; at least 150 ms since
    /// the last one). When it is, `now` becomes the last report time.
    pub fn record_file(&mut self, bytes: u64, parent: usize, path: String, now: u64) -> (emit: bool)
        requires
            old(self).wf(),
            old(self).can_record_file(bytes, parent),
        ensures
            final(self).wf(),
            file_recorded(*old(self), *final(self), bytes, parent, path@, now, emit),
    {
        proof {
            lemma_entry_le_sum(self.direct@, parent as int, self.direct@.len() as int);
            lemma_sum_update(
                self.direct@,
                parent as int,
                (self.direct@[parent as int] + bytes) as u64,
                self.direct@.len() as int,
            );
        }
        let seq = self.file_count;
        let updated = self.direct[parent] + bytes;
        self.direct.set(parent, updated);
        self.bytes_seen = self.bytes_seen + bytes;
        self.file_count = self.file_count + 1;
        let ghost old_seen = self.seen@;
        let ghost kept = self.largest@.map_values(|f: RankedFile| (f.bytes, f.seq, f.chars@));
        let chars = chars_of(path.as_str());
        let ghost path_view = path@;
        let ghost f = (bytes, seq, path_view);
        // Place the file after every kept file that ranks above it.
        let mut pos: usize = 0;
        while pos < self.largest.len() && ranks_above_new(&self.largest[pos], bytes, &chars)
            invariant
                pos <= self.largest.len(),
                kept == self.largest@.map_values(|f: RankedFile| (f.bytes, f.seq, f.chars@)),
                keeps_largest(kept, old_seen, self.top_files as nat),
                old_seen.len() == seq,
                chars@ == path_view,
                f == (bytes, seq, path_view),
                forall|j: int| 0 <= j < pos ==> ranks_above(#[trigger] kept[j], f),
            decreases self.largest.len() - pos,
        {
            proof {
                assert(kept[pos as int].1 < seq);
            }
            pos = pos + 1;
        }
        proof {
            if pos < kept.len() {
                assert(kept[pos as int].1 < seq);
                lemma_ranks_above_total(kept[pos as int], f);
            }
            lemma_insert_keeps_largest(kept, old_seen, self.top_files as nat, bytes, path@, pos as int);
        }
        self.largest.insert(pos, RankedFile { chars, bytes, seq });
        proof {
            assert(self.largest@.map_values(|f: RankedFile| (f.bytes, f.seq, f.chars@)) =~= kept.insert(
                pos as int,
                (bytes, seq, path_view),
            ));
        }
        if self.largest.len() > self.top_files {
            let ghost k1 = self.largest@.map_values(|f: RankedFile| (f.bytes, f.seq, f.chars@));
            self.largest.pop();
            proof {
                assert(self.largest@.map_values(|f: RankedFile| (f.bytes, f.seq, f.chars@)) =~= k1.drop_last());
            }
        }
        self.seen = Ghost(old_seen.push((bytes, path_view)));
        let emit = now >= self.last_emit && now - self.last_emit >= 150_000_000;
        if emit {
            self.last_emit = now;
        }
        emit
    }

    /// Counts one entry of a walk: an unreadable entry as skipped, a
    /// directory as a directory entry, a file with its bytes (see
    /// `record_file`); anything else is left out. Says whether a walking
    /// progress event is due.
    pub fn record_entry(&mut self, entry: WalkEntry, now: u64) -> (emit: bool)
        requires
            old(self).wf(),
            old(self).can_record(entry),
        ensures
            final(self).wf(),
            entry_recorded(*old(self), *final(self), entry, now, emit),
    {
        match entry {
            WalkEntry::Unreadable => {
                self.record_entry_error();
                false
            },
            WalkEntry::Directory => {
                self.record_dir();
                false
            },
            WalkEntry::Other => false,
            WalkEntry::File { bytes, parent, path } => self.record_file(bytes, parent, path, now),
        }
    }

    /// A progress event with the current counters.
    pub fn progress(&self, phase: &str, current_path: String) -> (p: ScanProgress)
        ensures
            p.phase@ == phase@,
            p.files == self.files(),
            p.dirs == self.dir_entries(),
            p.bytes == self.bytes_total(),
            p.current_path@ == current_path@,
    {
        ScanProgress {
            phase: String::from_str(phase),
            files: self.file_count,
            dirs: self.dir_count,
            bytes: self.bytes_seen,
            current_path,
        }
    }

    /// Files counted so far.
    pub fn file_count(&self) -> (r: u64)
        ensures
            r == self.files(),
    {
        self.file_count
    }

    /// Directory entries counted so far.
    pub fn dir_count(&self) -> (r: u64)
        ensures
            r == self.dir_entries(),
    {
        self.dir_count
    }

    /// Entries that could not be read.
    pub fn skipped(&self) -> (r: u64)
        ensures
            r == self.skipped_entries(),
    {
        self.skipped
    }

    /// Bytes of all files counted so far.
    pub fn bytes_seen(&self) -> (r: u64)
        ensures
            r == self.bytes_total(),
    {
        self.bytes_seen
    }

    /// Every directory's subtree total.
    pub fn totals(&self) -> (t: Vec<u64>)
        requires
            self.wf(),
        ensures
            t@ == spec_totals(self.dirs(), self.direct_bytes()),
            t@[0] == self.bytes_total(),
    {
        let t = roll_up(&self.parents, &self.direct);
        proof {
            assert(t@ =~= spec_totals(self.dirs(), self.direct_bytes()));
            lemma_root_subtree(self.parents@, self.direct@, self.parents@.len() as int);
        }
        t
    }

    /// The report candidates: every directory but the root with a non-zero
    /// subtree total, with its largest child's total.
    pub fn dir_candidates(&self) -> (out: Vec<DirCandidate>)
        requires
            self.wf(),
        ensures
            out@.map_values(|c: DirCandidate| candidate_view(c)) == spec_candidates(
                self.dirs(),
                spec_totals(self.dirs(), self.direct_bytes()),
                self.dirs().len() as int,
            ),
    {
        let t = self.totals();
        dir_candidates(&self.parents, &t)
    }

    /// The largest files, largest first: at most `top` of them, and none
    /// ranked below a file left out (equal sizes: by path, the path that
    /// sorts later first).
    pub fn largest_files(&self) -> (out: Vec<FileStat>)
        requires
            self.wf(),
        ensures
            out@.map_values(|f: FileStat| (f.bytes, f.path@)) == self.kept_files().map_values(
                |k: (u64, u64, Seq<char>)| (k.0, k.2),
            ),
            keeps_largest(self.kept_files(), self.files_seen(), self.top()),
    {
        let mut out: Vec<FileStat> = Vec::new();
        let ghost kept = self.kept_files();
        for j in 0..self.largest.len()
            invariant
                kept == self.kept_files(),
                kept.len() == self.largest.len(),
                out@.map_values(|f: FileStat| (f.bytes, f.path@)) == kept.take(j as int).map_values(
                    |k: (u64, u64, Seq<char>)| (k.0, k.2),
                ),
        {
            let f = &self.largest[j];
            out.push(FileStat { path: string_of(&f.chars), bytes: f.bytes });
            proof {
                assert(kept[j as int] == (f.bytes, f.seq, f.chars@));
                assert(kept.take(j + 1).map_values(|k: (u64, u64, Seq<char>)| (k.0, k.2)) =~= kept.take(
                    j as int,
                ).map_values(|k: (u64, u64, Seq<char>)| (k.0, k.2)).push((f.bytes, f.chars@)));
                assert(out@.map_values(|f: FileStat| (f.bytes, f.path@)) =~= kept.take(j + 1).map_values(
                    |k: (u64, u64, Seq<char>)| (k.0, k.2),
                ));
            }
        }
        proof {
            assert(kept.take(kept.len() as int) =~= kept);
        }
        out
    }
}

proof fn lemma_subtree_superset(parents: Seq<usize>, direct: Seq<u64>, p: int, c: int, n: int)
    requires
        is_tree(parents),
        0 < c < parents.len(),
        p == parents[c],
    ensures
        subtree_bytes(parents, direct, p, n) >= subtree_bytes(parents, direct, c, n),
    decreases n,
{
    if n > 0 {
        lemma_subtree_superset(parents, direct, p, c, n - 1);
        if is_ancestor(parents, c, n - 1) {
            lemma_ancestor_parent(parents, c, n - 1);
        }
    }
}

/// A directory's total is at least the total of each of its children, and
/// the root's total is the sum of every file counted.
pub proof fn law_totals_nest(parents: Seq<usize>, direct: Seq<u64>, c: int)
    requires
        is_tree(parents),
        direct.len() == parents.len(),
        0 < c < parents.len(),
    ensures
        subtree_bytes(parents, direct, parents[c] as int, parents.len() as int) >= subtree_bytes(
            parents,
            direct,
            c,
            parents.len() as int,
        ),
        subtree_bytes(parents, direct, 0, parents.len() as int) == sum_bytes(
            direct,
            parents.len() as int,
        ),
{
    lemma_subtree_superset(parents, direct, parents[c] as int, c, parents.len() as int);
    lemma_root_subtree(parents, direct, parents.len() as int);
}


/// Whether directory `c` (not the root) is a direct child of directory `d`.
pub open spec fn is_child(parents: Seq<usize>, c: int, d: int) -> bool {
    1 <= c < parents.len() && parents[c] == d
}

/// The largest child, over the directories before `k`, is the largest of
/// the children's totals.
proof fn lemma_largest_child_is_max(parents: Seq<usize>, totals: Seq<u64>, p: int, k: int)
    requires
        0 <= k <= parents.len(),
        totals.len() == parents.len(),
    ensures
        (largest_child(parents, totals, p, k) is None) <==> (forall|c: int|
            1 <= c < k ==> !#[trigger] is_child(parents, c, p)),
        largest_child(parents, totals, p, k) matches Some(m) ==> {
            &&& forall|c: int| 1 <= c < k && #[trigger] is_child(parents, c, p) ==> m >= totals[c]
            &&& exists|c: int| 1 <= c < k && #[trigger] is_child(parents, c, p) && m == totals[c]
        },
    decreases k,
{
    if k > 1 {
        lemma_largest_child_is_max(parents, totals, p, k - 1);
        let prev = largest_child(parents, totals, p, k - 1);
        let last = k - 1;
        if parents[last] == p {
            assert(is_child(parents, last, p));
            let m = largest_child(parents, totals, p, k)->0;
            match prev {
                Some(pm) => {
                    let w = choose|c: int|
                        1 <= c < k - 1 && #[trigger] is_child(parents, c, p) && pm == totals[c];
                    if pm >= totals[last] {
                        assert(1 <= w < k && is_child(parents, w, p) && m == totals[w]);
                    } else {
                        assert(1 <= last < k && is_child(parents, last, p) && m == totals[last]);
                    }
                },
                None => {
                    assert(1 <= last < k && is_child(parents, last, p) && m == totals[last]);
                },
            }
        } else {
            assert(!is_child(parents, last, p));
            match prev {
                Some(pm) => {
                    let w = choose|c: int|
                        1 <= c < k - 1 && #[trigger] is_child(parents, c, p) && pm == totals[c];
                    assert(1 <= w < k && is_child(parents, w, p) && pm == totals[w]);
                },
                None => {},
            }
        }
    }
}

/// The candidates among the directories before `k`: each is a directory
/// other than the root with a non-zero total, carrying its total and its
/// largest child over the whole tree.
proof fn lemma_candidates_entries(parents: Seq<usize>, totals: Seq<u64>, k: int)
    requires
        0 <= k <= parents.len(),
        parents.len() <= usize::MAX,
        totals.len() == parents.len(),
    ensures
        forall|j: int|
            0 <= j < spec_candidates(parents, totals, k).len() ==> {
                let e = #[trigger] spec_candidates(parents, totals, k)[j];
                &&& 1 <= e.0 < k
                &&& e.1 == totals[e.0 as int]
                &&& e.1 != 0
                &&& e.2 == largest_child(parents, totals, e.0 as int, parents.len() as int)
            },
        forall|j1: int, j2: int|
            0 <= j1 < j2 < spec_candidates(parents, totals, k).len() ==> (#[trigger] spec_candidates(
                parents,
                totals,
                k,
            )[j1]).0 < (#[trigger] spec_candidates(parents, totals, k)[j2]).0,
        forall|d: int|
            1 <= d < k && #[trigger] totals[d] != 0 ==> exists|j: int|
                0 <= j < spec_candidates(parents, totals, k).len() && (#[trigger] spec_candidates(
                    parents,
                    totals,
                    k,
                )[j]).0 == d,
    decreases k,
{
    if k > 1 {
        lemma_candidates_entries(parents, totals, k - 1);
        let prev = spec_candidates(parents, totals, k - 1);
        let cur = spec_candidates(parents, totals, k);
        assert forall|j: int| 0 <= j < cur.len() implies {
            let e = #[trigger] cur[j];
            &&& 1 <= e.0 < k
            &&& e.1 == totals[e.0 as int]
            &&& e.1 != 0
            &&& e.2 == largest_child(parents, totals, e.0 as int, parents.len() as int)
        } by {
            if j < prev.len() {
                assert(cur[j] == prev[j]);
                let e = prev[j];
                assert(1 <= e.0 < k - 1);
            }
        }
        assert forall|d: int| 1 <= d < k && #[trigger] totals[d] != 0 implies exists|j: int|
            0 <= j < cur.len() && (#[trigger] cur[j]).0 == d by {
            if d < k - 1 {
                let j = choose|j: int| 0 <= j < prev.len() && (#[trigger] prev[j]).0 == d;
                assert(cur[j] == prev[j]);
            } else {
                assert(cur[prev.len() as int].0 == d);
            }
        }
    }
}

/// Each reported directory carries, as its largest child, the largest
/// subtree total among its direct children: none exactly when it has no
/// child; otherwise a total at least that of every child and equal to the
/// total of one of them. This is what the dominance filter compares.
pub proof fn law_candidate_largest_child(parents: Seq<usize>, totals: Seq<u64>, j: int)
    requires
        totals.len() == parents.len(),
        parents.len() <= usize::MAX,
        0 <= j < spec_candidates(parents, totals, parents.len() as int).len(),
    ensures
        ({
            let e = spec_candidates(parents, totals, parents.len() as int)[j];
            let d = e.0 as int;
            &&& 1 <= d < parents.len()
            &&& e.1 == totals[d]
            &&& e.1 != 0
            &&& (e.2 is None <==> forall|c: int| !#[trigger] is_child(parents, c, d))
            &&& e.2 matches Some(m) ==> {
                &&& forall|c: int| #[trigger] is_child(parents, c, d) ==> m >= totals[c]
                &&& exists|c: int| #[trigger] is_child(parents, c, d) && m == totals[c]
            }
        }),
{
    let n = parents.len() as int;
    lemma_candidates_entries(parents, totals, n);
    let e = spec_candidates(parents, totals, n)[j];
    let d = e.0 as int;
    lemma_largest_child_is_max(parents, totals, d, n);
    if e.2 is None {
        assert forall|c: int| !#[trigger] is_child(parents, c, d) by {
            if 1 <= c < n {
                assert(!is_child(parents, c, d));
            }
        }
    }
    if e.2 is Some {
        assert forall|c: int| !(1 <= c < n) implies !#[trigger] is_child(parents, c, d) by {}
    }
}

/// The candidates are exactly the directories other than the root whose
/// total is not zero, each once, in the order they were first seen.
pub proof fn law_candidates_are_nonempty_dirs(parents: Seq<usize>, totals: Seq<u64>)
    requires
        totals.len() == parents.len(),
        parents.len() <= usize::MAX,
    ensures
        ({
            let c = spec_candidates(parents, totals, parents.len() as int);
            &&& forall|j: int|
                0 <= j < c.len() ==> 1 <= (#[trigger] c[j]).0 < parents.len() && totals[c[j].0 as int]
                    != 0 && c[j].1 == totals[c[j].0 as int]
            &&& forall|j1: int, j2: int| 0 <= j1 < j2 < c.len() ==> (#[trigger] c[j1]).0 < (#[trigger] c[j2]).0
            &&& forall|d: int|
                1 <= d < parents.len() && #[trigger] totals[d] != 0 ==> exists|j: int|
                    0 <= j < c.len() && (#[trigger] c[j]).0 == d
        }),
{
    lemma_candidates_entries(parents, totals, parents.len() as int);
}

/// The largest files kept are, by size, the largest of the files seen:
/// there are `top` of them (or all files, if fewer), they come largest
/// first, and no file left out is larger than any file kept. Among files
/// of one size, the one whose path sorts later comes first and is kept.
pub proof fn law_largest_files_are_largest(
    kept: Seq<(u64, u64, Seq<char>)>,
    seen: Seq<(u64, Seq<char>)>,
    top: nat,
)
    requires
        keeps_largest(kept, seen, top),
    ensures
        kept.len() == if top < seen.len() {
            top
        } else {
            seen.len()
        },
        forall|j1: int, j2: int|
            0 <= j1 < j2 < kept.len() ==> (#[trigger] kept[j1]).0 >= (#[trigger] kept[j2]).0,
        forall|j1: int, j2: int|
            0 <= j1 < j2 < kept.len() && (#[trigger] kept[j1]).0 == (#[trigger] kept[j2]).0
                ==> !path_after(kept[j2].2, kept[j1].2),
        forall|s: int, j: int|
            0 <= s < seen.len() && !is_kept(kept, s) && 0 <= j < kept.len() ==> (#[trigger] kept[j]).0
                >= (#[trigger] seen[s]).0,
        forall|j: int| 0 <= j < kept.len() ==> (#[trigger] kept[j]).1 < seen.len() && seen[kept[j].1 as int]
            == (kept[j].0, kept[j].2),
{
    assert forall|j1: int, j2: int|
        0 <= j1 < j2 < kept.len() && (#[trigger] kept[j1]).0 == (#[trigger] kept[j2]).0
            implies !path_after(kept[j2].2, kept[j1].2) by {
        assert(ranks_above(kept[j1], kept[j2]));
        if path_after(kept[j2].2, kept[j1].2) {
            if path_after(kept[j1].2, kept[j2].2) {
                lemma_keys_after_transitive(path_keys(kept[j1].2), path_keys(kept[j2].2), path_keys(kept[j1].2));
                lemma_keys_after_irreflexive(path_keys(kept[j1].2));
            } else {
                lemma_keys_after_irreflexive(path_keys(kept[j1].2));
            }
        }
    }
    assert forall|s: int, j: int|
        0 <= s < seen.len() && !is_kept(kept, s) && 0 <= j < kept.len() implies (#[trigger] kept[j]).0
            >= (#[trigger] seen[s]).0 by {
        assert(ranks_above(kept[j], (seen[s].0, s as u64, seen[s].1)));
    }
}
} // verus!
