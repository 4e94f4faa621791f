//! The run-level laws of the dispatcher: what a whole run plans, that the
//! first failure stops it, that concurrent completion order does not change
//! the final tree, and that re-running is stable.
//!
//! A run is modelled by the sequence of outcomes the retrievals would come
//! back with, and the tree it builds as a map from file path to content.

use vstd::prelude::*;

use crate::dispatch::FetchOutcome;
use crate::hashing::spec_hash_ok;
use crate::manifest::FileDescriptor;
use crate::manifest::spec_dest_file;

verus! {

/// Whether one descriptor's retrieval succeeds and its body passes
/// verification.
pub open spec fn spec_outcome_ok(d: FileDescriptor, o: FetchOutcome) -> bool {
    o matches FetchOutcome::Fetched(b) && spec_hash_ok(d.expected_hash@, b@)
}

/// The body a retrieval came back with (empty for a failed request, which
/// plans no write anyway).
pub open spec fn spec_body(o: FetchOutcome) -> Seq<u8> {
    match o {
        FetchOutcome::Fetched(b) => b@,
        FetchOutcome::NetworkFailed(_) => Seq::empty(),
    }
}

/// The write a successful step plans: the descriptor's file path and exactly
/// the retrieved bytes.
pub open spec fn spec_planned_write(
    d: FileDescriptor,
    root: Seq<char>,
    id: Seq<char>,
    body: Seq<u8>,
) -> (Seq<char>, Seq<u8>) {
    (spec_dest_file(root, id, d.relative_path@, d.name@), body)
}

/// The write a dispatcher step hands out for a verified body is exactly the
/// run model's write for that descriptor.
pub proof fn lemma_step_write_is_planned(
    w: crate::manifest::FileWrite,
    d: FileDescriptor,
    root: Seq<char>,
    id: Seq<char>,
    body: Seq<u8>,
)
    requires
        crate::manifest::spec_write_ok(w, d, root, id, body),
    ensures
        (w.file_path@, w.content@) == spec_planned_write(d, root, id, body),
{
}

/// The first index at or after `i` whose step fails, if any.
pub open spec fn spec_first_failure_from(
    files: Seq<FileDescriptor>,
    outcomes: Seq<FetchOutcome>,
    i: int,
) -> Option<int>
    decreases files.len() - i,
{
    if i < 0 || i >= files.len() {
        None
    } else if !spec_outcome_ok(files[i], outcomes[i]) {
        Some(i)
    } else {
        spec_first_failure_from(files, outcomes, i + 1)
    }
}

/// How many steps a sequential run performs: everything before the first
/// failure, or the whole manifest.
pub open spec fn spec_run_stop(files: Seq<FileDescriptor>, outcomes: Seq<FetchOutcome>) -> int {
    match spec_first_failure_from(files, outcomes, 0) {
        Some(i) => i,
        None => files.len() as int,
    }
}

/// The writes a sequential run plans, in manifest order.
pub open spec fn spec_run_writes(
    files: Seq<FileDescriptor>,
    outcomes: Seq<FetchOutcome>,
    root: Seq<char>,
    id: Seq<char>,
) -> Seq<(Seq<char>, Seq<u8>)> {
    Seq::new(
        spec_run_stop(files, outcomes) as nat,
        |i: int| spec_planned_write(files[i], root, id, spec_body(outcomes[i])),
    )
}

/// Applying a list of writes to a tree, in order: each write sets its file
/// path to its content.
pub open spec fn spec_apply(
    tree: Map<Seq<char>, Seq<u8>>,
    writes: Seq<(Seq<char>, Seq<u8>)>,
) -> Map<Seq<char>, Seq<u8>>
    decreases writes.len(),
{
    if writes.len() == 0 {
        tree
    } else {
        spec_apply(tree, writes.drop_last()).insert(writes.last().0, writes.last().1)
    }
}

/// The tree a list of writes builds on an empty destination.
pub open spec fn spec_tree(writes: Seq<(Seq<char>, Seq<u8>)>) -> Map<Seq<char>, Seq<u8>> {
    spec_apply(Map::empty(), writes)
}

/// No two writes target the same path.
pub open spec fn spec_distinct_paths(writes: Seq<(Seq<char>, Seq<u8>)>) -> bool {
    forall|k1: int, k2: int|
        0 <= k1 < writes.len() && 0 <= k2 < writes.len() && k1 != k2 ==> writes[k1].0
            != writes[k2].0
}

/// What applying writes leaves in the tree: every written path holds the
/// content of its (here unique) write, and unwritten paths are untouched.
pub proof fn lemma_apply_characterization(
    tree: Map<Seq<char>, Seq<u8>>,
    writes: Seq<(Seq<char>, Seq<u8>)>,
)
    requires
        spec_distinct_paths(writes),
    ensures
        forall|p: Seq<char>| #![trigger spec_apply(tree, writes).contains_key(p)]
            spec_apply(tree, writes).contains_key(p) <==> (tree.contains_key(p) || exists|k: int|
                0 <= k < writes.len() && (#[trigger] writes[k]).0 == p),
        forall|k: int|
            0 <= k < writes.len() ==> spec_apply(tree, writes)[(#[trigger] writes[k]).0]
                == writes[k].1,
        forall|p: Seq<char>|
            #![trigger spec_apply(tree, writes).contains_key(p)]
            #![trigger spec_apply(tree, writes)[p]]
            (forall|k: int| 0 <= k < writes.len() ==> (#[trigger] writes[k]).0 != p) ==> (
            spec_apply(tree, writes).contains_key(p) == tree.contains_key(p) && (
            tree.contains_key(p) ==> spec_apply(tree, writes)[p] == tree[p])),
    decreases writes.len(),
{
    if writes.len() > 0 {
        let n = writes.len() as int;
        let prefix = writes.drop_last();
        let last = writes.last();
        assert(forall|k: int| 0 <= k < n - 1 ==> #[trigger] prefix[k] == writes[k]);
        assert(spec_distinct_paths(prefix));
        lemma_apply_characterization(tree, prefix);
        let m = spec_apply(tree, prefix);
        let mw = spec_apply(tree, writes);
        assert(mw == m.insert(last.0, last.1));
        assert forall|p: Seq<char>| #![trigger mw.contains_key(p)]
            mw.contains_key(p) <==> (tree.contains_key(p) || exists|k: int|
                0 <= k < n && (#[trigger] writes[k]).0 == p) by {
            if mw.contains_key(p) {
                if p == last.0 {
                    assert((writes[n - 1]).0 == p);
                } else {
                    assert(m.contains_key(p));
                    if !tree.contains_key(p) {
                        let k = choose|k: int|
                            0 <= k < prefix.len() && (#[trigger] prefix[k]).0 == p;
                        assert((writes[k]).0 == p);
                    }
                }
            }
            if exists|k: int| 0 <= k < n && (#[trigger] writes[k]).0 == p {
                let k = choose|k: int| 0 <= k < n && (#[trigger] writes[k]).0 == p;
                if k == n - 1 {
                    assert(mw.contains_key(p));
                } else {
                    assert((prefix[k]).0 == p);
                    assert(m.contains_key(p));
                }
            }
            if tree.contains_key(p) {
                assert(m.contains_key(p));
            }
        }
        assert forall|k: int| 0 <= k < n implies mw[(#[trigger] writes[k]).0] == writes[k].1 by {
            if k < n - 1 {
                assert(writes[k].0 != last.0);
                assert(m[(prefix[k]).0] == prefix[k].1);
            }
        }
        assert forall|p: Seq<char>|
            (forall|k: int| 0 <= k < n ==> (#[trigger] writes[k]).0 != p) implies (
            mw.contains_key(p) == tree.contains_key(p) && (tree.contains_key(p) ==> mw[p]
                == tree[p])) by {
            assert((writes[n - 1]).0 != p);
            assert(forall|k: int| 0 <= k < n - 1 ==> (#[trigger] prefix[k]).0 != p);
        }
    }
}

/// For every manifest whose every retrieved body passes verification, a run
/// plans exactly one write per descriptor, in manifest order, at the
/// descriptor's destination, with exactly the retrieved bytes.
pub proof fn lemma_success_run(
    files: Seq<FileDescriptor>,
    outcomes: Seq<FetchOutcome>,
    root: Seq<char>,
    id: Seq<char>,
)
    requires
        outcomes.len() == files.len(),
        forall|i: int|
            0 <= i < files.len() ==> spec_outcome_ok(#[trigger] files[i], outcomes[i]),
    ensures
        spec_first_failure_from(files, outcomes, 0) is None,
        spec_run_writes(files, outcomes, root, id).len() == files.len(),
        forall|i: int|
            0 <= i < files.len() ==> #[trigger] spec_run_writes(files, outcomes, root, id)[i]
                == spec_planned_write(files[i], root, id, spec_body(outcomes[i])),
{
    lemma_no_failure_when_all_ok(files, outcomes, 0);
}

proof fn lemma_no_failure_when_all_ok(
    files: Seq<FileDescriptor>,
    outcomes: Seq<FetchOutcome>,
    i: int,
)
    requires
        outcomes.len() == files.len(),
        forall|j: int|
            0 <= j < files.len() ==> spec_outcome_ok(#[trigger] files[j], outcomes[j]),
    ensures
        spec_first_failure_from(files, outcomes, i) is None,
    decreases files.len() - i,
{
    if 0 <= i < files.len() {
        lemma_no_failure_when_all_ok(files, outcomes, i + 1);
    }
}

/// For every manifest with a failing descriptor, the run stops at the first
/// failing index: exactly the earlier descriptors' writes are planned, and no
/// write targets the failing descriptor's path when the paths are disjoint
/// (as they are across one manifest).
pub proof fn lemma_failure_stops_run(
    files: Seq<FileDescriptor>,
    outcomes: Seq<FetchOutcome>,
    root: Seq<char>,
    id: Seq<char>,
    j: int,
)
    requires
        outcomes.len() == files.len(),
        0 <= j < files.len(),
        !spec_outcome_ok(files[j], outcomes[j]),
        forall|i: int| 0 <= i < j ==> spec_outcome_ok(#[trigger] files[i], outcomes[i]),
        forall|i: int|
            0 <= i < j ==> spec_dest_file(root, id, #[trigger] files[i].relative_path@, files[i].name@)
                != spec_dest_file(root, id, files[j].relative_path@, files[j].name@),
    ensures
        spec_first_failure_from(files, outcomes, 0) == Some(j),
        spec_run_writes(files, outcomes, root, id).len() == j,
        forall|k: int|
            0 <= k < j ==> #[trigger] spec_run_writes(files, outcomes, root, id)[k]
                == spec_planned_write(files[k], root, id, spec_body(outcomes[k])),
        forall|k: int|
            0 <= k < spec_run_writes(files, outcomes, root, id).len()
                ==> #[trigger] spec_run_writes(files, outcomes, root, id)[k].0 != spec_dest_file(
                root,
                id,
                files[j].relative_path@,
                files[j].name@,
            ),
{
    lemma_first_failure_at(files, outcomes, 0, j);
}

proof fn lemma_first_failure_at(
    files: Seq<FileDescriptor>,
    outcomes: Seq<FetchOutcome>,
    i: int,
    j: int,
)
    requires
        outcomes.len() == files.len(),
        0 <= i <= j < files.len(),
        !spec_outcome_ok(files[j], outcomes[j]),
        forall|k: int| i <= k < j ==> spec_outcome_ok(#[trigger] files[k], outcomes[k]),
    ensures
        spec_first_failure_from(files, outcomes, i) == Some(j),
    decreases j - i,
{
    if i < j {
        lemma_first_failure_at(files, outcomes, i + 1, j);
    }
}

/// For every manifest whose every step succeeds and whose descriptors target
/// disjoint file paths, the final tree does not depend on the order in which
/// the per-descriptor writes land: any completion order (any permutation of
/// the descriptor indices, as concurrent workers produce one) builds the very
/// tree of the sequential run.
pub proof fn lemma_concurrency_equivalent(
    files: Seq<FileDescriptor>,
    outcomes: Seq<FetchOutcome>,
    root: Seq<char>,
    id: Seq<char>,
    order: Seq<int>,
)
    requires
        outcomes.len() == files.len(),
        forall|i: int|
            0 <= i < files.len() ==> spec_outcome_ok(#[trigger] files[i], outcomes[i]),
        forall|i1: int, i2: int|
            0 <= i1 < files.len() && 0 <= i2 < files.len() && i1 != i2 ==> spec_dest_file(
                root,
                id,
                #[trigger] files[i1].relative_path@,
                files[i1].name@,
            ) != spec_dest_file(root, id, #[trigger] files[i2].relative_path@, files[i2].name@),
        order.len() == files.len(),
        forall|k: int| 0 <= k < order.len() ==> 0 <= #[trigger] order[k] < files.len(),
        forall|k1: int, k2: int|
            0 <= k1 < order.len() && 0 <= k2 < order.len() && k1 != k2 ==> order[k1] != order[k2],
        forall|i: int| 0 <= i < files.len() ==> order.contains(i),
    ensures
        spec_tree(
            Seq::new(
                order.len(),
                |k: int|
                    spec_planned_write(
                        files[order[k]],
                        root,
                        id,
                        spec_body(outcomes[order[k]]),
                    ),
            ),
        ) == spec_tree(spec_run_writes(files, outcomes, root, id)),
{
    let sw = spec_run_writes(files, outcomes, root, id);
    let pw = Seq::new(
        order.len(),
        |k: int| spec_planned_write(files[order[k]], root, id, spec_body(outcomes[order[k]])),
    );
    lemma_success_run(files, outcomes, root, id);
    assert(spec_distinct_paths(sw));
    assert(spec_distinct_paths(pw));
    lemma_apply_characterization(Map::empty(), sw);
    lemma_apply_characterization(Map::empty(), pw);
    let ts = spec_tree(sw);
    let tp = spec_tree(pw);
    assert forall|p: Seq<char>| tp.contains_key(p) implies ts.contains_key(p) by {
        assert(exists|k: int| 0 <= k < pw.len() && (#[trigger] pw[k]).0 == p);
        let k = choose|k: int| 0 <= k < pw.len() && (#[trigger] pw[k]).0 == p;
        assert((sw[order[k]]).0 == p);
    }
    assert forall|p: Seq<char>| ts.contains_key(p) implies tp.contains_key(p) by {
        assert(exists|i: int| 0 <= i < sw.len() && (#[trigger] sw[i]).0 == p);
        let i = choose|i: int| 0 <= i < sw.len() && (#[trigger] sw[i]).0 == p;
        assert(order.contains(i));
        let k = choose|k: int| 0 <= k < order.len() && #[trigger] order[k] == i;
        assert((pw[k]).0 == p);
    }
    assert forall|p: Seq<char>| ts.contains_key(p) implies ts[p] == tp[p] by {
        assert(exists|i: int| 0 <= i < sw.len() && (#[trigger] sw[i]).0 == p);
        let i = choose|i: int| 0 <= i < sw.len() && (#[trigger] sw[i]).0 == p;
        assert(ts[sw[i].0] == sw[i].1);
        assert(order.contains(i));
        let k = choose|k: int| 0 <= k < order.len() && #[trigger] order[k] == i;
        assert((pw[k]).0 == p);
        assert(tp[pw[k].0] == pw[k].1);
    }
    assert(tp =~= ts);
}

/// Re-running a successful run against an unchanged manifest overwrites files
/// with identical content: applying the run's writes a second time leaves the
/// tree exactly as after the first application, whatever was on disk before.
/// The descriptors of one manifest target disjoint file paths, the pipeline
/// invariant every run keeps.
pub proof fn lemma_rerun_stable(
    tree0: Map<Seq<char>, Seq<u8>>,
    files: Seq<FileDescriptor>,
    outcomes: Seq<FetchOutcome>,
    root: Seq<char>,
    id: Seq<char>,
)
    requires
        outcomes.len() == files.len(),
        forall|i: int|
            0 <= i < files.len() ==> spec_outcome_ok(#[trigger] files[i], outcomes[i]),
        forall|i1: int, i2: int|
            0 <= i1 < files.len() && 0 <= i2 < files.len() && i1 != i2 ==> spec_dest_file(
                root,
                id,
                #[trigger] files[i1].relative_path@,
                files[i1].name@,
            ) != spec_dest_file(root, id, #[trigger] files[i2].relative_path@, files[i2].name@),
    ensures
        spec_apply(
            spec_apply(tree0, spec_run_writes(files, outcomes, root, id)),
            spec_run_writes(files, outcomes, root, id),
        ) == spec_apply(tree0, spec_run_writes(files, outcomes, root, id)),
{
    let ws = spec_run_writes(files, outcomes, root, id);
    lemma_success_run(files, outcomes, root, id);
    assert(spec_distinct_paths(ws));
    let once = spec_apply(tree0, ws);
    let twice = spec_apply(once, ws);
    lemma_apply_characterization(tree0, ws);
    lemma_apply_characterization(once, ws);
    assert forall|p: Seq<char>| twice.contains_key(p) implies once.contains_key(p) by {
        if !once.contains_key(p) {
            assert(!(exists|k: int| 0 <= k < ws.len() && (#[trigger] ws[k]).0 == p));
        }
    }
    assert forall|p: Seq<char>| once.contains_key(p) implies twice.contains_key(p) by {}
    assert forall|p: Seq<char>| once.contains_key(p) implies twice[p] == once[p] by {
        if exists|k: int| 0 <= k < ws.len() && (#[trigger] ws[k]).0 == p {
            let k = choose|k: int| 0 <= k < ws.len() && (#[trigger] ws[k]).0 == p;
            assert(once[ws[k].0] == ws[k].1);
            assert(twice[ws[k].0] == ws[k].1);
        } else {
            assert(forall|k: int| 0 <= k < ws.len() ==> (#[trigger] ws[k]).0 != p);
        }
    }
    assert(twice =~= once);
}

} // verus!
