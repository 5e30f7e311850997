//! The traversal driver: which entries of a directory tree one run visits.
//!
//! Two enumeration policies over a root directory.  Non-recursive: the
//! root's direct children are handed to the per-file repair in listing
//! order — a child that is itself a directory is handed over too, and hits
//! the repair's not-a-regular-file soft skip rather than being descended
//! into.  Recursive: a breadth-first walk with an explicit work queue
//! seeded with the root; directories are queued for later listing, every
//! other entry goes to the repair.
//!
//! [`plan_traversal`] computes the visit plan and carries the traversal
//! guarantees: each directory is listed at most once, each entry is handed
//! to the repair at most once, only entries under the root are visited,
//! and — recursively — every child of every listed directory is either
//! listed (directories) or handed to the repair (everything else), however
//! deep the nesting.  [`repair_files_in_directory`] executes the plan,
//! aborting on the first hard error.

use vstd::prelude::*;
use crate::errors::RepairError;
use crate::fs_model::FsModel;
use crate::fs_model::NodeKind;
use crate::repair::repair_file;

verus! {

/// The visit plan of one traversal.
pub struct TraversalPlan {
    /// The directories whose entries were listed, in breadth-first order;
    /// the first is the root.
    pub listed: Vec<usize>,
    /// The entries handed to the per-file repair, in visiting order.
    pub repairs: Vec<usize>,
}

/// Where a child entry `c` ends up in a recursive traversal: directories
/// join the listing queue, everything else goes to the repair.
pub open spec fn placed(fs: FsModel, listed: Seq<usize>, repairs: Seq<usize>, c: int) -> bool {
    if fs.nodes[c].kind is Directory {
        listed.contains(c as usize)
    } else {
        repairs.contains(c as usize)
    }
}

/// What a computed plan guarantees for the tree it was computed on.
pub open spec fn plan_ok(fs: FsModel, dir: usize, recursive: bool, p: TraversalPlan) -> bool {
    &&& p.listed@.len() >= 1
    &&& p.listed@[0] == dir
    &&& p.listed@.no_duplicates()
    &&& p.repairs@.no_duplicates()
    &&& forall|k: int|
        0 <= k < p.listed@.len() ==> (#[trigger] p.listed@[k]) < fs.nodes.len()
            && fs.nodes[p.listed@[k] as int].kind is Directory
    &&& forall|k: int|
        1 <= k < p.listed@.len() ==> exists|j: int|
            0 <= j < k && fs.nodes[#[trigger] p.listed@[k] as int].parent == Some(p.listed@[j])
    &&& forall|k: int|
        0 <= k < p.repairs@.len() ==> (#[trigger] p.repairs@[k]) < fs.nodes.len()
            && exists|j: int|
            0 <= j < p.listed@.len() && fs.nodes[p.repairs@[k] as int].parent == Some(
                p.listed@[j],
            )
    &&& recursive ==> forall|k: int|
        0 <= k < p.repairs@.len() ==> !(fs.nodes[#[trigger] p.repairs@[k] as int].kind
            is Directory)
    &&& recursive ==> forall|j: int, b: int|
        0 <= j < p.listed@.len() && 0 <= b < fs.nodes[p.listed@[j] as int].children.len()
            ==> placed(fs, p.listed@, p.repairs@, #[trigger] fs.child(p.listed@[j] as int, b))
    &&& !recursive ==> p.listed@ == seq![dir] && p.repairs@ == fs.nodes[dir as int].children@
}

/// A locked regular file whose name cannot be represented as text: the
/// one condition on which the fault-free repair of a visited entry fails.
pub open spec fn unrepairable(fs: FsModel, e: int) -> bool {
    &&& fs.nodes[e].kind is RegularFile
    &&& fs.nodes[e].locked
    &&& fs.nodes[e].name is None
}

/// What an aborted directory run leaves behind: a visit plan of the
/// traversal policy, and the position `k` of the first unrepairable entry
/// in it.  The entries before `k` were repaired — regular files among
/// them are unlocked — while the entry at `k`, everything after it, and
/// everything the plan does not visit keep their lock state.
pub open spec fn aborted_run(
    pre: FsModel,
    post: FsModel,
    dir: usize,
    recursive: bool,
    p: TraversalPlan,
    k: int,
) -> bool {
    &&& plan_ok(pre, dir, recursive, p)
    &&& 0 <= k < p.repairs@.len()
    &&& unrepairable(pre, p.repairs@[k] as int)
    &&& forall|j: int| 0 <= j < k ==> !unrepairable(pre, #[trigger] p.repairs@[j] as int)
    &&& forall|j: int|
        0 <= j < k && pre.nodes[#[trigger] p.repairs@[j] as int].kind is RegularFile
            ==> !post.nodes[p.repairs@[j] as int].locked
    &&& forall|j: int|
        k <= j < p.repairs@.len() ==> post.nodes[#[trigger] p.repairs@[j] as int].locked
            == pre.nodes[p.repairs@[j] as int].locked
    &&& forall|i: int|
        0 <= i < pre.nodes.len() && !p.repairs@.contains(i as usize) ==> post.nodes[i].locked
            == pre.nodes[i].locked
}

/// Pushing a fresh value keeps a sequence duplicate-free.
proof fn lemma_push_distinct(s: Seq<usize>, x: usize)
    requires
        s.no_duplicates(),
        !s.contains(x),
    ensures
        s.push(x).no_duplicates(),
{
    let t = s.push(x);
    assert forall|i: int, j: int|
        0 <= i < t.len() && 0 <= j < t.len() && i != j implies t[i] != t[j] by {
        if i == s.len() {
            if t[j] == x {
                assert(s[j] == x);
            }
        } else if j == s.len() {
            if t[i] == x {
                assert(s[i] == x);
            }
        }
    }
}

/// Pushing keeps every value a sequence already contains.
proof fn lemma_push_keeps_contains(s: Seq<usize>, x: usize, y: usize)
    requires
        s.contains(x),
    ensures
        s.push(y).contains(x),
{
    let i = choose|i: int| 0 <= i < s.len() && s[i] == x;
    assert(s.push(y)[i] == x);
}

/// A duplicate-free sequence of indices below `n` has at most `n`
/// elements.
proof fn lemma_bounded_distinct_len(s: Seq<usize>, n: int)
    requires
        n >= 0,
        s.no_duplicates(),
        forall|k: int| 0 <= k < s.len() ==> (#[trigger] s[k]) < n,
    ensures
        s.len() <= n,
    decreases n,
{
    if s.len() > 0 {
        assert((s[0] as int) < n);
        if exists|k: int| 0 <= k < s.len() && (#[trigger] s[k]) == n - 1 {
            let k = choose|k: int| 0 <= k < s.len() && (#[trigger] s[k]) == n - 1;
            let t = s.remove(k);
            s.remove_ensures(k);
            assert(t.no_duplicates()) by {
                assert forall|i: int, j: int|
                    0 <= i < t.len() && 0 <= j < t.len() && i != j implies t[i] != t[j] by {
                    let si: int = if i < k {
                        i
                    } else {
                        i + 1
                    };
                    let sj: int = if j < k {
                        j
                    } else {
                        j + 1
                    };
                    assert(t[i] == s[si]);
                    assert(t[j] == s[sj]);
                }
            }
            assert forall|m: int| 0 <= m < t.len() implies (#[trigger] t[m]) < n - 1 by {
                let sm: int = if m < k {
                    m
                } else {
                    m + 1
                };
                assert(t[m] == s[sm]);
                assert(s[sm] != s[k]);
            }
            lemma_bounded_distinct_len(t, n - 1);
        } else {
            assert forall|k: int| 0 <= k < s.len() implies (#[trigger] s[k]) < n - 1 by {
                assert(s[k] != n - 1);
            }
            lemma_bounded_distinct_len(s, n - 1);
        }
    }
}

/// Every directory a plan lists lies under the plan's root: its chain of
/// parents, read off the plan's listing witnesses, ends at the root.
proof fn lemma_listed_under(fs: FsModel, dir: usize, recursive: bool, p: TraversalPlan, k: int)
    requires
        fs.wf(),
        plan_ok(fs, dir, recursive, p),
        0 <= k < p.listed@.len(),
    ensures
        fs.under(dir as int, p.listed@[k] as int),
    decreases k,
{
    if k == 0 {
        assert(fs.under(dir as int, dir as int));
    } else {
        let j = choose|j: int|
            0 <= j < k && fs.nodes[p.listed@[k] as int].parent == Some(p.listed@[j]);
        lemma_listed_under(fs, dir, recursive, p, j);
        let c = p.listed@[k] as int;
        assert((p.listed@[j] as int) < c);
        assert(fs.under(dir as int, c));
    }
}

/// Every entry a plan hands to the repair lies under the plan's root.
proof fn lemma_repairs_under(fs: FsModel, dir: usize, recursive: bool, p: TraversalPlan, k: int)
    requires
        fs.wf(),
        plan_ok(fs, dir, recursive, p),
        0 <= k < p.repairs@.len(),
    ensures
        fs.under(dir as int, p.repairs@[k] as int),
{
    let j = choose|j: int|
        0 <= j < p.listed@.len() && fs.nodes[p.repairs@[k] as int].parent == Some(p.listed@[j]);
    lemma_listed_under(fs, dir, recursive, p, j);
    let c = p.repairs@[k] as int;
    assert((p.listed@[j] as int) < c);
    assert(fs.under(dir as int, c));
}

/// The recursive traversal reaches the whole subtree: every entry under
/// the plan's root — at any nesting depth — is accounted for, directories
/// in the listing and every other entry (in particular every regular
/// file) among the repairs.  Together with the plans' freedom from
/// duplicates, every regular file under the root is visited exactly once.
pub proof fn lemma_recursive_plan_covers_subtree(
    fs: FsModel,
    dir: usize,
    p: TraversalPlan,
    c: int,
)
    requires
        fs.wf(),
        plan_ok(fs, dir, true, p),
        0 <= c < fs.nodes.len(),
        fs.under(dir as int, c),
    ensures
        fs.nodes[c].kind is Directory ==> p.listed@.contains(c as usize),
        !(fs.nodes[c].kind is Directory) ==> p.repairs@.contains(c as usize),
    decreases c,
{
    if c == dir as int {
        assert(p.listed@[0] == dir);
        assert(p.listed@.contains(dir));
    } else {
        let pru = fs.nodes[c].parent->0;
        let pr = pru as int;
        assert(pr < c);
        assert(fs.under(dir as int, pr));
        lemma_recursive_plan_covers_subtree(fs, dir, p, pr);
        let a = choose|a: int| 0 <= a < fs.nodes[pr].children.len() && fs.child(pr, a) == c;
        assert(fs.nodes[pr].children.len() > 0);
        assert(fs.nodes[pr].kind is Directory);
        assert(p.listed@.contains(pru));
        let j = choose|j: int| 0 <= j < p.listed@.len() && p.listed@[j] == pru;
        assert(placed(fs, p.listed@, p.repairs@, #[trigger] fs.child(p.listed@[j] as int, a)));
        assert(fs.child(p.listed@[j] as int, a) == c);
    }
}

/// Computes the visit plan for one traversal of the tree under `dir`.
///
/// A root that does not exist or is not a directory is refused as not
/// found, and that is the only error.  A computed plan satisfies
/// [`plan_ok`]: no directory is listed twice, no entry is handed to the
/// repair twice, only entries under the root are visited, and in the
/// recursive policy every child of every listed directory is accounted
/// for.  In the non-recursive policy the plan is exact: the root alone is
/// listed and its children, in listing order, are the repairs.
#[verifier::loop_isolation(false)]
#[verifier::rlimit(100)]
pub fn plan_traversal(fs: &FsModel, dir: usize, recursive: bool) -> (r: Result<
    TraversalPlan,
    RepairError,
>)
    requires
        fs.wf(),
    ensures
        r is Err <==> !(dir < fs.nodes.len() && fs.nodes[dir as int].kind is Directory),
        r is Err ==> r == Err::<TraversalPlan, RepairError>(RepairError::NotFound),
        r matches Ok(p) ==> plan_ok(*fs, dir, recursive, p),
{
    if !(dir < fs.nodes.len()) {
        return Err(RepairError::NotFound);
    }
    if !(matches!(fs.nodes[dir].kind, NodeKind::Directory)) {
        return Err(RepairError::NotFound);
    }
    let mut listed: Vec<usize> = Vec::new();
    listed.push(dir);
    let mut repairs: Vec<usize> = Vec::new();
    let mut head: usize = 0;
    while head < listed.len()
        invariant
            head <= listed@.len(),
            1 <= listed@.len() <= fs.nodes.len(),
            listed@[0] == dir,
            listed@.no_duplicates(),
            repairs@.no_duplicates(),
            forall|k: int|
                0 <= k < listed@.len() ==> (#[trigger] listed@[k]) < fs.nodes.len()
                    && fs.nodes[listed@[k] as int].kind is Directory && listed@[k] >= dir,
            forall|k: int|
                1 <= k < listed@.len() ==> exists|j: int|
                    0 <= j < k && j < head as int && fs.nodes[#[trigger] listed@[k] as int].parent
                        == Some(listed@[j]),
            forall|k: int|
                0 <= k < repairs@.len() ==> (#[trigger] repairs@[k]) < fs.nodes.len() && (recursive
                    ==> !(fs.nodes[repairs@[k] as int].kind is Directory)) && exists|j: int|
                    0 <= j < head as int && fs.nodes[repairs@[k] as int].parent == Some(
                        listed@[j],
                    ),
            recursive ==> forall|j: int, b: int|
                0 <= j < head as int && 0 <= b < fs.nodes[listed@[j] as int].children.len()
                    ==> placed(*fs, listed@, repairs@, #[trigger] fs.child(listed@[j] as int, b)),
            !recursive ==> listed@.len() == 1,
            !recursive ==> (head == 0 ==> repairs@ == Seq::<usize>::empty()),
            !recursive ==> (head >= 1 ==> repairs@ == fs.nodes[dir as int].children@),
        decreases fs.nodes.len() - head,
    {
        let d = listed[head];
        let ghost pre_listed = listed@;
        let ghost pre_repairs = repairs@;
        let child_count = fs.nodes[d].children.len();
        let mut a: usize = 0;
        while a < child_count
            invariant
                a <= child_count,
                pre_listed.len() <= listed@.len() <= fs.nodes.len(),
                listed@.subrange(0, pre_listed.len() as int) == pre_listed,
                pre_repairs.len() <= repairs@.len(),
                repairs@.subrange(0, pre_repairs.len() as int) == pre_repairs,
                listed@.no_duplicates(),
                repairs@.no_duplicates(),
                forall|k: int|
                    0 <= k < listed@.len() ==> (#[trigger] listed@[k]) < fs.nodes.len()
                        && fs.nodes[listed@[k] as int].kind is Directory && listed@[k] >= dir,
                forall|k: int|
                    0 <= k < repairs@.len() ==> (#[trigger] repairs@[k]) < fs.nodes.len() && (
                    recursive ==> !(fs.nodes[repairs@[k] as int].kind is Directory)),
                forall|k: int|
                    pre_listed.len() <= k < listed@.len() ==> exists|x: int|
                        0 <= x < a as int && (#[trigger] listed@[k]) == fs.nodes[d as int].children@[x],
                forall|k: int|
                    pre_repairs.len() <= k < repairs@.len() ==> exists|x: int|
                        0 <= x < a as int && (#[trigger] repairs@[k])
                            == fs.nodes[d as int].children@[x],
                recursive ==> forall|j: int, b: int|
                    0 <= j < head as int && 0 <= b < fs.nodes[pre_listed[j] as int].children.len()
                        ==> placed(
                        *fs,
                        listed@,
                        repairs@,
                        #[trigger] fs.child(pre_listed[j] as int, b),
                    ),
                recursive ==> forall|b: int|
                    0 <= b < a as int ==> placed(
                        *fs,
                        listed@,
                        repairs@,
                        #[trigger] fs.child(d as int, b),
                    ),
                !recursive ==> listed@.len() == 1,
                !recursive ==> repairs@ == fs.nodes[dir as int].children@.subrange(0, a as int),
            decreases child_count - a,
        {
            let c = fs.nodes[d].children[a];
            proof {
                assert(c as int == fs.child(d as int, a as int));
                assert((d as int) < fs.child(d as int, a as int));
                assert(fs.nodes[c as int].parent == Some(d));
            }
            if recursive && matches!(fs.nodes[c].kind, NodeKind::Directory) {
                proof {
                    assert(!listed@.contains(c)) by {
                        if listed@.contains(c) {
                            let k = choose|k: int|
                                0 <= k < listed@.len() && listed@[k] == c;
                            if k == 0 {
                                assert(listed@[0] == pre_listed[0]);
                                assert(d >= dir);
                            } else if k < pre_listed.len() {
                                assert(listed@[k] == pre_listed[k]);
                                let j = choose|j: int|
                                    0 <= j < k && j < head as int && fs.nodes[pre_listed[k] as int].parent
                                        == Some(pre_listed[j]);
                                assert(pre_listed[j] == d);
                                assert(pre_listed[head as int] == d);
                                assert(listed@[j] == listed@[head as int]);
                            } else {
                                let x = choose|x: int|
                                    0 <= x < a as int && listed@[k] == fs.nodes[d as int].children@[x];
                                assert(fs.child(d as int, x) < fs.child(d as int, a as int));
                            }
                        }
                    }
                    lemma_push_distinct(listed@, c);
                }
                let ghost before = listed@;
                listed.push(c);
                proof {
                    lemma_bounded_distinct_len(listed@, fs.nodes.len() as int);
                    assert forall|cc: int|
                        placed(*fs, before, repairs@, cc) implies placed(
                        *fs,
                        listed@,
                        repairs@,
                        cc,
                    ) by {
                        if fs.nodes[cc].kind is Directory {
                            lemma_push_keeps_contains(before, cc as usize, c);
                        }
                    }
                    assert(listed@.subrange(0, pre_listed.len() as int) == before.subrange(
                        0,
                        pre_listed.len() as int,
                    ));
                    assert(listed@[listed@.len() - 1] == c);
                    assert(listed@.contains(c));
                    assert(placed(*fs, listed@, repairs@, fs.child(d as int, a as int)));
                }
            } else {
                proof {
                    assert(!repairs@.contains(c)) by {
                        if repairs@.contains(c) {
                            let k = choose|k: int|
                                0 <= k < repairs@.len() && repairs@[k] == c;
                            if k < pre_repairs.len() {
                                assert(repairs@[k] == pre_repairs[k]);
                                let j = choose|j: int|
                                    0 <= j < head as int && fs.nodes[pre_repairs[k] as int].parent
                                        == Some(pre_listed[j]);
                                assert(pre_listed[j] == d);
                                assert(pre_listed[head as int] == d);
                                assert(pre_listed.subrange(0, pre_listed.len() as int)
                                    == pre_listed);
                                assert(listed@[j] == listed@[head as int]);
                            } else {
                                let x = choose|x: int|
                                    0 <= x < a as int && repairs@[k] == fs.nodes[d as int].children@[x];
                                assert(fs.child(d as int, x) < fs.child(d as int, a as int));
                            }
                        }
                    }
                    lemma_push_distinct(repairs@, c);
                }
                let ghost before = repairs@;
                repairs.push(c);
                proof {
                    assert forall|cc: int|
                        placed(*fs, listed@, before, cc) implies placed(
                        *fs,
                        listed@,
                        repairs@,
                        cc,
                    ) by {
                        if !(fs.nodes[cc].kind is Directory) {
                            lemma_push_keeps_contains(before, cc as usize, c);
                        }
                    }
                    assert(repairs@.subrange(0, pre_repairs.len() as int) == before.subrange(
                        0,
                        pre_repairs.len() as int,
                    ));
                    if !recursive {
                        assert(repairs@ =~= fs.nodes[dir as int].children@.subrange(
                            0,
                            a as int + 1,
                        ));
                    }
                    assert(repairs@[repairs@.len() - 1] == c);
                    assert(repairs@.contains(c));
                    if recursive {
                        assert(placed(*fs, listed@, repairs@, fs.child(d as int, a as int)));
                    }
                }
            }
            a = a + 1;
        }
        proof {
            assert forall|k: int| 1 <= k < listed@.len() implies exists|j: int|
                0 <= j < k && j < head as int + 1 && fs.nodes[#[trigger] listed@[k] as int].parent
                    == Some(listed@[j]) by {
                if k < pre_listed.len() {
                    assert(listed@[k] == pre_listed[k]);
                    let j = choose|j: int|
                        0 <= j < k && j < head as int && fs.nodes[pre_listed[k] as int].parent
                            == Some(pre_listed[j]);
                    assert(listed@[j] == pre_listed[j]);
                } else {
                    let x = choose|x: int|
                        0 <= x < child_count as int && listed@[k] == fs.nodes[d as int].children@[x];
                    assert(listed@[k] as int == fs.child(d as int, x));
                    assert(fs.nodes[fs.child(d as int, x)].parent == Some(d));
                    assert(listed@[head as int] == pre_listed[head as int]);
                    assert((head as int) < k);
                }
            }
            assert forall|k: int| 0 <= k < repairs@.len() implies exists|j: int|
                0 <= j < head as int + 1 && fs.nodes[#[trigger] repairs@[k] as int].parent == Some(
                    listed@[j],
                ) by {
                if k < pre_repairs.len() {
                    assert(repairs@[k] == pre_repairs[k]);
                    let j = choose|j: int|
                        0 <= j < head as int && fs.nodes[pre_repairs[k] as int].parent == Some(
                            pre_listed[j],
                        );
                    assert(listed@[j] == pre_listed[j]);
                } else {
                    let x = choose|x: int|
                        0 <= x < child_count as int && repairs@[k] == fs.nodes[d as int].children@[x];
                    assert(repairs@[k] as int == fs.child(d as int, x));
                    assert(fs.nodes[fs.child(d as int, x)].parent == Some(d));
                    assert(listed@[head as int] == pre_listed[head as int]);
                }
            }
            if recursive {
                assert forall|j: int, b: int|
                    0 <= j < head as int + 1 && 0 <= b
                        < fs.nodes[listed@[j] as int].children.len() implies placed(
                    *fs,
                    listed@,
                    repairs@,
                    #[trigger] fs.child(listed@[j] as int, b),
                ) by {
                    assert(listed@[j] == pre_listed[j]);
                    if j < head as int {
                        assert(placed(*fs, listed@, repairs@, fs.child(pre_listed[j] as int, b)));
                    } else {
                        assert(pre_listed[j] == d);
                        assert(placed(*fs, listed@, repairs@, fs.child(d as int, b)));
                    }
                }
            }
        }
        head = head + 1;
    }
    proof {
        if !recursive {
            assert(listed@ =~= seq![dir]);
        }
    }
    Ok(TraversalPlan { listed, repairs })
}

/// Repairs every file that one traversal of the tree under `dir` visits,
/// aborting the whole run on the first hard error.
///
/// A missing or non-directory root is refused as not found, with nothing
/// changed.  Otherwise the visit plan is executed in order.  Whatever
/// happens, no entry's bytes, kind, name or position change, locks are
/// only ever cleared, entries the plan does not visit keep their lock
/// state, and no transient artifact survives the run.  The only hard
/// error a visited entry can raise is the name-encoding error of a locked
/// regular file with an unrepresentable name; an aborted run returns that
/// error for the first such entry in visiting order, with everything
/// before it repaired and everything from it on untouched
/// ([`aborted_run`]).  When no visited entry is unrepairable — no direct
/// child of the root in the non-recursive policy, nothing under the root
/// in the recursive one — the run succeeds, and every visited regular
/// file is left unlocked.
#[verifier::loop_isolation(false)]
pub fn repair_files_in_directory(fs: &mut FsModel, dir: usize, recursive: bool) -> (r: Result<
    TraversalPlan,
    RepairError,
>)
    requires
        old(fs).wf(),
        old(fs).quiescent(),
    ensures
        final(fs).wf(),
        final(fs).quiescent(),
        final(fs).nodes.len() == old(fs).nodes.len(),
        forall|i: int|
            0 <= i < old(fs).nodes.len() ==> {
                &&& (#[trigger] final(fs).nodes[i]).kind == old(fs).nodes[i].kind
                &&& final(fs).nodes[i].name == old(fs).nodes[i].name
                &&& final(fs).nodes[i].content@ == old(fs).nodes[i].content@
                &&& final(fs).nodes[i].children == old(fs).nodes[i].children
                &&& final(fs).nodes[i].parent == old(fs).nodes[i].parent
                &&& (final(fs).nodes[i].locked ==> old(fs).nodes[i].locked)
            },
        !(dir < old(fs).nodes.len() && old(fs).nodes[dir as int].kind is Directory) ==> r == Err::<
            TraversalPlan,
            RepairError,
        >(RepairError::NotFound) && *final(fs) == *old(fs),
        (dir < old(fs).nodes.len() && old(fs).nodes[dir as int].kind is Directory && r is Err)
            ==> r == Err::<TraversalPlan, RepairError>(RepairError::NameEncoding) && (exists|
        p: TraversalPlan,
        k: int,
        |
            aborted_run(*old(fs), *final(fs), dir, recursive, p, k)),
        (dir < old(fs).nodes.len() && old(fs).nodes[dir as int].kind is Directory && !recursive
            && (forall|a: int|
            0 <= a < old(fs).nodes[dir as int].children.len() ==> !unrepairable(
                *old(fs),
                #[trigger] old(fs).child(dir as int, a),
            ))) ==> r is Ok,
        (dir < old(fs).nodes.len() && old(fs).nodes[dir as int].kind is Directory && recursive
            && (forall|i: int|
            0 <= i < old(fs).nodes.len() && #[trigger] old(fs).under(dir as int, i)
                ==> !unrepairable(*old(fs), i))) ==> r is Ok,
        r matches Ok(p) ==> {
            &&& plan_ok(*old(fs), dir, recursive, p)
            &&& forall|k: int|
                0 <= k < p.repairs@.len() && old(fs).nodes[#[trigger] p.repairs@[k] as int].kind is RegularFile ==> !final(fs).nodes[p.repairs@[k] as int].locked
            &&& forall|i: int|
                0 <= i < old(fs).nodes.len() && !p.repairs@.contains(i as usize) ==> final(fs).nodes[i].locked == old(fs).nodes[i].locked
        },
{
    let plan = match plan_traversal(fs, dir, recursive) {
        Ok(p) => p,
        Err(e) => {
            return Err(e);
        },
    };
    let mut k: usize = 0;
    while k < plan.repairs.len()
        invariant
            fs.wf(),
            fs.quiescent(),
            fs.nodes.len() == old(fs).nodes.len(),
            forall|i: int|
                0 <= i < old(fs).nodes.len() ==> {
                    &&& (#[trigger] fs.nodes[i]).kind == old(fs).nodes[i].kind
                    &&& fs.nodes[i].name == old(fs).nodes[i].name
                    &&& fs.nodes[i].content@ == old(fs).nodes[i].content@
                    &&& fs.nodes[i].children == old(fs).nodes[i].children
                    &&& fs.nodes[i].parent == old(fs).nodes[i].parent
                    &&& (fs.nodes[i].locked ==> old(fs).nodes[i].locked)
                },
            forall|i: int|
                0 <= i < old(fs).nodes.len() && !plan.repairs@.contains(i as usize)
                    ==> fs.nodes[i].locked == old(fs).nodes[i].locked,
            forall|j: int|
                0 <= j < k as int && old(fs).nodes[#[trigger] plan.repairs@[j] as int].kind is RegularFile
                    ==> !fs.nodes[plan.repairs@[j] as int].locked,
            forall|j: int|
                0 <= j < k as int ==> !unrepairable(*old(fs), #[trigger] plan.repairs@[j] as int),
            forall|j: int|
                k as int <= j < plan.repairs@.len()
                    ==> fs.nodes[#[trigger] plan.repairs@[j] as int].locked == old(fs).nodes[plan.repairs@[j] as int].locked,
        decreases plan.repairs@.len() - k,
    {
        let t = plan.repairs[k];
        match repair_file(fs, t) {
            Ok(_) => {
                proof {
                    assert(!unrepairable(*old(fs), plan.repairs@[k as int] as int));
                }
            },
            Err(e) => {
                proof {
                    assert(fs.nodes[t as int].parent is Some);
                    assert(unrepairable(*old(fs), t as int));
                    assert(e == RepairError::NameEncoding);
                    assert(aborted_run(*old(fs), *fs, dir, recursive, plan, k as int));
                    assert(exists|p2: TraversalPlan, k2: int|
                        aborted_run(*old(fs), *fs, dir, recursive, p2, k2));
                    if recursive {
                        lemma_repairs_under(*old(fs), dir, recursive, plan, k as int);
                    } else {
                        assert(old(fs).child(dir as int, k as int) == t);
                    }
                }
                return Err(e);
            },
        }
        proof {
            assert(plan.repairs@.contains(plan.repairs@[k as int]));
            assert forall|j: int|
                k as int + 1 <= j < plan.repairs@.len() implies fs.nodes[#[trigger] plan.repairs@[j] as int].locked
                    == old(fs).nodes[plan.repairs@[j] as int].locked by {
                assert(plan.repairs@[j] != plan.repairs@[k as int]);
            }
        }
        k = k + 1;
    }
    Ok(plan)
}

} // verus!
