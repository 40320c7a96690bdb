//! What a mirror plan does to a directory tree, and the laws of mirroring.
//!
//! A tree is a map from relative paths to nodes. Carrying out a plan writes
//! the planned paths from the source and drops the planned removals.

use vstd::prelude::*;
use crate::mirror::{EntryKind, EntryView, PlanView, excluded, has_path, kept_paths, stale_paths, mirror_plan};

verus! {

/// What lies at a path: a directory, or a file with its bytes.
pub enum Node {
    Dir,
    File(Seq<u8>),
}

/// The kind under which a listing shows the node.
pub open spec fn node_kind(n: Node) -> EntryKind {
    match n {
        Node::Dir => EntryKind::Dir,
        Node::File(_) => EntryKind::File,
    }
}

/// `list` is a complete listing of the tree `t`.
pub open spec fn lists(list: Seq<EntryView>, t: Map<Seq<char>, Node>) -> bool {
    &&& forall|p: Seq<char>| #[trigger] t.contains_key(p) <==> has_path(list, p)
    &&& forall|i: int|
        0 <= i < list.len() ==> node_kind(t[(#[trigger] list[i]).path]) == list[i].kind
}

/// The destination after a mirror copy: the source without its excluded
/// entries, and of the old destination only the excluded entries.
pub open spec fn mirrored(
    src: Map<Seq<char>, Node>,
    dst: Map<Seq<char>, Node>,
    ex: Seq<Seq<char>>,
) -> Map<Seq<char>, Node> {
    Map::new(
        |p: Seq<char>|
            if excluded(p, ex) {
                dst.contains_key(p)
            } else {
                src.contains_key(p)
            },
        |p: Seq<char>|
            if excluded(p, ex) {
                dst[p]
            } else {
                src[p]
            },
    )
}

/// The plan creates or copies the path `p`.
pub open spec fn writes(plan: PlanView, p: Seq<char>) -> bool {
    plan.make_dirs.contains(p) || plan.copy_files.contains(p)
}

/// The net effect of a plan on the destination: what it writes comes from
/// the source, what it removes is gone, the rest stays.
pub open spec fn outcome(plan: PlanView, src: Map<Seq<char>, Node>, dst: Map<Seq<char>, Node>) -> Map<
    Seq<char>,
    Node,
> {
    Map::new(
        |p: Seq<char>| writes(plan, p) || (dst.contains_key(p) && !plan.remove.contains(p)),
        |p: Seq<char>|
            if writes(plan, p) {
                src[p]
            } else {
                dst[p]
            },
    )
}

/// The tree after the first `n` of `paths` were written from `src`, one
/// after the other.
pub open spec fn write_all(
    paths: Seq<Seq<char>>,
    src: Map<Seq<char>, Node>,
    dst: Map<Seq<char>, Node>,
    n: int,
) -> Map<Seq<char>, Node>
    decreases n,
{
    if n <= 0 {
        dst
    } else {
        write_all(paths, src, dst, n - 1).insert(paths[n - 1], src[paths[n - 1]])
    }
}

/// The tree after the first `n` of `paths` were removed, one after the
/// other.
pub open spec fn remove_all(paths: Seq<Seq<char>>, dst: Map<Seq<char>, Node>, n: int) -> Map<
    Seq<char>,
    Node,
>
    decreases n,
{
    if n <= 0 {
        dst
    } else {
        remove_all(paths, dst, n - 1).remove(paths[n - 1])
    }
}

/// The destination after the steps of the plan were carried out in their
/// order: directories made, files copied, stale entries removed.
pub open spec fn carried_out(plan: PlanView, src: Map<Seq<char>, Node>, dst: Map<Seq<char>, Node>) -> Map<
    Seq<char>,
    Node,
> {
    let made = write_all(plan.make_dirs, src, dst, plan.make_dirs.len() as int);
    let copied = write_all(plan.copy_files, src, made, plan.copy_files.len() as int);
    remove_all(plan.remove, copied, plan.remove.len() as int)
}

/// One of the first `n` paths is `p`.
pub open spec fn among(paths: Seq<Seq<char>>, n: int, p: Seq<char>) -> bool {
    exists|i: int| 0 <= i < n && i < paths.len() && #[trigger] paths[i] == p
}

/// Writing paths one after the other puts the source's node at each of
/// them and leaves the rest of the tree alone.
pub proof fn lemma_write_all(
    paths: Seq<Seq<char>>,
    src: Map<Seq<char>, Node>,
    dst: Map<Seq<char>, Node>,
    n: int,
    p: Seq<char>,
)
    requires
        0 <= n <= paths.len(),
    ensures
        write_all(paths, src, dst, n).contains_key(p) == (among(paths, n, p) || dst.contains_key(p)),
        among(paths, n, p) ==> write_all(paths, src, dst, n)[p] == src[p],
        !among(paths, n, p) ==> write_all(paths, src, dst, n)[p] == dst[p],
    decreases n,
{
    if n > 0 {
        lemma_write_all(paths, src, dst, n - 1, p);
        if paths[n - 1] == p {
            assert(among(paths, n, p));
        } else {
            if among(paths, n, p) {
                let i = choose|i: int| 0 <= i < n && i < paths.len() && #[trigger] paths[i] == p;
                assert(i < n - 1);
                assert(among(paths, n - 1, p));
            }
            if among(paths, n - 1, p) {
                let i = choose|i: int|
                    0 <= i < n - 1 && i < paths.len() && #[trigger] paths[i] == p;
                assert(among(paths, n, p));
            }
        }
    }
}

/// Removing paths one after the other drops each of them and leaves the
/// rest of the tree alone.
pub proof fn lemma_remove_all(paths: Seq<Seq<char>>, dst: Map<Seq<char>, Node>, n: int, p: Seq<char>)
    requires
        0 <= n <= paths.len(),
    ensures
        remove_all(paths, dst, n).contains_key(p) == (!among(paths, n, p) && dst.contains_key(p)),
        !among(paths, n, p) ==> remove_all(paths, dst, n)[p] == dst[p],
    decreases n,
{
    if n > 0 {
        lemma_remove_all(paths, dst, n - 1, p);
        if paths[n - 1] == p {
            assert(among(paths, n, p));
        } else {
            if among(paths, n, p) {
                let i = choose|i: int| 0 <= i < n && i < paths.len() && #[trigger] paths[i] == p;
                assert(i < n - 1);
                assert(among(paths, n - 1, p));
            }
            if among(paths, n - 1, p) {
                let i = choose|i: int|
                    0 <= i < n - 1 && i < paths.len() && #[trigger] paths[i] == p;
                assert(among(paths, n, p));
            }
        }
    }
}

/// All of `paths` taken together: being among them is being contained.
pub proof fn lemma_among_all(paths: Seq<Seq<char>>, p: Seq<char>)
    ensures
        among(paths, paths.len() as int, p) == paths.contains(p),
{
    if paths.contains(p) {
        let i = choose|i: int| 0 <= i < paths.len() && paths[i] == p;
        assert(paths[i] == p);
    }
    if among(paths, paths.len() as int, p) {
        let i = choose|i: int|
            0 <= i < paths.len() && i < paths.len() && #[trigger] paths[i] == p;
        assert(paths[i] == p);
    }
}

/// Where no path is both written and removed, carrying out the steps in
/// order has the net effect of the plan.
pub proof fn lemma_steps_in_order(plan: PlanView, src: Map<Seq<char>, Node>, dst: Map<Seq<char>, Node>)
    requires
        forall|p: Seq<char>| !(writes(plan, p) && #[trigger] plan.remove.contains(p)),
    ensures
        carried_out(plan, src, dst) == outcome(plan, src, dst),
{
    let made = write_all(plan.make_dirs, src, dst, plan.make_dirs.len() as int);
    let copied = write_all(plan.copy_files, src, made, plan.copy_files.len() as int);
    let a = carried_out(plan, src, dst);
    let b = outcome(plan, src, dst);
    assert forall|p: Seq<char>|
        (#[trigger] a.dom().contains(p)) == b.dom().contains(p) && (a.dom().contains(p) ==> a[p]
            == b[p]) by {
        lemma_write_all(plan.make_dirs, src, dst, plan.make_dirs.len() as int, p);
        lemma_write_all(plan.copy_files, src, made, plan.copy_files.len() as int, p);
        lemma_remove_all(plan.remove, copied, plan.remove.len() as int, p);
        lemma_among_all(plan.make_dirs, p);
        lemma_among_all(plan.copy_files, p);
        lemma_among_all(plan.remove, p);
        assert(!(writes(plan, p) && plan.remove.contains(p)));
    }
    assert(a.dom() =~= b.dom());
    assert(a =~= b);
}

/// Entry `i` of `list` is at `p`, of kind `kind` and not excluded.
pub open spec fn kept_at(list: Seq<EntryView>, kind: EntryKind, ex: Seq<Seq<char>>, i: int, p: Seq<char>) -> bool {
    0 <= i < list.len() && list[i].path == p && list[i].kind == kind && !excluded(p, ex)
}

/// A path is among the kept paths exactly when an entry of that kind, not
/// excluded, has it.
pub proof fn lemma_kept_paths(list: Seq<EntryView>, kind: EntryKind, ex: Seq<Seq<char>>, n: int, p: Seq<char>)
    requires
        0 <= n <= list.len(),
    ensures
        kept_paths(list, kind, ex, n).contains(p) <==> exists|i: int|
            i < n && #[trigger] kept_at(list, kind, ex, i, p),
    decreases n,
{
    if n > 0 {
        lemma_kept_paths(list, kind, ex, n - 1, p);
        let rest = kept_paths(list, kind, ex, n - 1);
        let e = list[n - 1];
        if e.kind == kind && !excluded(e.path, ex) {
            let all = rest.push(e.path);
            assert(all.last() == e.path);
            if all.contains(p) {
                let k = choose|k: int| 0 <= k < all.len() && all[k] == p;
                if k < rest.len() {
                    assert(rest[k] == p);
                    assert(rest.contains(p));
                } else {
                    assert(kept_at(list, kind, ex, n - 1, p));
                }
            }
            if exists|i: int| i < n && #[trigger] kept_at(list, kind, ex, i, p) {
                let i = choose|i: int| i < n && #[trigger] kept_at(list, kind, ex, i, p);
                if i < n - 1 {
                    assert(rest.contains(p));
                    let k = choose|k: int| 0 <= k < rest.len() && rest[k] == p;
                    assert(all[k] == p);
                } else {
                    assert(all[all.len() - 1] == p);
                }
            }
        } else {
            if exists|i: int| i < n && #[trigger] kept_at(list, kind, ex, i, p) {
                let i = choose|i: int| i < n && #[trigger] kept_at(list, kind, ex, i, p);
                assert(i < n - 1);
            }
        }
    }
}

/// Entry `i` of `dst` is at `p`, which `src` lacks and which is not excluded.
pub open spec fn stale_at(dst: Seq<EntryView>, src: Seq<EntryView>, ex: Seq<Seq<char>>, i: int, p: Seq<char>) -> bool {
    0 <= i < dst.len() && dst[i].path == p && !has_path(src, p) && !excluded(p, ex)
}

/// A path is among the stale paths exactly when the destination lists it,
/// the source lacks it and it is not excluded.
pub proof fn lemma_stale_paths(dst: Seq<EntryView>, src: Seq<EntryView>, ex: Seq<Seq<char>>, n: int, p: Seq<char>)
    requires
        0 <= n <= dst.len(),
    ensures
        stale_paths(dst, src, ex, n).contains(p) <==> exists|i: int|
            i < n && #[trigger] stale_at(dst, src, ex, i, p),
    decreases n,
{
    if n > 0 {
        lemma_stale_paths(dst, src, ex, n - 1, p);
        let rest = stale_paths(dst, src, ex, n - 1);
        let e = dst[n - 1];
        if !has_path(src, e.path) && !excluded(e.path, ex) {
            let all = rest.push(e.path);
            assert(all.last() == e.path);
            if all.contains(p) {
                let k = choose|k: int| 0 <= k < all.len() && all[k] == p;
                if k < rest.len() {
                    assert(rest[k] == p);
                    assert(rest.contains(p));
                } else {
                    assert(stale_at(dst, src, ex, n - 1, p));
                }
            }
            if exists|i: int| i < n && #[trigger] stale_at(dst, src, ex, i, p) {
                let i = choose|i: int| i < n && #[trigger] stale_at(dst, src, ex, i, p);
                if i < n - 1 {
                    assert(rest.contains(p));
                    let k = choose|k: int| 0 <= k < rest.len() && rest[k] == p;
                    assert(all[k] == p);
                } else {
                    assert(all[all.len() - 1] == p);
                }
            }
        } else {
            if exists|i: int| i < n && #[trigger] stale_at(dst, src, ex, i, p) {
                let i = choose|i: int| i < n && #[trigger] stale_at(dst, src, ex, i, p);
                assert(i < n - 1);
            }
        }
    }
}

/// The planned steps write exactly the source's paths that are not excluded.
pub proof fn lemma_plan_writes(src: Seq<EntryView>, dst: Seq<EntryView>, ex: Seq<Seq<char>>, p: Seq<char>)
    ensures
        writes(mirror_plan(src, dst, ex), p) <==> has_path(src, p) && !excluded(p, ex),
{
    let n = src.len() as int;
    lemma_kept_paths(src, EntryKind::Dir, ex, n, p);
    lemma_kept_paths(src, EntryKind::File, ex, n, p);
    if has_path(src, p) && !excluded(p, ex) {
        let i = choose|i: int| 0 <= i < src.len() && (#[trigger] src[i]).path == p;
        match src[i].kind {
            EntryKind::Dir => {
                assert(kept_at(src, EntryKind::Dir, ex, i, p));
            },
            EntryKind::File => {
                assert(kept_at(src, EntryKind::File, ex, i, p));
            },
        }
    }
    if writes(mirror_plan(src, dst, ex), p) {
        if kept_paths(src, EntryKind::Dir, ex, n).contains(p) {
            let i = choose|i: int| i < n && #[trigger] kept_at(src, EntryKind::Dir, ex, i, p);
            assert(src[i].path == p);
        } else {
            let i = choose|i: int| i < n && #[trigger] kept_at(src, EntryKind::File, ex, i, p);
            assert(src[i].path == p);
        }
    }
}

/// The planned steps remove exactly the destination's paths that the source
/// lacks and that are not excluded.
pub proof fn lemma_plan_removes(src: Seq<EntryView>, dst: Seq<EntryView>, ex: Seq<Seq<char>>, p: Seq<char>)
    ensures
        mirror_plan(src, dst, ex).remove.contains(p) <==> has_path(dst, p) && !has_path(src, p)
            && !excluded(p, ex),
{
    let n = dst.len() as int;
    lemma_stale_paths(dst, src, ex, n, p);
    if has_path(dst, p) && !has_path(src, p) && !excluded(p, ex) {
        let i = choose|i: int| 0 <= i < dst.len() && (#[trigger] dst[i]).path == p;
        assert(stale_at(dst, src, ex, i, p));
    }
    if mirror_plan(src, dst, ex).remove.contains(p) {
        let i = choose|i: int| i < n && #[trigger] stale_at(dst, src, ex, i, p);
        assert(dst[i].path == p);
    }
}

/// Carrying out the plan made from complete listings of two trees leaves the
/// destination as the mirror of the source.
pub proof fn law_plan_mirrors(
    src: Seq<EntryView>,
    dst: Seq<EntryView>,
    ex: Seq<Seq<char>>,
    s: Map<Seq<char>, Node>,
    d: Map<Seq<char>, Node>,
)
    requires
        lists(src, s),
        lists(dst, d),
    ensures
        carried_out(mirror_plan(src, dst, ex), s, d) == mirrored(s, d, ex),
        outcome(mirror_plan(src, dst, ex), s, d) == mirrored(s, d, ex),
{
    let plan = mirror_plan(src, dst, ex);
    assert forall|p: Seq<char>| !(writes(plan, p) && #[trigger] plan.remove.contains(p)) by {
        lemma_plan_writes(src, dst, ex, p);
        lemma_plan_removes(src, dst, ex, p);
    }
    lemma_steps_in_order(plan, s, d);
    let a = outcome(plan, s, d);
    let b = mirrored(s, d, ex);
    assert forall|p: Seq<char>|
        (#[trigger] a.dom().contains(p)) == b.dom().contains(p) && (a.dom().contains(p) ==> a[p]
            == b[p]) by {
        lemma_plan_writes(src, dst, ex, p);
        lemma_plan_removes(src, dst, ex, p);
        assert(s.contains_key(p) <==> has_path(src, p));
        assert(d.contains_key(p) <==> has_path(dst, p));
    }
    assert(a.dom() =~= b.dom());
    assert(a =~= b);
}

/// Mirroring the same source onto the result of a mirror changes nothing.
pub proof fn law_mirror_idempotent(s: Map<Seq<char>, Node>, d: Map<Seq<char>, Node>, ex: Seq<Seq<char>>)
    ensures
        mirrored(s, mirrored(s, d, ex), ex) == mirrored(s, d, ex),
{
    assert(mirrored(s, mirrored(s, d, ex), ex) =~= mirrored(s, d, ex));
}

/// A second mirror copy from the same source, planned on a listing of what
/// the first one left, plans no removal and leaves the destination as the
/// first did.
pub proof fn law_second_plan_changes_nothing(
    src: Seq<EntryView>,
    dst: Seq<EntryView>,
    again: Seq<EntryView>,
    ex: Seq<Seq<char>>,
    s: Map<Seq<char>, Node>,
    d: Map<Seq<char>, Node>,
)
    requires
        lists(src, s),
        lists(dst, d),
        lists(again, carried_out(mirror_plan(src, dst, ex), s, d)),
    ensures
        carried_out(mirror_plan(src, again, ex), s, carried_out(mirror_plan(src, dst, ex), s, d))
            == carried_out(mirror_plan(src, dst, ex), s, d),
        mirror_plan(src, again, ex).remove == Seq::<Seq<char>>::empty(),
{
    let first = carried_out(mirror_plan(src, dst, ex), s, d);
    law_plan_mirrors(src, dst, ex, s, d);
    law_plan_mirrors(src, again, ex, s, first);
    law_mirror_idempotent(s, d, ex);
    let rem = mirror_plan(src, again, ex).remove;
    if rem.len() > 0 {
        let p = rem[0];
        assert(rem.contains(p));
        lemma_plan_removes(src, again, ex, p);
        assert(first.contains_key(p));
        assert(s.contains_key(p) <==> has_path(src, p));
        assert(false);
    }
    assert(rem =~= Seq::<Seq<char>>::empty());
}

/// Full replacement: what the destination held and the source lacks is gone
/// after the mirror, unless it lies under an excluded top-level entry.
pub proof fn law_mirror_replaces(
    s: Map<Seq<char>, Node>,
    d: Map<Seq<char>, Node>,
    ex: Seq<Seq<char>>,
    p: Seq<char>,
)
    requires
        d.contains_key(p),
        !s.contains_key(p),
        !excluded(p, ex),
    ensures
        !mirrored(s, d, ex).contains_key(p),
{
}

/// After a mirror the destination holds every source entry that is not
/// excluded, with the source's content.
pub proof fn law_mirror_captures(
    s: Map<Seq<char>, Node>,
    d: Map<Seq<char>, Node>,
    ex: Seq<Seq<char>>,
    p: Seq<char>,
)
    requires
        s.contains_key(p),
        !excluded(p, ex),
    ensures
        mirrored(s, d, ex).contains_key(p),
        mirrored(s, d, ex)[p] == s[p],
{
}

/// Excluded entries of the destination stay as they were.
pub proof fn law_mirror_spares_excluded(
    s: Map<Seq<char>, Node>,
    d: Map<Seq<char>, Node>,
    ex: Seq<Seq<char>>,
    p: Seq<char>,
)
    requires
        excluded(p, ex),
    ensures
        mirrored(s, d, ex).contains_key(p) == d.contains_key(p),
        d.contains_key(p) ==> mirrored(s, d, ex)[p] == d[p],
{
}

} // verus!
