//! What a switch does to the trees it touches.

use vstd::prelude::*;
use crate::mirror::{EntryView, excluded, mirror_plan, is_top_len, top_name, lemma_top_len_unique};
use crate::marker::{markers, is_marker, lemma_markers_are_markers, lemma_markers_are_entries, lemma_every_marker_is_collected};
use crate::tree::{Node, lists, carried_out, law_plan_mirrors};
use crate::manager::{spared, profile_listing};

verus! {

/// Switching away loses no work: after the live directory was saved out
/// into the profile that was bound, the profile holds every live entry
/// outside the spared names, new directories and files at any depth included,
/// with the live content; and it holds nothing else outside the spared names.
pub proof fn law_save_out_captures(
    live: Seq<EntryView>,
    store: Seq<EntryView>,
    bound: Seq<char>,
    live_tree: Map<Seq<char>, Node>,
    profile_tree: Map<Seq<char>, Node>,
    p: Seq<char>,
    outside: Option<Seq<char>>,
)
    requires
        lists(live, live_tree),
        lists(profile_listing(store, bound), profile_tree),
        !excluded(p, spared(live, profile_listing(store, bound), outside)),
    ensures
        ({
            let old_tree = profile_listing(store, bound);
            let after = carried_out(
                mirror_plan(live, old_tree, spared(live, old_tree, outside)),
                live_tree,
                profile_tree,
            );
            &&& after.contains_key(p) == live_tree.contains_key(p)
            &&& live_tree.contains_key(p) ==> after[p] == live_tree[p]
        }),
{
    let old_tree = profile_listing(store, bound);
    law_plan_mirrors(live, old_tree, spared(live, old_tree, outside), live_tree, profile_tree);
}

/// Switching in replaces in full: afterwards the live directory holds,
/// outside the spared names, exactly what the target profile stores, with the
/// stored content; what the live directory held beyond that is gone.
pub proof fn law_switch_in_replaces(
    live: Seq<EntryView>,
    store: Seq<EntryView>,
    target: Seq<char>,
    live_tree: Map<Seq<char>, Node>,
    profile_tree: Map<Seq<char>, Node>,
    p: Seq<char>,
    outside: Option<Seq<char>>,
)
    requires
        lists(live, live_tree),
        lists(profile_listing(store, target), profile_tree),
        !excluded(p, spared(live, profile_listing(store, target), outside)),
    ensures
        ({
            let new_tree = profile_listing(store, target);
            let after = carried_out(
                mirror_plan(new_tree, live, spared(live, new_tree, outside)),
                profile_tree,
                live_tree,
            );
            &&& after.contains_key(p) == profile_tree.contains_key(p)
            &&& profile_tree.contains_key(p) ==> after[p] == profile_tree[p]
        }),
{
    let new_tree = profile_listing(store, target);
    law_plan_mirrors(new_tree, live, spared(live, new_tree, outside), profile_tree, live_tree);
}

/// A switch leaves what lies under a spared name in the live directory as
/// it was.
pub proof fn law_switch_in_spares(
    live: Seq<EntryView>,
    store: Seq<EntryView>,
    target: Seq<char>,
    live_tree: Map<Seq<char>, Node>,
    profile_tree: Map<Seq<char>, Node>,
    p: Seq<char>,
    outside: Option<Seq<char>>,
)
    requires
        lists(live, live_tree),
        lists(profile_listing(store, target), profile_tree),
        excluded(p, spared(live, profile_listing(store, target), outside)),
    ensures
        ({
            let new_tree = profile_listing(store, target);
            let after = carried_out(
                mirror_plan(new_tree, live, spared(live, new_tree, outside)),
                profile_tree,
                live_tree,
            );
            &&& after.contains_key(p) == live_tree.contains_key(p)
            &&& live_tree.contains_key(p) ==> after[p] == live_tree[p]
        }),
{
    let new_tree = profile_listing(store, target);
    law_plan_mirrors(new_tree, live, spared(live, new_tree, outside), profile_tree, live_tree);
}

/// The tree after the top-level entries named in `gone` were removed, each
/// with all it holds.
pub open spec fn without(t: Map<Seq<char>, Node>, gone: Seq<Seq<char>>) -> Map<Seq<char>, Node> {
    Map::new(|p: Seq<char>| t.contains_key(p) && !excluded(p, gone), |p: Seq<char>| t[p])
}

/// Clearing the markers clears them all: once the planned removals are
/// carried out, a new listing of the directory shows no marker, so that
/// clearing again plans nothing. What does not lie under a marker's name
/// is as it was.
pub proof fn law_cleared_holds_no_marker(
    list: Seq<EntryView>,
    tree: Map<Seq<char>, Node>,
    after: Seq<EntryView>,
    p: Seq<char>,
)
    requires
        lists(list, tree),
        lists(after, without(tree, markers(list))),
    ensures
        markers(after) == Seq::<Seq<char>>::empty(),
        !excluded(p, markers(list)) ==> without(tree, markers(list)).contains_key(p)
            == tree.contains_key(p),
        without(tree, markers(list)).contains_key(p) ==> without(tree, markers(list))[p]
            == tree[p],
{
    let left = markers(after);
    if left.len() > 0 {
        let m = left[0];
        lemma_markers_are_markers(after, after.len() as int, 0);
        lemma_markers_are_entries(after, after.len() as int, 0);
        let a = choose|a: int| 0 <= a < after.len() && (#[trigger] after[a]).path == m;
        assert(without(tree, markers(list)).contains_key(m));
        assert(tree.contains_key(m));
        let i = choose|i: int| 0 <= i < list.len() && (#[trigger] list[i]).path == m;
        assert(is_marker(list[i]));
        lemma_every_marker_is_collected(list, list.len() as int, i);
        assert(is_top_len(m, m.len() as int)) by {
            assert forall|j: int| 0 <= j < m.len() implies m[j] != '/' by {
                if m[j] == '/' {
                    assert(m.contains('/'));
                }
            }
        }
        lemma_top_len_unique(m, m.len() as int);
        assert(m.subrange(0, m.len() as int) =~= m);
        assert(excluded(m, markers(list)));
        assert(false);
    }
    assert(left =~= Seq::<Seq<char>>::empty());
}

/// Every marker of the live directory is among the entries that the mirror
/// copies of a switch leave alone.
pub proof fn law_markers_are_spared(
    live: Seq<EntryView>,
    profile: Seq<EntryView>,
    outside: Option<Seq<char>>,
    k: int,
)
    requires
        0 <= k < markers(live).len(),
    ensures
        excluded(markers(live)[k], spared(live, profile, outside)),
{
    let p = markers(live)[k];
    lemma_markers_are_markers(live, live.len() as int, k);
    assert(is_top_len(p, p.len() as int)) by {
        assert forall|j: int| 0 <= j < p.len() implies p[j] != '/' by {
            if p[j] == '/' {
                assert(p.contains('/'));
            }
        }
    }
    lemma_top_len_unique(p, p.len() as int);
    assert(p.subrange(0, p.len() as int) =~= p);
    assert(top_name(p) == p);
    assert(spared(live, profile, outside)[k] == p);
}

/// Edits survive a round trip: what the live directory held outside the
/// spared names when it was saved out into a profile is what it holds again,
/// with the same content, once that profile is switched back in, whatever
/// the live directory held in between.
pub proof fn law_round_trip_keeps_edits(
    live: Seq<EntryView>,
    stored: Seq<EntryView>,
    saved: Seq<EntryView>,
    later: Seq<EntryView>,
    live_tree: Map<Seq<char>, Node>,
    stored_tree: Map<Seq<char>, Node>,
    later_tree: Map<Seq<char>, Node>,
    p: Seq<char>,
    outside: Option<Seq<char>>,
)
    requires
        lists(live, live_tree),
        lists(stored, stored_tree),
        lists(
            saved,
            carried_out(mirror_plan(live, stored, spared(live, stored, outside)), live_tree, stored_tree),
        ),
        lists(later, later_tree),
        !excluded(p, spared(live, stored, outside)),
        !excluded(p, spared(later, saved, outside)),
    ensures
        ({
            let kept = carried_out(
                mirror_plan(live, stored, spared(live, stored, outside)),
                live_tree,
                stored_tree,
            );
            let back = carried_out(mirror_plan(saved, later, spared(later, saved, outside)), kept, later_tree);
            &&& back.contains_key(p) == live_tree.contains_key(p)
            &&& live_tree.contains_key(p) ==> back[p] == live_tree[p]
        }),
{
    let kept = carried_out(mirror_plan(live, stored, spared(live, stored, outside)), live_tree, stored_tree);
    law_plan_mirrors(live, stored, spared(live, stored, outside), live_tree, stored_tree);
    law_plan_mirrors(saved, later, spared(later, saved, outside), kept, later_tree);
}

} // verus!
