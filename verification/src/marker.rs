//! The marker ledger: empty files in a live directory whose names tell
//! which profile is bound to it.

use vstd::prelude::*;
use vstd::string::*;
use crate::text::{names, starts_with, contains_char, joined, suffix_from};
use crate::mirror::{Entry, EntryView, listing};

verus! {

/// Every marker's name begins with this.
pub open spec fn marker_prefix() -> Seq<char> {
    "BRIDLE_PROFILE_"@
}

/// The name of the marker that binds `profile`.
pub open spec fn marker_name(profile: Seq<char>) -> Seq<char> {
    marker_prefix() + profile
}

/// A marker is an entry directly in the live directory whose name begins
/// with the marker prefix. The engine writes markers as empty files; an
/// entry of any other kind under such a name counts as a marker all the
/// same.
pub open spec fn is_marker(e: EntryView) -> bool {
    marker_prefix().is_prefix_of(e.path) && !e.path.contains('/')
}

/// The profile that a marker's name tells of.
pub open spec fn marker_profile(name: Seq<char>) -> Seq<char> {
    name.subrange(marker_prefix().len() as int, name.len() as int)
}

/// The names of the markers among the first `n` entries of `list`, in order.
pub open spec fn marker_paths(list: Seq<EntryView>, n: int) -> Seq<Seq<char>>
    decreases n,
{
    if n <= 0 {
        Seq::empty()
    } else if is_marker(list[n - 1]) {
        marker_paths(list, n - 1).push(list[n - 1].path)
    } else {
        marker_paths(list, n - 1)
    }
}

/// All marker names of a listing.
pub open spec fn markers(list: Seq<EntryView>) -> Seq<Seq<char>> {
    marker_paths(list, list.len() as int)
}

/// The profile that the listing's markers bind: the one that the only
/// marker tells of. No marker, or more than one, binds nothing.
pub open spec fn bound_by_marker(list: Seq<EntryView>) -> Option<Seq<char>> {
    if markers(list).len() == 1 {
        Some(marker_profile(markers(list)[0]))
    } else {
        None
    }
}

/// What writing a marker does: remove the old ones, create the new one.
#[derive(Debug)]
pub struct MarkerUpdate {
    /// Names of the markers to remove first, each with all it holds.
    pub remove: Vec<String>,
    /// Name of the empty file to create.
    pub create: String,
}

/// The name of the marker file for `profile`.
pub fn marker_file_name(profile: &str) -> (r: String)
    ensures
        r@ == marker_name(profile@),
{
    joined("BRIDLE_PROFILE_", profile)
}

/// Tells whether a listed entry is a marker.
pub fn is_marker_entry(e: &Entry) -> (b: bool)
    ensures
        b == is_marker(e@),
{
    starts_with(e.path.as_str(), "BRIDLE_PROFILE_") && !contains_char(e.path.as_str(), '/')
}

/// Appends the marker names of `list` to `out`.
pub fn collect_markers(list: &Vec<Entry>, out: &mut Vec<String>)
    ensures
        names(final(out)@) == names(old(out)@) + markers(listing(list@)),
{
    let ghost start = names(out@);
    let mut i: usize = 0;
    assert(names(out@) =~= start + marker_paths(listing(list@), 0));
    while i < list.len()
        invariant
            i <= list.len(),
            names(out@) == start + marker_paths(listing(list@), i as int),
        decreases list.len() - i,
    {
        let ghost before = names(out@);
        if is_marker_entry(&list[i]) {
            out.push(list[i].path.clone());
            assert(names(out@) =~= before.push(listing(list@)[i as int].path));
            assert(names(out@) =~= start + marker_paths(listing(list@), i + 1));
        }
        i += 1;
    }
}

/// The entries to remove so that the directory listed by `list` holds no
/// marker: every entry whose name begins with the marker prefix.
pub fn clear_markers(list: &Vec<Entry>) -> (r: Vec<String>)
    ensures
        names(r@) == markers(listing(list@)),
{
    let mut out: Vec<String> = Vec::new();
    assert(names(out@) =~= Seq::empty());
    collect_markers(list, &mut out);
    assert(names(out@) =~= markers(listing(list@)));
    out
}

/// The steps that bind `profile` in the directory listed by `list`: every
/// marker found is removed, then the marker of `profile` is created.
pub fn write_marker(list: &Vec<Entry>, profile: &str) -> (r: MarkerUpdate)
    ensures
        names(r.remove@) == markers(listing(list@)),
        r.create@ == marker_name(profile@),
{
    MarkerUpdate { remove: clear_markers(list), create: marker_file_name(profile) }
}

/// The profile bound in the directory listed by `list`, read from its
/// markers alone.
pub fn read_marker(list: &Vec<Entry>) -> (r: Option<String>)
    ensures
        r is Some <==> bound_by_marker(listing(list@)) is Some,
        r matches Some(p) ==> bound_by_marker(listing(list@)) == Some(p@),
{
    let found = clear_markers(list);
    if found.len() == 1 {
        proof {
            reveal_strlit("BRIDLE_PROFILE_");
            lemma_markers_are_markers(listing(list@), list@.len() as int, 0);
        }
        let k: usize = "BRIDLE_PROFILE_".unicode_len();
        assert(names(found@)[0] == found@[0]@);
        Some(suffix_from(found[0].as_str(), k))
    } else {
        None
    }
}

/// The marker written for a profile tells of that profile when it is read.
pub proof fn law_marker_names_its_profile(profile: Seq<char>)
    ensures
        marker_prefix().is_prefix_of(marker_name(profile)),
        marker_profile(marker_name(profile)) == profile,
{
    let name = marker_name(profile);
    let k = marker_prefix().len() as int;
    assert(name.subrange(0, k) =~= marker_prefix());
    assert(name.subrange(k, name.len() as int) =~= profile);
}

/// Each collected marker name is the path of one of the entries looked at.
pub proof fn lemma_markers_are_entries(list: Seq<EntryView>, n: int, k: int)
    requires
        0 <= n <= list.len(),
        0 <= k < marker_paths(list, n).len(),
    ensures
        exists|i: int| 0 <= i < n && (#[trigger] list[i]).path == marker_paths(list, n)[k],
    decreases n,
{
    if n > 0 {
        if k < marker_paths(list, n - 1).len() {
            lemma_markers_are_entries(list, n - 1, k);
            let i = choose|i: int|
                0 <= i < n - 1 && (#[trigger] list[i]).path == marker_paths(list, n - 1)[k];
            assert(list[i].path == marker_paths(list, n)[k]);
        } else {
            assert(list[n - 1].path == marker_paths(list, n)[k]);
        }
    }
}

/// Every marker among the entries looked at is collected.
pub proof fn lemma_every_marker_is_collected(list: Seq<EntryView>, n: int, i: int)
    requires
        0 <= i < n <= list.len(),
        is_marker(list[i]),
    ensures
        marker_paths(list, n).contains(list[i].path),
    decreases n,
{
    let all = marker_paths(list, n);
    if i == n - 1 {
        assert(all[all.len() - 1] == list[i].path);
    } else {
        lemma_every_marker_is_collected(list, n - 1, i);
        let rest = marker_paths(list, n - 1);
        let k = choose|k: int| 0 <= k < rest.len() && rest[k] == list[i].path;
        assert(all[k] == list[i].path);
    }
}

/// Each collected marker name begins with the marker prefix and holds no `/`.
pub proof fn lemma_markers_are_markers(list: Seq<EntryView>, n: int, k: int)
    requires
        0 <= n <= list.len(),
        0 <= k < marker_paths(list, n).len(),
    ensures
        marker_prefix().is_prefix_of(marker_paths(list, n)[k]),
        !marker_paths(list, n)[k].contains('/'),
    decreases n,
{
    if n > 0 {
        if is_marker(list[n - 1]) {
            if k < marker_paths(list, n - 1).len() {
                lemma_markers_are_markers(list, n - 1, k);
            }
        } else {
            lemma_markers_are_markers(list, n - 1, k);
        }
    }
}

} // verus!
