//! Listing the stored profiles of a harness in the order of their names.

use vstd::prelude::*;
use crate::profile_name::{ProfileName, valid_name};
use crate::mirror::{Entry, EntryKind, EntryView, listing};
use crate::order::{lex_le, sorted, str_le, lemma_lex_total, lemma_lex_transitive};
use crate::manager::ProfileManager;

verus! {

/// A stored profile shows as a directory whose name is a valid profile
/// name; such an entry lies directly in the store, as its name holds no
/// separator.
pub open spec fn is_profile_dir(e: EntryView) -> bool {
    e.kind == EntryKind::Dir && valid_name(e.path)
}

/// The names of the profiles among the first `n` entries of the store.
pub open spec fn profile_dirs(store: Seq<EntryView>, n: int) -> Seq<Seq<char>>
    decreases n,
{
    if n <= 0 {
        Seq::empty()
    } else if is_profile_dir(store[n - 1]) {
        profile_dirs(store, n - 1).push(store[n - 1].path)
    } else {
        profile_dirs(store, n - 1)
    }
}

/// The strings of a sequence of profile names, in order.
pub open spec fn name_views(v: Seq<ProfileName>) -> Seq<Seq<char>> {
    Seq::new(v.len(), |i: int| v[i]@)
}

/// Puts `name` into the sorted list `out`, behind the names that do not
/// come after it.
fn insert_sorted(out: &mut Vec<ProfileName>, name: ProfileName)
    requires
        sorted(name_views(old(out)@)),
    ensures
        sorted(name_views(final(out)@)),
        name_views(final(out)@).to_multiset() == name_views(old(out)@).to_multiset().insert(name@),
{
    let ghost before = name_views(out@);
    let mut pos: usize = 0;
    while pos < out.len() && str_le(out[pos].as_str(), name.as_str())
        invariant
            pos <= out.len(),
            out@ == old(out)@,
            before == name_views(out@),
            forall|j: int| 0 <= j < pos ==> lex_le(#[trigger] before[j], name@),
        decreases out.len() - pos,
    {
        assert(before[pos as int] == out@[pos as int]@);
        pos += 1;
    }
    proof {
        if pos < out.len() {
            assert(before[pos as int] == out@[pos as int]@);
            lemma_lex_total(before[pos as int], name@);
        }
    }
    let ghost x = name@;
    out.insert(pos, name);
    proof {
        let after = name_views(out@);
        assert(after =~= before.insert(pos as int, x));
        assert forall|i: int, j: int| 0 <= i <= j < after.len() implies lex_le(after[i], after[j]) by {
            if i == j {
                crate::order::lemma_lex_reflexive(after[i]);
            } else if j < pos {
                assert(after[i] == before[i] && after[j] == before[j]);
            } else if j == pos {
                assert(after[i] == before[i]);
            } else if i < pos {
                assert(after[i] == before[i] && after[j] == before[j - 1]);
            } else if i == pos {
                assert(after[j] == before[j - 1]);
                lemma_lex_transitive(x, before[pos as int], before[j - 1]);
            } else {
                assert(after[i] == before[i - 1] && after[j] == before[j - 1]);
            }
        }
        broadcast use vstd::seq_lib::group_to_multiset_ensures;
        assert(after.remove(pos as int) =~= before);
        assert(after[pos as int] == x);
        assert(after.contains(x));
        assert(before.to_multiset() =~= after.to_multiset().remove(x));
        assert(after.to_multiset() =~= before.to_multiset().insert(x));
    }
}

/// No two entries of the listing have one path, as in every listing read
/// from a directory.
pub open spec fn distinct_paths(list: Seq<EntryView>) -> bool {
    forall|i: int, j: int| 0 <= i < j < list.len() ==> list[i].path != list[j].path
}

/// Each listed profile name is the path of one of the entries looked at.
pub proof fn lemma_profile_dirs_are_entries(store: Seq<EntryView>, n: int, k: int)
    requires
        0 <= n <= store.len(),
        0 <= k < profile_dirs(store, n).len(),
    ensures
        exists|i: int| 0 <= i < n && (#[trigger] store[i]).path == profile_dirs(store, n)[k],
    decreases n,
{
    if n > 0 {
        if k < profile_dirs(store, n - 1).len() {
            lemma_profile_dirs_are_entries(store, n - 1, k);
            let i = choose|i: int|
                0 <= i < n - 1 && (#[trigger] store[i]).path == profile_dirs(store, n - 1)[k];
            assert(store[i].path == profile_dirs(store, n)[k]);
        } else {
            assert(store[n - 1].path == profile_dirs(store, n)[k]);
        }
    }
}

/// A listing without repeated paths names no profile twice.
pub proof fn lemma_profile_dirs_distinct(store: Seq<EntryView>, n: int)
    requires
        distinct_paths(store),
        0 <= n <= store.len(),
    ensures
        profile_dirs(store, n).no_duplicates(),
    decreases n,
{
    if n > 0 {
        lemma_profile_dirs_distinct(store, n - 1);
        let rest = profile_dirs(store, n - 1);
        if is_profile_dir(store[n - 1]) {
            assert forall|k: int| 0 <= k < rest.len() implies rest[k] != store[n - 1].path by {
                lemma_profile_dirs_are_entries(store, n - 1, k);
            }
        }
    }
}

/// Where the store's listing repeats no path, the profiles come out in
/// strictly ascending order: of two places in the result, the earlier
/// holds the lesser name, and never the same.
pub proof fn law_distinct_listing_ascends_strictly(
    store: Seq<EntryView>,
    result: Seq<Seq<char>>,
    i: int,
    j: int,
)
    requires
        distinct_paths(store),
        sorted(result),
        result.to_multiset() == profile_dirs(store, store.len() as int).to_multiset(),
        0 <= i < j < result.len(),
    ensures
        lex_le(result[i], result[j]),
        result[i] != result[j],
{
    let dirs = profile_dirs(store, store.len() as int);
    lemma_profile_dirs_distinct(store, store.len() as int);
    dirs.lemma_multiset_has_no_duplicates();
    result.lemma_multiset_has_no_duplicates_conv();
}

impl ProfileManager {
    /// The profiles of a harness, sorted by name. `store` lists the
    /// directory of the harness's profiles; where that directory does not
    /// exist yet the listing is empty, and so is the result. Entries that
    /// are no directories, or whose names are no valid profile names, are
    /// passed over.
    pub fn list_profiles(&self, store: &Vec<Entry>) -> (r: Vec<ProfileName>)
        ensures
            sorted(name_views(r@)),
            name_views(r@).to_multiset() == profile_dirs(
                listing(store@),
                store@.len() as int,
            ).to_multiset(),
    {
        let mut out: Vec<ProfileName> = Vec::new();
        let mut i: usize = 0;
        assert(name_views(out@) =~= profile_dirs(listing(store@), 0));
        while i < store.len()
            invariant
                i <= store.len(),
                sorted(name_views(out@)),
                name_views(out@).to_multiset() == profile_dirs(listing(store@), i as int).to_multiset(),
            decreases store.len() - i,
        {
            match store[i].kind {
                EntryKind::Dir => {
                    match ProfileName::new(store[i].path.as_str()) {
                        Ok(name) => {
                            proof {
                                broadcast use vstd::seq_lib::group_to_multiset_ensures;
                            }
                            assert(is_profile_dir(listing(store@)[i as int]));
                            insert_sorted(&mut out, name);
                        },
                        Err(_) => {
                            assert(!is_profile_dir(listing(store@)[i as int]));
                        },
                    }
                },
                EntryKind::File => {},
            }
            i += 1;
        }
        out
    }
}

} // verus!
