//! Mirror copy: planning a full replacement of one directory tree by another.
//!
//! The planner works on recursive listings of the two trees and names the
//! paths to create, to copy and to remove. Paths are relative to the root
//! of their tree and use `/` between segments.

use vstd::prelude::*;
use vstd::string::*;
use crate::text::{names, contains_name};

verus! {

/// What a listed path is.
#[derive(Clone, Copy, Debug, PartialEq, Eq, Structural)]
pub enum EntryKind {
    File,
    Dir,
}

/// One line of a recursive directory listing.
#[derive(Debug)]
pub struct Entry {
    pub path: String,
    pub kind: EntryKind,
}

/// An entry as contracts see it: its path as characters, and its kind.
pub struct EntryView {
    pub path: Seq<char>,
    pub kind: EntryKind,
}

impl View for Entry {
    type V = EntryView;

    open spec fn view(&self) -> EntryView {
        EntryView { path: self.path@, kind: self.kind }
    }
}

/// The views of the entries of a listing, in order.
pub open spec fn listing(v: Seq<Entry>) -> Seq<EntryView> {
    Seq::new(v.len(), |i: int| v[i]@)
}

/// `n` is the length of the first segment of `p`.
pub open spec fn is_top_len(p: Seq<char>, n: int) -> bool {
    &&& 0 <= n <= p.len()
    &&& (n == p.len() || p[n] == '/')
    &&& forall|j: int| 0 <= j < n ==> p[j] != '/'
}

/// The first segment of a relative path: the name of the top-level entry
/// that the path lies in.
pub open spec fn top_name(p: Seq<char>) -> Seq<char> {
    p.subrange(0, choose|n: int| is_top_len(p, n))
}

/// A path is excluded when its top-level entry is named in `ex`.
pub open spec fn excluded(p: Seq<char>, ex: Seq<Seq<char>>) -> bool {
    ex.contains(top_name(p))
}

/// Some entry of the listing has the path `p`.
pub open spec fn has_path(list: Seq<EntryView>, p: Seq<char>) -> bool {
    exists|i: int| 0 <= i < list.len() && (#[trigger] list[i]).path == p
}

/// The paths among the first `n` entries of `list` that are of kind `kind`
/// and not excluded, in listing order.
pub open spec fn kept_paths(list: Seq<EntryView>, kind: EntryKind, ex: Seq<Seq<char>>, n: int) -> Seq<
    Seq<char>,
>
    decreases n,
{
    if n <= 0 {
        Seq::empty()
    } else {
        let rest = kept_paths(list, kind, ex, n - 1);
        if list[n - 1].kind == kind && !excluded(list[n - 1].path, ex) {
            rest.push(list[n - 1].path)
        } else {
            rest
        }
    }
}

/// The paths among the first `n` entries of `dst` that `src` lacks and that
/// are not excluded, in listing order.
pub open spec fn stale_paths(dst: Seq<EntryView>, src: Seq<EntryView>, ex: Seq<Seq<char>>, n: int) -> Seq<
    Seq<char>,
>
    decreases n,
{
    if n <= 0 {
        Seq::empty()
    } else {
        let rest = stale_paths(dst, src, ex, n - 1);
        if !has_path(src, dst[n - 1].path) && !excluded(dst[n - 1].path, ex) {
            rest.push(dst[n - 1].path)
        } else {
            rest
        }
    }
}

/// The steps of one mirror copy. Directories are created first, then files
/// are copied over, then what the source lacks is removed.
#[derive(Debug)]
pub struct MirrorPlan {
    /// Directories to ensure under the destination.
    pub make_dirs: Vec<String>,
    /// Files to copy from the source, overwriting.
    pub copy_files: Vec<String>,
    /// Destination entries to remove, directories with all they hold.
    pub remove: Vec<String>,
}

/// A plan as contracts see it: the three lists of paths.
pub struct PlanView {
    pub make_dirs: Seq<Seq<char>>,
    pub copy_files: Seq<Seq<char>>,
    pub remove: Seq<Seq<char>>,
}

impl View for MirrorPlan {
    type V = PlanView;

    open spec fn view(&self) -> PlanView {
        PlanView {
            make_dirs: names(self.make_dirs@),
            copy_files: names(self.copy_files@),
            remove: names(self.remove@),
        }
    }
}

/// The plan that mirrors the tree listed by `src` onto the one listed by `dst`.
pub open spec fn mirror_plan(src: Seq<EntryView>, dst: Seq<EntryView>, ex: Seq<Seq<char>>) -> PlanView {
    PlanView {
        make_dirs: kept_paths(src, EntryKind::Dir, ex, src.len() as int),
        copy_files: kept_paths(src, EntryKind::File, ex, src.len() as int),
        remove: stale_paths(dst, src, ex, dst.len() as int),
    }
}

/// A path has one first segment: any length that fits gives it.
pub proof fn lemma_top_len_unique(p: Seq<char>, n: int)
    requires
        is_top_len(p, n),
    ensures
        top_name(p) == p.subrange(0, n),
{
    let m = choose|m: int| is_top_len(p, m);
    assert(is_top_len(p, m));
    if m < n {
        assert(p[m] == '/');
    }
    if n < m {
        assert(p[n] == '/');
    }
}

/// The first segment of `path`.
pub fn top_component(path: &str) -> (r: String)
    ensures
        r@ == top_name(path@),
{
    let n: usize = path.unicode_len();
    let mut i: usize = 0;
    while i < n && path.get_char(i) != '/'
        invariant
            n == path@.len(),
            i <= n,
            forall|j: int| 0 <= j < i ==> path@[j] != '/',
        decreases n - i,
    {
        i += 1;
    }
    proof {
        lemma_top_len_unique(path@, i as int);
    }
    String::from_str(path.substring_char(0, i))
}

/// Tells whether the top-level entry of `path` is named in `exclusions`.
pub fn is_excluded(path: &str, exclusions: &Vec<String>) -> (b: bool)
    ensures
        b == excluded(path@, names(exclusions@)),
{
    let top = top_component(path);
    contains_name(exclusions, top.as_str())
}

/// Tells whether `list` has an entry at `path`.
pub fn listing_has(list: &Vec<Entry>, path: &str) -> (b: bool)
    ensures
        b == has_path(listing(list@), path@),
{
    let target = String::from_str(path);
    let mut i: usize = 0;
    while i < list.len()
        invariant
            i <= list.len(),
            target@ == path@,
            forall|j: int| 0 <= j < i ==> (#[trigger] listing(list@)[j]).path != path@,
        decreases list.len() - i,
    {
        if list[i].path == target {
            assert(listing(list@)[i as int].path == path@);
            return true;
        }
        i += 1;
    }
    false
}

fn keep(src: &Vec<Entry>, kind: EntryKind, exclusions: &Vec<String>) -> (out: Vec<String>)
    ensures
        names(out@) == kept_paths(listing(src@), kind, names(exclusions@), src@.len() as int),
{
    let mut out: Vec<String> = Vec::new();
    let mut i: usize = 0;
    assert(names(out@) =~= Seq::empty());
    while i < src.len()
        invariant
            i <= src.len(),
            names(out@) == kept_paths(listing(src@), kind, names(exclusions@), i as int),
        decreases src.len() - i,
    {
        let ghost before = names(out@);
        if src[i].kind == kind && !is_excluded(src[i].path.as_str(), exclusions) {
            out.push(src[i].path.clone());
            assert(names(out@) =~= before.push(listing(src@)[i as int].path));
        }
        i += 1;
    }
    out
}

fn stale(dst: &Vec<Entry>, src: &Vec<Entry>, exclusions: &Vec<String>) -> (out: Vec<String>)
    ensures
        names(out@) == stale_paths(
            listing(dst@),
            listing(src@),
            names(exclusions@),
            dst@.len() as int,
        ),
{
    let mut out: Vec<String> = Vec::new();
    let mut i: usize = 0;
    assert(names(out@) =~= Seq::empty());
    while i < dst.len()
        invariant
            i <= dst.len(),
            names(out@) == stale_paths(listing(dst@), listing(src@), names(exclusions@), i as int),
        decreases dst.len() - i,
    {
        let ghost before = names(out@);
        if !listing_has(src, dst[i].path.as_str()) && !is_excluded(
            dst[i].path.as_str(),
            exclusions,
        ) {
            out.push(dst[i].path.clone());
            assert(names(out@) =~= before.push(listing(dst@)[i as int].path));
        }
        i += 1;
    }
    out
}

/// Plans the mirror copy of the tree listed by `src` onto the tree listed by
/// `dst`. Entries whose top-level name is in `exclusions` are neither copied
/// nor removed.
pub fn plan_mirror(src: &Vec<Entry>, dst: &Vec<Entry>, exclusions: &Vec<String>) -> (plan: MirrorPlan)
    ensures
        plan@ == mirror_plan(listing(src@), listing(dst@), names(exclusions@)),
{
    let make_dirs = keep(src, EntryKind::Dir, exclusions);
    let copy_files = keep(src, EntryKind::File, exclusions);
    let remove = stale(dst, src, exclusions);
    MirrorPlan { make_dirs, copy_files, remove }
}

} // verus!
