//! The profile manager: which steps each profile operation takes.
//!
//! Every operation works on listings that the caller has read: `live` lists
//! the harness's live configuration directory, `store` lists the directory
//! that holds the harness's profiles, both recursively and with paths
//! relative to the directory listed.

use vstd::prelude::*;
use vstd::string::*;
use crate::text::{names, starts_with, joined, suffix_from};
use crate::error::Error;
use crate::profile_name::{ProfileName, valid_name};
use crate::mirror::{Entry, EntryKind, EntryView, MirrorPlan, listing, has_path, mirror_plan, plan_mirror, listing_has};
use crate::marker::{MarkerUpdate, markers, marker_name, bound_by_marker, collect_markers, read_marker, write_marker};
use crate::registry::BridleConfig;

verus! {

/// Where the profile `name` of the harness `harness_id` is stored. The
/// parts are joined by `/` as they stand.
pub open spec fn profile_path_of(dir: Seq<char>, harness_id: Seq<char>, name: Seq<char>) -> Seq<char> {
    dir + "/"@ + harness_id + "/"@ + name
}

/// The store holds a directory named `name`.
pub open spec fn stored(store: Seq<EntryView>, name: Seq<char>) -> bool {
    exists|i: int|
        0 <= i < store.len() && (#[trigger] store[i]).path == name && store[i].kind
            == EntryKind::Dir
}

/// The path lies below the top-level entry `name`.
pub open spec fn inside(p: Seq<char>, name: Seq<char>) -> bool {
    (name + "/"@).is_prefix_of(p)
}

/// The path as seen from the top-level entry `name`.
pub open spec fn seen_from(p: Seq<char>, name: Seq<char>) -> Seq<char> {
    p.subrange((name + "/"@).len() as int, p.len() as int)
}

/// The listing of the profile `name` alone, cut out of the first `n`
/// entries of the store's listing.
pub open spec fn subtree(store: Seq<EntryView>, name: Seq<char>, n: int) -> Seq<EntryView>
    decreases n,
{
    if n <= 0 {
        Seq::empty()
    } else if inside(store[n - 1].path, name) {
        subtree(store, name, n - 1).push(
            EntryView { path: seen_from(store[n - 1].path, name), kind: store[n - 1].kind },
        )
    } else {
        subtree(store, name, n - 1)
    }
}

/// The listing of the profile `name`.
pub open spec fn profile_listing(store: Seq<EntryView>, name: Seq<char>) -> Seq<EntryView> {
    subtree(store, name, store.len() as int)
}

/// The profile that is bound to the live directory: the one its marker
/// names, or else the one that the registry records.
pub open spec fn binding(
    live: Seq<EntryView>,
    config: Map<Seq<char>, Seq<char>>,
    harness_id: Seq<char>,
) -> Option<Seq<char>> {
    match bound_by_marker(live) {
        Some(p) => Some(p),
        None => if config.contains_key(harness_id) {
            Some(config[harness_id])
        } else {
            None
        },
    }
}

/// The live directory is saved out before a switch when a profile with a
/// valid name is bound and it is not the target.
pub open spec fn saves_out(bound: Option<Seq<char>>, target: Seq<char>) -> bool {
    bound matches Some(b) && b != target && valid_name(b)
}

/// The store holds a file at `path`.
pub open spec fn has_file(list: Seq<EntryView>, path: Seq<char>) -> bool {
    exists|i: int|
        0 <= i < list.len() && (#[trigger] list[i]).path == path && list[i].kind
            == EntryKind::File
}

/// The name of the outside file, where the harness keeps one.
pub open spec fn outside_name(outside: Option<&OutsideFile>) -> Option<Seq<char>> {
    match outside {
        Some(f) => Some(f.name@),
        None => None,
    }
}

/// The top-level names that a mirror copy between the live directory and a
/// profile leaves alone: the markers of either side, and the name under
/// which profiles store the outside file.
pub open spec fn spared(live: Seq<EntryView>, profile: Seq<EntryView>, outside: Option<Seq<char>>) -> Seq<
    Seq<char>,
> {
    markers(live) + markers(profile) + match outside {
        Some(name) => seq![name],
        None => Seq::empty(),
    }
}

/// A configuration file that the harness keeps outside its live directory.
/// A profile stores it directly in its own directory under `name`; the
/// mirror copies pass that name over, and the file is copied on its own.
#[derive(Debug)]
pub struct OutsideFile {
    /// The file's name.
    pub name: String,
    /// The file exists at its place outside the live directory.
    pub present: bool,
}

/// Saving the live directory into the profile that was bound.
#[derive(Debug)]
pub struct SaveOut {
    /// Name of the profile that receives the live state.
    pub profile: String,
    /// Directory of that profile.
    pub path: String,
    /// Mirror copy from the live directory into `path`.
    pub plan: MirrorPlan,
    /// Name under which the outside file is then copied into `path`,
    /// where the harness has such a file.
    pub outside: Option<String>,
}

/// Bringing a stored profile into the live directory and binding it.
#[derive(Debug)]
pub struct Apply {
    /// Directory of the profile that is switched in.
    pub source: String,
    /// Mirror copy from `source` into the live directory.
    pub plan: MirrorPlan,
    /// Name of the file in `source` that is then copied to the place of
    /// the outside file, where the profile stores one.
    pub outside: Option<String>,
    /// Markers to remove, then the one to create.
    pub marker: MarkerUpdate,
    /// Profile to record as active in the registry.
    pub active: String,
}

/// The steps of a switch, in the order in which they are carried out.
#[derive(Debug)]
pub struct SwitchPlan {
    /// First, if present: fold the live state back into the bound profile.
    pub save_out: Option<SaveOut>,
    /// Then: switch the target in, or fail because it is not stored.
    pub apply: Result<Apply, Error>,
}

/// Capturing the live directory as a new profile.
#[derive(Debug)]
pub struct Capture {
    /// Directory to create for the profile.
    pub path: String,
    /// Mirror copy from the live directory into `path`.
    pub plan: MirrorPlan,
    /// Copy of the auxiliary resource roots into `path`, where asked for.
    pub resources: Option<MirrorPlan>,
    /// Name under which the outside file is then copied into `path`,
    /// where the harness has such a file.
    pub outside: Option<String>,
    /// Profile to record as active in the registry.
    pub active: String,
}

/// Whether a harness is present on the machine.
#[derive(Debug)]
pub enum InstallStatus {
    /// Neither the program nor its configuration was found.
    NotInstalled,
    /// Only the configuration directory was found.
    ConfigOnly { config_path: String },
    /// Only the program was found.
    BinaryOnly { binary_path: String },
    /// Both were found.
    FullyInstalled { binary_path: String, config_path: String },
}

/// Manages the profiles stored under one directory.
#[derive(Debug)]
pub struct ProfileManager {
    profiles_dir: String,
}

impl View for ProfileManager {
    type V = Seq<char>;

    closed spec fn view(&self) -> Seq<char> {
        self.profiles_dir@
    }
}

/// Tells whether the store holds a directory named `name`.
pub fn is_stored(store: &Vec<Entry>, name: &str) -> (b: bool)
    ensures
        b == stored(listing(store@), name@),
{
    let target = String::from_str(name);
    let mut i: usize = 0;
    while i < store.len()
        invariant
            i <= store.len(),
            target@ == name@,
            forall|j: int|
                0 <= j < i ==> !((#[trigger] listing(store@)[j]).path == name@ && listing(
                    store@,
                )[j].kind == EntryKind::Dir),
        decreases store.len() - i,
    {
        if store[i].path == target && store[i].kind == EntryKind::Dir {
            assert(listing(store@)[i as int].path == name@);
            return true;
        }
        i += 1;
    }
    false
}

/// Cuts the listing of the profile `name` out of the store's listing.
pub fn profile_entries(store: &Vec<Entry>, name: &str) -> (r: Vec<Entry>)
    ensures
        listing(r@) == profile_listing(listing(store@), name@),
{
    let prefix = joined(name, "/");
    let k: usize = prefix.as_str().unicode_len();
    let mut out: Vec<Entry> = Vec::new();
    let mut i: usize = 0;
    assert(listing(out@) =~= Seq::empty());
    while i < store.len()
        invariant
            i <= store.len(),
            prefix@ == name@ + "/"@,
            k == prefix@.len(),
            listing(out@) == subtree(listing(store@), name@, i as int),
        decreases store.len() - i,
    {
        let ghost before = listing(out@);
        if starts_with(store[i].path.as_str(), prefix.as_str()) {
            let rest = suffix_from(store[i].path.as_str(), k);
            out.push(Entry { path: rest, kind: store[i].kind });
            assert(listing(out@) =~= before.push(
                EntryView {
                    path: seen_from(listing(store@)[i as int].path, name@),
                    kind: listing(store@)[i as int].kind,
                },
            ));
        }
        i += 1;
    }
    out
}

/// The profile bound to the live directory: the marker's, or else the
/// registry's.
pub fn current_binding(live: &Vec<Entry>, config: &BridleConfig, harness_id: &str) -> (r: Option<String>)
    ensures
        r is Some <==> binding(listing(live@), config@, harness_id@) is Some,
        r matches Some(b) ==> binding(listing(live@), config@, harness_id@) == Some(b@),
{
    match read_marker(live) {
        Some(p) => Some(p),
        None => match config.active_profile_for(harness_id) {
            Some(p) => Some(String::from_str(p)),
            None => None,
        },
    }
}

/// Tells whether the listing holds a file at `path`.
pub fn holds_file(list: &Vec<Entry>, path: &str) -> (b: bool)
    ensures
        b == has_file(listing(list@), path@),
{
    let target = String::from_str(path);
    let mut i: usize = 0;
    while i < list.len()
        invariant
            i <= list.len(),
            target@ == path@,
            forall|j: int|
                0 <= j < i ==> !((#[trigger] listing(list@)[j]).path == path@ && listing(
                    list@,
                )[j].kind == EntryKind::File),
        decreases list.len() - i,
    {
        if list[i].path == target && list[i].kind == EntryKind::File {
            assert(listing(list@)[i as int].path == path@);
            return true;
        }
        i += 1;
    }
    false
}

/// The names that the mirror copies of a switch or a capture leave alone.
pub fn spared_names(live: &Vec<Entry>, profile: &Vec<Entry>, outside: Option<&OutsideFile>) -> (r: Vec<
    String,
>)
    ensures
        names(r@) == spared(listing(live@), listing(profile@), outside_name(outside)),
{
    let mut out: Vec<String> = Vec::new();
    assert(names(out@) =~= Seq::empty());
    collect_markers(live, &mut out);
    collect_markers(profile, &mut out);
    let ghost before = names(out@);
    match outside {
        Some(f) => {
            out.push(f.name.clone());
            assert(names(out@) =~= before.push(f.name@));
        },
        None => {},
    }
    assert(names(out@) =~= spared(listing(live@), listing(profile@), outside_name(outside)));
    out
}

/// The name under which the outside file is copied into a profile: its
/// own, where the file is present.
pub fn outside_to_store(outside: Option<&OutsideFile>) -> (r: Option<String>)
    ensures
        r is Some <==> (outside matches Some(f) && f.present),
        r matches Some(n) ==> n@ == outside.unwrap().name@,
{
    match outside {
        Some(f) => if f.present {
            Some(f.name.clone())
        } else {
            None
        },
        None => None,
    }
}

impl ProfileManager {
    /// A manager of the profiles stored under `profiles_dir`.
    pub fn new(profiles_dir: String) -> (r: Self)
        ensures
            r@ == profiles_dir@,
    {
        ProfileManager { profiles_dir }
    }

    /// The directory under which all profiles are stored.
    pub fn profiles_dir(&self) -> (r: &String)
        ensures
            r@ == self@,
    {
        &self.profiles_dir
    }

    fn path_of(&self, harness_id: &str, name: &str) -> (r: String)
        ensures
            r@ == profile_path_of(self@, harness_id@, name@),
    {
        let a = joined(self.profiles_dir.as_str(), "/");
        let b = joined(a.as_str(), harness_id);
        let c = joined(b.as_str(), "/");
        joined(c.as_str(), name)
    }

    /// The directory of the profile `name` of the harness `harness_id`.
    pub fn profile_path(&self, harness_id: &str, name: &ProfileName) -> (r: String)
        ensures
            r@ == profile_path_of(self@, harness_id@, name@),
    {
        self.path_of(harness_id, name.as_str())
    }

    /// Tells whether the profile is stored: whether the store holds a
    /// directory of its name.
    pub fn profile_exists(&self, store: &Vec<Entry>, name: &ProfileName) -> (b: bool)
        ensures
            b == stored(listing(store@), name@),
    {
        is_stored(store, name.as_str())
    }

    /// The directory of a profile that the store has an entry for, or
    /// `ProfileNotFound`.
    pub(crate) fn find_profile(&self, harness_id: &str, name: &ProfileName, store: &Vec<Entry>) -> (r: Result<
        String,
        Error,
    >)
        ensures
            r is Err <==> !has_path(listing(store@), name@),
            r matches Err(e) ==> (e matches Error::ProfileNotFound(n) && n@ == name@),
            r matches Ok(p) ==> p@ == profile_path_of(self@, harness_id@, name@),
    {
        if !listing_has(store, name.as_str()) {
            return Err(Error::ProfileNotFound(String::from_str(name.as_str())));
        }
        Ok(self.profile_path(harness_id, name))
    }

    /// Decides the creation of an empty profile. Fails with `ProfileExists`
    /// exactly when the store already holds an entry of that name, and
    /// otherwise returns the directory to create.
    pub fn create_profile(&self, harness_id: &str, name: &ProfileName, store: &Vec<Entry>) -> (r: Result<
        String,
        Error,
    >)
        ensures
            r is Err <==> has_path(listing(store@), name@),
            r matches Err(e) ==> (e matches Error::ProfileExists(n) && n@ == name@),
            r matches Ok(p) ==> p@ == profile_path_of(self@, harness_id@, name@),
    {
        if listing_has(store, name.as_str()) {
            return Err(Error::ProfileExists(String::from_str(name.as_str())));
        }
        Ok(self.profile_path(harness_id, name))
    }

    /// Decides the deletion of a profile. Fails with `ProfileNotFound`
    /// exactly when the store holds no entry of that name, and otherwise
    /// returns the directory to remove with all it holds. Markers and the
    /// registry are left as they are.
    pub fn delete_profile(&self, harness_id: &str, name: &ProfileName, store: &Vec<Entry>) -> (r: Result<
        String,
        Error,
    >)
        ensures
            r is Err <==> !has_path(listing(store@), name@),
            r matches Err(e) ==> (e matches Error::ProfileNotFound(n) && n@ == name@),
            r matches Ok(p) ==> p@ == profile_path_of(self@, harness_id@, name@),
    {
        self.find_profile(harness_id, name, store)
    }

    /// Plans the switch of a harness to the profile `target`.
    ///
    /// If a profile with a valid name other than `target` is bound, the
    /// live directory is first mirrored into it, markers left out. Then
    /// the target must be stored: it is mirrored into the live directory,
    /// whose markers are replaced by the target's, and the target becomes
    /// the active profile. If the target is not stored, nothing is planned
    /// for the live directory, its markers or the registry.
    ///
    /// Where the harness keeps a file outside its live directory, the
    /// save-out copies it into the bound profile if it is present, and the
    /// switch-in copies it back out if the target stores one. It is never
    /// removed.
    pub fn switch_profile(
        &self,
        harness_id: &str,
        target: &ProfileName,
        live: &Vec<Entry>,
        store: &Vec<Entry>,
        config: &BridleConfig,
        outside: Option<&OutsideFile>,
    ) -> (r: SwitchPlan)
        ensures
            r.save_out is Some <==> saves_out(
                binding(listing(live@), config@, harness_id@),
                target@,
            ),
            r.save_out matches Some(s) ==> {
                let b = binding(listing(live@), config@, harness_id@).unwrap();
                let old_tree = profile_listing(listing(store@), b);
                &&& s.profile@ == b
                &&& s.path@ == profile_path_of(self@, harness_id@, b)
                &&& s.plan@ == mirror_plan(
                    listing(live@),
                    old_tree,
                    spared(listing(live@), old_tree, outside_name(outside)),
                )
                &&& s.outside is Some <==> (outside matches Some(f) && f.present)
                &&& s.outside matches Some(n) ==> n@ == outside.unwrap().name@
            },
            r.apply is Ok <==> stored(listing(store@), target@),
            r.apply matches Err(e) ==> (e matches Error::ProfileNotFound(n) && n@ == target@),
            r.apply matches Ok(a) ==> {
                let new_tree = profile_listing(listing(store@), target@);
                &&& a.source@ == profile_path_of(self@, harness_id@, target@)
                &&& a.plan@ == mirror_plan(
                    new_tree,
                    listing(live@),
                    spared(listing(live@), new_tree, outside_name(outside)),
                )
                &&& a.outside is Some <==> (outside matches Some(f) && has_file(new_tree, f.name@))
                &&& a.outside matches Some(n) ==> n@ == outside.unwrap().name@
                &&& names(a.marker.remove@) == markers(listing(live@))
                &&& a.marker.create@ == marker_name(target@)
                &&& a.active@ == target@
            },
    {
        let bound = current_binding(live, config, harness_id);
        let target_name = String::from_str(target.as_str());
        let save_out = match bound {
            Some(b) => {
                if b == target_name {
                    None
                } else {
                    match ProfileName::new(b.as_str()) {
                        Ok(valid) => {
                            let old_tree = profile_entries(store, valid.as_str());
                            let ex = spared_names(live, &old_tree, outside);
                            let plan = plan_mirror(live, &old_tree, &ex);
                            let path = self.profile_path(harness_id, &valid);
                            Some(SaveOut { profile: b, path, plan, outside: outside_to_store(outside) })
                        },
                        Err(_) => None,
                    }
                }
            },
            None => None,
        };
        let apply = if self.profile_exists(store, target) {
            let new_tree = profile_entries(store, target.as_str());
            let ex = spared_names(live, &new_tree, outside);
            let plan = plan_mirror(&new_tree, live, &ex);
            let back = match outside {
                Some(f) => if holds_file(&new_tree, f.name.as_str()) {
                    Some(f.name.clone())
                } else {
                    None
                },
                None => None,
            };
            Ok(
                Apply {
                    source: self.profile_path(harness_id, target),
                    plan,
                    outside: back,
                    marker: write_marker(live, target.as_str()),
                    active: target_name,
                },
            )
        } else {
            Err(Error::ProfileNotFound(target_name))
        };
        SwitchPlan { save_out, apply }
    }
}

} // verus!
