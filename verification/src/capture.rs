//! Capturing the live directory as a new profile, and what a profile shows.

use vstd::prelude::*;
use vstd::string::*;
use crate::text::{names, joined};
use crate::error::Error;
use crate::profile_name::{ProfileName, valid_name};
use crate::mirror::{Entry, EntryView, PlanView, listing, has_path, mirror_plan, plan_mirror};
use crate::registry::BridleConfig;
use crate::manager::{ProfileManager, Capture, InstallStatus, OutsideFile, profile_path_of, stored, spared, spared_names, outside_name, outside_to_store};

verus! {

/// The mirror copy that fills a new, empty profile from the live
/// directory: everything is written but the markers and what lies under
/// the outside file's name; nothing is removed.
pub open spec fn capture_plan(live: Seq<EntryView>, outside: Option<Seq<char>>) -> PlanView {
    mirror_plan(live, Seq::empty(), spared(live, Seq::empty(), outside))
}

/// What a capture plans beside the profile's directory.
pub open spec fn captures(c: Capture, live: Seq<EntryView>, name: Seq<char>, outside: Option<&OutsideFile>) -> bool {
    &&& c.plan@ == capture_plan(live, outside_name(outside))
    &&& c.active@ == name
    &&& c.outside is Some <==> (outside matches Some(f) && f.present)
    &&& c.outside matches Some(n) ==> n@ == outside.unwrap().name@
}

/// The copy of auxiliary resource roots into a new profile.
pub open spec fn resource_plan(resources: Seq<EntryView>) -> PlanView {
    mirror_plan(resources, Seq::empty(), Seq::empty())
}

/// The name of the profile that is made on first use.
pub open spec fn default_name() -> Seq<char> {
    "default"@
}

/// What `show` reads, and from where.
#[derive(Debug)]
pub struct ShowSource {
    /// The profile is the active one of its harness.
    pub is_active: bool,
    /// Directory of the stored profile.
    pub path: String,
    /// Directory to read from: the live one for the active profile, where
    /// it is known, and else the stored one.
    pub read_from: String,
}

/// The profile `name` is recorded as active for the harness.
pub open spec fn is_active(config: Map<Seq<char>, Seq<char>>, harness_id: Seq<char>, name: Seq<char>) -> bool {
    config.contains_key(harness_id) && config[harness_id] == name
}

/// The failures among the first `n` facets, in order.
pub open spec fn facet_failures(facets: Seq<Option<String>>, n: int) -> Seq<Seq<char>>
    decreases n,
{
    if n <= 0 {
        Seq::empty()
    } else {
        match facets[n - 1] {
            Some(e) => facet_failures(facets, n - 1).push(e@),
            None => facet_failures(facets, n - 1),
        }
    }
}

/// The diagnostics of a `show`: the failure to read the server list, if
/// any, under its heading, then the failures of the other facets in order.
pub open spec fn diagnostics(servers: Option<Seq<char>>, facets: Seq<Option<String>>) -> Seq<Seq<char>> {
    let head = match servers {
        Some(e) => seq!["MCP config: "@ + e],
        None => Seq::empty(),
    };
    head + facet_failures(facets, facets.len() as int)
}

/// Gathers the failures of single facets into one list. No failure makes
/// the whole `show` fail.
pub fn gather_diagnostics(servers: Option<&str>, facets: &Vec<Option<String>>) -> (r: Vec<String>)
    ensures
        names(r@) == diagnostics(
            match servers {
                Some(e) => Some(e@),
                None => None,
            },
            facets@,
        ),
{
    let mut out: Vec<String> = Vec::new();
    assert(names(out@) =~= Seq::empty());
    match servers {
        Some(e) => {
            out.push(joined("MCP config: ", e));
            assert(names(out@) =~= seq!["MCP config: "@ + e@]);
        },
        None => {},
    }
    let ghost head = names(out@);
    let mut i: usize = 0;
    assert(names(out@) =~= head + facet_failures(facets@, 0));
    while i < facets.len()
        invariant
            i <= facets.len(),
            names(out@) == head + facet_failures(facets@, i as int),
        decreases facets.len() - i,
    {
        let ghost before = names(out@);
        match &facets[i] {
            Some(e) => {
                out.push(e.clone());
                assert(names(out@) =~= before.push(e@));
                assert(names(out@) =~= head + facet_failures(facets@, i + 1));
            },
            None => {},
        }
        i += 1;
    }
    out
}

impl ProfileManager {
    /// Plans a new profile that holds the live directory's content, and
    /// with it the auxiliary resource roots where their listing is given.
    /// Fails with `ProfileExists`, planning nothing, exactly when the store
    /// already holds an entry of that name.
    pub fn create_from_current_with_resources(
        &self,
        harness_id: &str,
        resources: Option<&Vec<Entry>>,
        name: &ProfileName,
        live: &Vec<Entry>,
        store: &Vec<Entry>,
        outside: Option<&OutsideFile>,
    ) -> (r: Result<Capture, Error>)
        ensures
            r is Err <==> has_path(listing(store@), name@),
            r matches Err(e) ==> (e matches Error::ProfileExists(n) && n@ == name@),
            r matches Ok(c) ==> {
                &&& c.path@ == profile_path_of(self@, harness_id@, name@)
                &&& captures(c, listing(live@), name@, outside)
                &&& c.resources is Some <==> resources is Some
                &&& c.resources matches Some(p) ==> p@ == resource_plan(listing(resources.unwrap()@))
            },
    {
        let path = match self.create_profile(harness_id, name, store) {
            Ok(p) => p,
            Err(e) => {
                return Err(e);
            },
        };
        let empty: Vec<Entry> = Vec::new();
        assert(listing(empty@) =~= Seq::empty());
        let ex = spared_names(live, &empty, outside);
        let plan = plan_mirror(live, &empty, &ex);
        let extra = match resources {
            Some(list) => {
                let none: Vec<String> = Vec::new();
                assert(names(none@) =~= Seq::empty());
                Some(plan_mirror(list, &empty, &none))
            },
            None => None,
        };
        Ok(
            Capture {
                path,
                plan,
                resources: extra,
                outside: outside_to_store(outside),
                active: String::from_str(name.as_str()),
            },
        )
    }

    /// Plans a new profile that holds the live directory's content and,
    /// where the harness keeps a file outside it that is present, that
    /// file.
    pub fn create_from_current(
        &self,
        harness_id: &str,
        name: &ProfileName,
        live: &Vec<Entry>,
        store: &Vec<Entry>,
        outside: Option<&OutsideFile>,
    ) -> (r: Result<Capture, Error>)
        ensures
            r is Err <==> has_path(listing(store@), name@),
            r matches Err(e) ==> (e matches Error::ProfileExists(n) && n@ == name@),
            r matches Ok(c) ==> {
                &&& c.path@ == profile_path_of(self@, harness_id@, name@)
                &&& captures(c, listing(live@), name@, outside)
                &&& c.resources is None
            },
    {
        self.create_from_current_with_resources(harness_id, None, name, live, store, outside)
    }

    /// Plans the profile `default` for a harness that has none. Nothing is
    /// planned unless the harness is fully installed, and nothing where a
    /// profile `default` is stored already.
    pub fn create_from_current_if_missing(
        &self,
        harness_id: &str,
        status: &InstallStatus,
        live: &Vec<Entry>,
        store: &Vec<Entry>,
        outside: Option<&OutsideFile>,
    ) -> (r: Result<Option<Capture>, Error>)
        ensures
            !(status is FullyInstalled) || stored(listing(store@), default_name()) ==> r matches Ok(
                None,
            ),
            status is FullyInstalled && !stored(listing(store@), default_name()) ==> {
                &&& r is Err <==> has_path(listing(store@), default_name())
                &&& r matches Err(e) ==> (e matches Error::ProfileExists(n) && n@ == default_name())
                &&& r matches Ok(o) ==> (o matches Some(c) && {
                    &&& c.path@ == profile_path_of(self@, harness_id@, default_name())
                    &&& captures(c, listing(live@), default_name(), outside)
                    &&& c.resources is None
                })
            },
    {
        match status {
            InstallStatus::FullyInstalled { .. } => {},
            _ => {
                return Ok(None);
            },
        }
        proof {
            lemma_default_is_valid();
        }
        match ProfileName::new("default") {
            Ok(name) => {
                if self.profile_exists(store, &name) {
                    return Ok(None);
                }
                match self.create_from_current(harness_id, &name, live, store, outside) {
                    Ok(c) => Ok(Some(c)),
                    Err(e) => Err(e),
                }
            },
            Err(_) => Ok(None),
        }
    }

    /// Decides what `show` reads for a profile. Fails with
    /// `ProfileNotFound` exactly when the store holds no entry of that
    /// name. The active profile is read from the live directory, so that
    /// edits made since the last switch are seen; any other from its
    /// stored directory.
    pub fn show_profile(
        &self,
        harness_id: &str,
        name: &ProfileName,
        store: &Vec<Entry>,
        config: &BridleConfig,
        live_dir: Option<&str>,
    ) -> (r: Result<ShowSource, Error>)
        ensures
            r is Err <==> !has_path(listing(store@), name@),
            r matches Err(e) ==> (e matches Error::ProfileNotFound(n) && n@ == name@),
            r matches Ok(s) ==> {
                &&& s.is_active == is_active(config@, harness_id@, name@)
                &&& s.path@ == profile_path_of(self@, harness_id@, name@)
                &&& s.read_from@ == if s.is_active && live_dir is Some {
                    live_dir.unwrap()@
                } else {
                    s.path@
                }
            },
    {
        let path = match self.find_profile(harness_id, name, store) {
            Ok(p) => p,
            Err(e) => {
                return Err(e);
            },
        };
        let wanted = String::from_str(name.as_str());
        let active = match config.active_profile_for(harness_id) {
            Some(p) => String::from_str(p) == wanted,
            None => false,
        };
        let read_from = match live_dir {
            Some(d) => if active {
                String::from_str(d)
            } else {
                path.clone()
            },
            None => path.clone(),
        };
        Ok(ShowSource { is_active: active, path, read_from })
    }
}

/// `default` is a valid profile name.
pub proof fn lemma_default_is_valid()
    ensures
        valid_name(default_name()),
{
    reveal_strlit("default");
    let s = default_name();
    assert(s.len() == 7);
    crate::profile_name::law_plain_names_valid(s);
}

} // verus!
