//! The active-profile registry: which profile is active for each harness.

use vstd::prelude::*;
use vstd::string::*;
use crate::text::joined;
use crate::error::Error;

verus! {

/// The value that `entries` gives to `key`: that of the last entry with
/// this key.
pub open spec fn lookup(entries: Seq<(String, String)>, key: Seq<char>) -> Option<Seq<char>>
    decreases entries.len(),
{
    if entries.len() == 0 {
        None
    } else if entries.last().0@ == key {
        Some(entries.last().1@)
    } else {
        lookup(entries.drop_last(), key)
    }
}

/// The settings: for each harness identifier the name of its active profile.
#[derive(Debug)]
pub struct BridleConfig {
    /// Active profile per harness, as pairs of harness identifier and
    /// profile name. Where a harness occurs more than once its last pair
    /// counts.
    pub active: Vec<(String, String)>,
}

impl View for BridleConfig {
    type V = Map<Seq<char>, Seq<char>>;

    open spec fn view(&self) -> Map<Seq<char>, Seq<char>> {
        Map::new(
            |k: Seq<char>| lookup(self.active@, k) is Some,
            |k: Seq<char>| lookup(self.active@, k).unwrap(),
        )
    }
}

impl Default for BridleConfig {
    fn default() -> (r: Self)
        ensures
            r@ == Map::<Seq<char>, Seq<char>>::empty(),
    {
        let r = BridleConfig { active: Vec::new() };
        assert(r@ =~= Map::<Seq<char>, Seq<char>>::empty());
        r
    }
}

/// The directory of this program's own files under the platform's
/// configuration directory.
pub open spec fn config_dir_under(base: Seq<char>) -> Seq<char> {
    base + "/bridle"@
}

/// The settings file under the platform's configuration directory.
pub open spec fn config_path_under(base: Seq<char>) -> Seq<char> {
    config_dir_under(base) + "/config.toml"@
}

/// The profile store under the platform's configuration directory.
pub open spec fn profiles_dir_under(base: Seq<char>) -> Seq<char> {
    config_dir_under(base) + "/profiles"@
}

/// Asks `harness_locate::platform::config_dir` for the configuration
/// directory of the user on this platform, and hands on the directory or
/// the reason for its failure as text. The answer depends on the
/// environment, so nothing is claimed of it.
#[verifier::external_body]
fn platform_config_dir() -> (r: Result<String, String>) {
    match harness_locate::platform::config_dir() {
        Ok(dir) => Ok(dir.to_string_lossy().into_owned()),
        Err(e) => Err(e.to_string()),
    }
}

impl BridleConfig {
    /// The settings file. Fails with `ConfigNotFound` where the platform
    /// names no configuration directory.
    pub fn config_path() -> (r: Result<String, Error>)
        ensures
            r matches Ok(p) ==> exists|base: Seq<char>| p@ == config_path_under(base),
            r matches Err(e) ==> e is ConfigNotFound,
    {
        match platform_config_dir() {
            Ok(base) => Ok(Self::config_path_in(base.as_str())),
            Err(reason) => Err(Error::ConfigNotFound(reason)),
        }
    }

    /// This program's configuration directory. Fails with `ConfigNotFound`
    /// where the platform names no configuration directory.
    pub fn config_dir() -> (r: Result<String, Error>)
        ensures
            r matches Ok(p) ==> exists|base: Seq<char>| p@ == config_dir_under(base),
            r matches Err(e) ==> e is ConfigNotFound,
    {
        match platform_config_dir() {
            Ok(base) => Ok(Self::config_dir_in(base.as_str())),
            Err(reason) => Err(Error::ConfigNotFound(reason)),
        }
    }

    /// The directory of the profile store. Fails with `ConfigNotFound`
    /// where the platform names no configuration directory.
    pub fn profiles_dir() -> (r: Result<String, Error>)
        ensures
            r matches Ok(p) ==> exists|base: Seq<char>| p@ == profiles_dir_under(base),
            r matches Err(e) ==> e is ConfigNotFound,
    {
        match platform_config_dir() {
            Ok(base) => Ok(Self::profiles_dir_in(base.as_str())),
            Err(reason) => Err(Error::ConfigNotFound(reason)),
        }
    }

    /// The settings file, given the platform's configuration directory.
    pub fn config_path_in(base: &str) -> (r: String)
        ensures
            r@ == config_path_under(base@),
    {
        joined(Self::config_dir_in(base).as_str(), "/config.toml")
    }

    /// This program's directory, given the platform's configuration
    /// directory.
    pub fn config_dir_in(base: &str) -> (r: String)
        ensures
            r@ == config_dir_under(base@),
    {
        joined(base, "/bridle")
    }

    /// The profile store, given the platform's configuration directory.
    pub fn profiles_dir_in(base: &str) -> (r: String)
        ensures
            r@ == profiles_dir_under(base@),
    {
        joined(Self::config_dir_in(base).as_str(), "/profiles")
    }

    /// The active profile of a harness, if one is recorded.
    pub fn active_profile_for(&self, harness_id: &str) -> (r: Option<&str>)
        ensures
            r is Some <==> self@.contains_key(harness_id@),
            r matches Some(p) ==> p@ == self@[harness_id@],
    {
        let key = String::from_str(harness_id);
        let mut i: usize = self.active.len();
        assert(self.active@.take(i as int) =~= self.active@);
        while i > 0
            invariant
                i <= self.active.len(),
                key@ == harness_id@,
                lookup(self.active@, harness_id@) == lookup(self.active@.take(i as int), harness_id@),
            decreases i,
        {
            let ghost cur = self.active@.take(i as int);
            assert(cur.last() == self.active@[i - 1]);
            assert(cur.drop_last() =~= self.active@.take(i - 1));
            if self.active[i - 1].0 == key {
                return Some(self.active[i - 1].1.as_str());
            }
            i -= 1;
        }
        None
    }

    /// Forgets the active profile of a harness. Other harnesses keep theirs.
    pub fn clear_active_profile(&mut self, harness_id: &str)
        ensures
            final(self)@ == old(self)@.remove(harness_id@),
    {
        let key = String::from_str(harness_id);
        let mut kept: Vec<(String, String)> = Vec::new();
        let mut i: usize = 0;
        while i < self.active.len()
            invariant
                i <= self.active.len(),
                key@ == harness_id@,
                *self == *old(self),
                lookup(kept@, harness_id@) is None,
                forall|k: Seq<char>|
                    k != harness_id@ ==> #[trigger] lookup(kept@, k) == lookup(
                        self.active@.take(i as int),
                        k,
                    ),
            decreases self.active.len() - i,
        {
            let ghost before = kept@;
            let ghost next = self.active@.take(i + 1);
            assert(next.last() == self.active@[i as int]);
            assert(next.drop_last() =~= self.active@.take(i as int));
            if self.active[i].0 != key {
                kept.push((self.active[i].0.clone(), self.active[i].1.clone()));
                assert(kept@.drop_last() =~= before);
                assert(kept@.last().0@ == self.active@[i as int].0@);
                assert(kept@.last().1@ == self.active@[i as int].1@);
            }
            assert forall|k: Seq<char>| k != harness_id@ implies #[trigger] lookup(kept@, k)
                == lookup(next, k) by {
                assert(lookup(before, k) == lookup(self.active@.take(i as int), k));
            }
            i += 1;
        }
        assert(self.active@.take(self.active@.len() as int) =~= self.active@);
        let ghost was = self@;
        self.active = kept;
        assert(self@ =~= was.remove(harness_id@));
    }

    /// Records `profile` as the active profile of a harness. Other harnesses
    /// keep theirs.
    pub fn set_active_profile(&mut self, harness_id: &str, profile: &str)
        ensures
            final(self)@ == old(self)@.insert(harness_id@, profile@),
    {
        self.clear_active_profile(harness_id);
        let ghost before = self.active@;
        let ghost was = self@;
        self.active.push((String::from_str(harness_id), String::from_str(profile)));
        assert(self.active@.drop_last() =~= before);
        assert(self@ =~= was.insert(harness_id@, profile@));
    }
}

} // verus!
