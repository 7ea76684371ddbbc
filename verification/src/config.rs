//! The CLI's profiles: names mapped to server base URLs, and where the
//! configuration lives.
use vstd::prelude::*;

use crate::paths::{join_path, spec_join};

verus! {

/// One server the CLI can talk to.
#[derive(Debug, PartialEq, Clone)]
pub struct Profile {
    pub base_url: String,
}

/// The CLI configuration: each profile name at most once.
#[derive(Debug, PartialEq)]
pub struct Config {
    profiles: Vec<(String, Profile)>,
}

/// The map from profile name to base URL that a list of entries describes.
pub open spec fn entries_map(s: Seq<(String, Profile)>) -> Map<Seq<char>, Seq<char>>
    decreases s.len(),
{
    if s.len() == 0 {
        Map::empty()
    } else {
        entries_map(s.drop_last()).insert(s.last().0@, s.last().1.base_url@)
    }
}

/// No profile name occurs twice.
pub open spec fn names_unique(s: Seq<(String, Profile)>) -> bool {
    forall|i: int, j: int|
        0 <= i < s.len() && 0 <= j < s.len() && i != j ==> (#[trigger] s[i]).0@ != (#[trigger] s[j]).0@
}

proof fn lemma_entries_map_lookup(s: Seq<(String, Profile)>, k: Seq<char>)
    requires
        names_unique(s),
    ensures
        entries_map(s).contains_key(k) <==> exists|i: int| 0 <= i < s.len() && (#[trigger] s[i]).0@ == k,
        forall|i: int| 0 <= i < s.len() && (#[trigger] s[i]).0@ == k ==> entries_map(s)[k] == s[i].1.base_url@,
    decreases s.len(),
{
    if s.len() > 0 {
        let p = s.drop_last();
        assert(names_unique(p)) by {
            assert forall|i: int, j: int|
                0 <= i < p.len() && 0 <= j < p.len() && i != j implies (#[trigger] p[i]).0@ != (#[trigger] p[j]).0@ by {
                assert(p[i] == s[i] && p[j] == s[j]);
            }
        }
        lemma_entries_map_lookup(p, k);
        if entries_map(s).contains_key(k) && s.last().0@ != k {
            let i = choose|i: int| 0 <= i < p.len() && (#[trigger] p[i]).0@ == k;
            assert(s[i] == p[i]);
        }
        assert forall|i: int| 0 <= i < s.len() && (#[trigger] s[i]).0@ == k implies entries_map(s)[k]
            == s[i].1.base_url@ by {
            if i < s.len() - 1 {
                assert(s[i] == p[i]);
                assert(s.last().0@ != k);
            }
        }
        if exists|i: int| 0 <= i < s.len() && (#[trigger] s[i]).0@ == k {
            let i = choose|i: int| 0 <= i < s.len() && (#[trigger] s[i]).0@ == k;
            if i < s.len() - 1 {
                assert(p[i] == s[i]);
            }
        }
    }
}

proof fn lemma_entries_map_update(s: Seq<(String, Profile)>, i: int, e: (String, Profile))
    requires
        names_unique(s),
        0 <= i < s.len(),
        s[i].0@ == e.0@,
    ensures
        names_unique(s.update(i, e)),
        entries_map(s.update(i, e)) == entries_map(s).insert(e.0@, e.1.base_url@),
{
    let t = s.update(i, e);
    assert(names_unique(t)) by {
        assert forall|a: int, b: int| 0 <= a < t.len() && 0 <= b < t.len() && a != b implies (#[trigger] t[a]).0@
            != (#[trigger] t[b]).0@ by {
            assert(s[a].0@ != s[b].0@);
        }
    }
    assert forall|k: Seq<char>| #[trigger] entries_map(t).contains_key(k) == entries_map(s).insert(e.0@, e.1.base_url@).contains_key(k) by {
        lemma_entries_map_lookup(s, k);
        lemma_entries_map_lookup(t, k);
        assert(t[i].0@ == e.0@);
        if entries_map(s).contains_key(k) {
            let j = choose|j: int| 0 <= j < s.len() && (#[trigger] s[j]).0@ == k;
            if j != i {
                assert(t[j] == s[j]);
            }
        }
        if entries_map(t).contains_key(k) {
            let j = choose|j: int| 0 <= j < t.len() && (#[trigger] t[j]).0@ == k;
            if j != i {
                assert(t[j] == s[j]);
            }
        }
    }
    assert forall|k: Seq<char>| #[trigger] entries_map(t).contains_key(k) implies entries_map(t)[k] == entries_map(s).insert(e.0@, e.1.base_url@)[k] by {
        lemma_entries_map_lookup(s, k);
        lemma_entries_map_lookup(t, k);
        let j = choose|j: int| 0 <= j < t.len() && (#[trigger] t[j]).0@ == k;
        if j != i {
            assert(t[j] == s[j]);
        } else {
            assert(t[i] == e);
        }
    }
    assert(entries_map(t) =~= entries_map(s).insert(e.0@, e.1.base_url@));
}

proof fn lemma_entries_map_push(s: Seq<(String, Profile)>, e: (String, Profile))
    requires
        names_unique(s),
        !entries_map(s).contains_key(e.0@),
    ensures
        names_unique(s.push(e)),
        entries_map(s.push(e)) == entries_map(s).insert(e.0@, e.1.base_url@),
{
    let t = s.push(e);
    lemma_entries_map_lookup(s, e.0@);
    assert(t.drop_last() =~= s);
    assert(names_unique(t)) by {
        assert forall|a: int, b: int| 0 <= a < t.len() && 0 <= b < t.len() && a != b implies (#[trigger] t[a]).0@
            != (#[trigger] t[b]).0@ by {
            if a < s.len() && b < s.len() {
                assert(t[a] == s[a] && t[b] == s[b]);
            } else if a < s.len() {
                assert(t[a] == s[a]);
            } else {
                assert(t[b] == s[b]);
            }
        }
    }
}

/// Position of the entry named `name`, if any.
fn find_entry(v: &Vec<(String, Profile)>, name: &str) -> (r: Option<usize>)
    ensures
        r matches Some(i) ==> i < v@.len() && v@[i as int].0@ == name@,
        r is None ==> forall|j: int| 0 <= j < v@.len() ==> (#[trigger] v@[j]).0@ != name@,
{
    let mut i: usize = 0;
    while i < v.len()
        invariant
            i <= v@.len(),
            forall|j: int| 0 <= j < i ==> (#[trigger] v@[j]).0@ != name@,
        decreases v@.len() - i,
    {
        if crate::text::str_equal(v[i].0.as_str(), name) {
            return Some(i);
        }
        i = i + 1;
    }
    None
}

impl Config {
    #[verifier::type_invariant]
    spec fn inv(self) -> bool {
        names_unique(self.profiles@)
    }

    /// The configuration as a map from profile name to base URL.
    pub closed spec fn view(&self) -> Map<Seq<char>, Seq<char>> {
        entries_map(self.profiles@)
    }

    /// An empty configuration.
    pub fn new() -> (r: Config)
        ensures
            r.view() == Map::<Seq<char>, Seq<char>>::empty(),
    {
        Config { profiles: Vec::new() }
    }

    /// The base URL stored for `profile`, if there is one.
    pub fn base_url(&self, profile: &str) -> (r: Option<&str>)
        ensures
            r is Some <==> self.view().contains_key(profile@),
            r matches Some(b) ==> b@ == self.view()[profile@],
    {
        proof {
            use_type_invariant(self);
            lemma_entries_map_lookup(self.profiles@, profile@);
        }
        match find_entry(&self.profiles, profile) {
            Some(i) => {
                assert(self.profiles@[i as int].0@ == profile@);
                Some(self.profiles[i].1.base_url.as_str())
            },
            None => None,
        }
    }

    /// Store `profile` under `name`, replacing what was there; returns the
    /// profile that was replaced.
    pub fn insert(&mut self, name: String, profile: Profile) -> (r: Option<Profile>)
        ensures
            final(self).view() == old(self).view().insert(name@, profile.base_url@),
            r is Some <==> old(self).view().contains_key(name@),
            r matches Some(p) ==> p.base_url@ == old(self).view()[name@],
    {
        proof {
            use_type_invariant(&*self);
            lemma_entries_map_lookup(self.profiles@, name@);
        }
        let ghost s = self.profiles@;
        let found = find_entry(&self.profiles, name.as_str());
        let mut profiles = Vec::new();
        std::mem::swap(&mut profiles, &mut self.profiles);
        match found {
            Some(i) => {
                let ghost e = (name, profile);
                proof {
                    lemma_entries_map_update(s, i as int, e);
                    assert(s[i as int].0@ == name@);
                }
                let mut entry = (name, profile);
                profiles.set_and_swap(i, &mut entry);
                self.profiles = profiles;
                Some(entry.1)
            },
            None => {
                let ghost e = (name, profile);
                proof {
                    lemma_entries_map_push(s, e);
                }
                profiles.push((name, profile));
                self.profiles = profiles;
                None
            },
        }
    }

    /// The stored profiles, each name once.
    pub fn entries(&self) -> (r: &Vec<(String, Profile)>)
        ensures
            names_unique(r@),
            entries_map(r@) == self.view(),
    {
        proof {
            use_type_invariant(self);
        }
        &self.profiles
    }
}

impl Default for Config {
    fn default() -> (r: Config)
        ensures
            r.view() == Map::<Seq<char>, Seq<char>>::empty(),
    {
        Config::new()
    }
}

/// Where the CLI keeps its configuration, inside the configuration directory.
pub fn config_path(config_dir: &str) -> (r: String)
    ensures
        r@ == spec_join(config_dir@, "config.toml"@),
{
    join_path(config_dir, "config.toml")
}

} // verus!
