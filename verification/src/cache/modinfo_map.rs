//! The mod descriptions read so far, by game and mod id.
use super::keyed::KeyedCache;
use crate::api::ModInfo;
use vstd::prelude::*;

verus! {

/// The mod descriptions read so far, by game and mod id; a key may also
/// record that the description could not be read.
pub struct ModInfoMap {
    map: KeyedCache<ModInfo>,
}

impl ModInfoMap {
    /// What is known of the description of mod `mod_id` of `game`.
    pub closed spec fn lookup(self, game: Seq<char>, mod_id: u32) -> Option<Option<ModInfo>> {
        self.map.lookup(game, mod_id as u64)
    }

    /// No key is stored twice.
    pub closed spec fn well_formed(self) -> bool {
        self.map.well_formed()
    }

    /// No description known yet.
    pub fn new() -> (r: Self)
        ensures
            r.well_formed(),
            forall|g: Seq<char>, m: u32| #[trigger] r.lookup(g, m) is None,
    {
        ModInfoMap { map: KeyedCache::new() }
    }

    /// Stores a description under its game and mod id.
    pub fn insert(&mut self, modinfo: ModInfo)
        requires
            old(self).well_formed(),
        ensures
            final(self).well_formed(),
            forall|g: Seq<char>, m: u32|
                #[trigger] final(self).lookup(g, m) == if g == modinfo.domain_name@ && m
                    == modinfo.mod_id {
                    Some(Some(modinfo))
                } else {
                    old(self).lookup(g, m)
                },
    {
        let game = modinfo.domain_name.clone();
        let mod_id = modinfo.mod_id;
        self.record(game, mod_id, Some(modinfo));
    }

    /// Stores what reading the description of mod `mod_id` of `game` gave.
    pub fn record(&mut self, game: String, mod_id: u32, loaded: Option<ModInfo>)
        requires
            old(self).well_formed(),
        ensures
            final(self).well_formed(),
            forall|g: Seq<char>, m: u32|
                #[trigger] final(self).lookup(g, m) == if g == game@ && m == mod_id {
                    Some(loaded)
                } else {
                    old(self).lookup(g, m)
                },
    {
        self.map.insert(game, mod_id as u64, loaded);
        proof {
            assert forall|g: Seq<char>, m: u32|
                #[trigger] self.lookup(g, m) == if g == game@ && m == mod_id {
                    Some(loaded)
                } else {
                    old(self).lookup(g, m)
                } by {
                assert(self.map.lookup(g, m as u64) == if g == game@ && m as u64 == mod_id as u64 {
                    Some(loaded)
                } else {
                    old(self).map.lookup(g, m as u64)
                });
            }
        }
    }

    /// The description of mod `mod_id` of `game` as far as it is known:
    /// `None` when it has not been read yet.
    pub fn get(&self, game: &str, mod_id: u32) -> (r: Option<&Option<ModInfo>>)
        requires
            self.well_formed(),
        ensures
            match self.lookup(game@, mod_id) {
                Some(v) => r == Some(&v),
                None => r is None,
            },
    {
        self.map.get(game, mod_id as u64)
    }
}

} // verus!
