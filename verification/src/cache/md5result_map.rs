//! The results of md5 lookups read so far, by game and file id.
use super::keyed::KeyedCache;
use crate::api::Md5Results;
use vstd::prelude::*;

verus! {

/// The md5 lookup results read so far, by game and file id; a key may also
/// record that the result could not be read.
pub struct Md5ResultMap {
    map: KeyedCache<Md5Results>,
}

impl Md5ResultMap {
    /// What is known of the md5 lookup result of file `file_id` of `game`.
    pub closed spec fn lookup(self, game: Seq<char>, file_id: u64) -> Option<Option<Md5Results>> {
        self.map.lookup(game, file_id)
    }

    /// No key is stored twice.
    pub closed spec fn well_formed(self) -> bool {
        self.map.well_formed()
    }

    /// No result known yet.
    pub fn new() -> (r: Self)
        ensures
            r.well_formed(),
            forall|g: Seq<char>, f: u64| #[trigger] r.lookup(g, f) is None,
    {
        Md5ResultMap { map: KeyedCache::new() }
    }

    /// Stores a result under `game` and the id of the file it found.
    pub fn insert(&mut self, game: String, res: Md5Results)
        requires
            old(self).well_formed(),
        ensures
            final(self).well_formed(),
            forall|g: Seq<char>, f: u64|
                #[trigger] final(self).lookup(g, f) == if g == game@ && f == res.file_details.file_id {
                    Some(Some(res))
                } else {
                    old(self).lookup(g, f)
                },
    {
        let id = res.file_details.file_id;
        self.map.insert(game, id, Some(res));
    }

    /// Stores what reading the result of file `file_id` of `game` gave.
    pub fn record(&mut self, game: String, file_id: u64, loaded: Option<Md5Results>)
        requires
            old(self).well_formed(),
        ensures
            final(self).well_formed(),
            forall|g: Seq<char>, f: u64|
                #[trigger] final(self).lookup(g, f) == if g == game@ && f == file_id {
                    Some(loaded)
                } else {
                    old(self).lookup(g, f)
                },
    {
        self.map.insert(game, file_id, loaded);
    }

    /// The result for file `file_id` of `game` as far as it is known: `None`
    /// when it has not been read yet.
    pub fn get(&self, game: &str, file_id: u64) -> (r: Option<&Option<Md5Results>>)
        requires
            self.well_formed(),
        ensures
            match self.lookup(game@, file_id) {
                Some(v) => r == Some(&v),
                None => r is None,
            },
    {
        self.map.get(game, file_id)
    }
}

} // verus!
