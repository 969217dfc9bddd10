//! The file lists found in the cache directory at startup, by game and mod id.
use super::archive_files::{extension, spec_extension};
use super::keyed::KeyedCache;
use crate::api::FileList;
use crate::path::chars_of;
use crate::config::paths::json_name;
use crate::text::{decimal, lemma_decimal_digits, lemma_parse_decimal, parse_u32, spec_parse_u32, str_eq};
use vstd::prelude::*;

verus! {

/// The mod id that a file of the file list directory stands for: a file
/// named `<mod id>.json`.
pub open spec fn spec_file_list_key(name: Seq<char>, is_file: bool) -> Option<u32> {
    if is_file && spec_extension(name) == Some("json"@) {
        spec_parse_u32(name.take(name.len() - 5))
    } else {
        None
    }
}

/// The mod id that the entry `name` of a game's file list directory stands
/// for, if it is a file named `<mod id>.json`.
pub fn file_list_key(name: &str, is_file: bool) -> (r: Option<u32>)
    ensures
        r == spec_file_list_key(name@, is_file),
{
    if !is_file {
        return None;
    }
    let is_json = match extension(name) {
        Some(e) => str_eq(e.as_str(), "json"),
        None => false,
    };
    if !is_json {
        return None;
    }
    proof {
        reveal_strlit("json");
        let n = name@;
        let i = choose|i: int|
            0 < i < n.len() && n[i] == '.' && forall|j: int| i < j < n.len() ==> n[j] != '.';
        assert(n.skip(i + 1) == "json"@);
        assert(n.skip(i + 1).len() == 4);
    }
    let v = chars_of(name);
    let stem_len = v.len() - 5;
    let mut stem = String::new();
    let mut k: usize = 0;
    while k < stem_len
        invariant
            stem_len < v@.len(),
            k <= stem_len,
            stem@ == v@.take(k as int),
        decreases stem_len - k,
    {
        crate::text::push_char(&mut stem, v[k]);
        k = k + 1;
        assert(stem@ =~= v@.take(k as int));
    }
    assert(stem@ =~= name@.take(name@.len() - 5));
    parse_u32(stem.as_str())
}

/// The file lists found in the cache, by game and mod id.
pub struct FileListCache {
    map: KeyedCache<FileList>,
}

impl FileListCache {
    /// The file list of mod `mod_id` of `game`, if stored.
    pub closed spec fn lookup(self, game: Seq<char>, mod_id: u32) -> Option<FileList> {
        match self.map.lookup(game, mod_id as u64) {
            Some(Some(fl)) => Some(fl),
            _ => None,
        }
    }

    /// No key is stored twice.
    pub closed spec fn well_formed(self) -> bool {
        self.map.well_formed()
    }

    /// No file list yet.
    pub fn new() -> (r: Self)
        ensures
            r.well_formed(),
            forall|g: Seq<char>, m: u32| #[trigger] r.lookup(g, m) is None,
    {
        FileListCache { map: KeyedCache::new() }
    }

    /// Stores the file list of mod `mod_id` of `game`.
    pub fn insert(&mut self, game: String, mod_id: u32, value: FileList)
        requires
            old(self).well_formed(),
        ensures
            final(self).well_formed(),
            forall|g: Seq<char>, m: u32|
                #[trigger] final(self).lookup(g, m) == if g == game@ && m == mod_id {
                    Some(value)
                } else {
                    old(self).lookup(g, m)
                },
    {
        let ghost gm = game@;
        self.map.insert(game, mod_id as u64, Some(value));
        proof {
            assert forall|g: Seq<char>, m: u32|
                #[trigger] self.lookup(g, m) == if g == gm && m == mod_id {
                    Some(value)
                } else {
                    old(self).lookup(g, m)
                } by {
                assert(self.map.lookup(g, m as u64) == if g == gm && m as u64 == mod_id as u64 {
                    Some(Some(value))
                } else {
                    old(self).map.lookup(g, m as u64)
                });
            }
        }
    }

    /// The file list of mod `mod_id` of `game`, if stored.
    pub fn get(&self, game: &str, mod_id: u32) -> (r: Option<&FileList>)
        requires
            self.well_formed(),
        ensures
            match self.lookup(game@, mod_id) {
                Some(fl) => r == Some(&fl),
                None => r is None,
            },
    {
        match self.map.get(game, mod_id as u64) {
            Some(Some(fl)) => Some(fl),
            _ => None,
        }
    }
}

/// The file a mod's file list is stored in, `<mod id>.json`, stands for that
/// mod id when the file list directory is read back.
pub proof fn lemma_stored_name_gives_mod_id(mod_id: u32)
    ensures
        spec_file_list_key(json_name(decimal(mod_id as nat)), true) == Some(mod_id),
{
    let d = decimal(mod_id as nat);
    let name = json_name(d);
    lemma_decimal_digits(mod_id as nat);
    lemma_parse_decimal(mod_id as u64);
    reveal_strlit(".json");
    reveal_strlit("json");
    let k = d.len() as int;
    assert(name[k] == '.');
    assert(name != seq!['.', '.']) by {
        if name == seq!['.', '.'] {
            assert(name.len() == 2);
        }
    }
    let i = choose|i: int|
        0 < i < name.len() && name[i] == '.' && forall|j: int| i < j < name.len() ==> name[j] != '.';
    assert(i == k) by {
        if i < k {
            assert(name[i] == d[i]);
        } else if i > k {
            assert(name[i] == ".json"@[i - k]);
        }
    }
    assert(name.skip(i + 1) =~= "json"@);
    assert(name.take(name.len() - 5) =~= d);
}

} // verus!
