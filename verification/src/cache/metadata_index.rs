//! The index of what is known of each mod file: by file id, by the name of
//! an archive of it, and by game and mod with the file ids in ascending order, as the
//! update check reads them.
use super::archive_files::ArchiveEntry;
use super::local_file::UpdateStatus;
use super::indexed::{
    has_key, key_index, keys_ascending, map_get, mod_entries, mods_get, mods_insert, mods_insert_sorted,
    mods_new, sorted_position, is_sorted_slot,
};
use indexmap::IndexMap;
use super::modfile_metadata::{installed_removed, put_archive, put_dir, ModFileMetadata};
use crate::api::{FileDetails, ModInfo};
use crate::install::installed_mod::InstalledMod;
use crate::text::str_eq;
use std::collections::HashMap;
use vstd::prelude::*;

verus! {

broadcast use vstd::std_specs::hash::group_hash_axioms;

/// The mods of one game: each mod id with the ids of its known files, in
/// ascending order and each once; the mod ids in ascending order.
pub struct GameMods {
    pub game: String,
    pub mods: IndexMap<u32, Vec<u64>>,
}

/// `s` rises strictly: ascending, with no id twice.
pub open spec fn ascending(s: Seq<u64>) -> bool {
    forall|i: int, j: int| 0 <= i < j < s.len() ==> s[i] < s[j]
}

/// The mods are in strictly ascending order of mod id, and the files of each
/// in strictly ascending order.
pub open spec fn mods_ordered(ms: Seq<(u32, Seq<u64>)>) -> bool {
    &&& keys_ascending(ms)
    &&& forall|i: int| 0 <= i < ms.len() ==> ascending(#[trigger] ms[i].1)
}

/// No game is listed twice, and the mods of each are ordered.
pub open spec fn games_ordered(gs: Seq<GameMods>) -> bool {
    &&& forall|i: int, j: int| 0 <= i < gs.len() && 0 <= j < gs.len() && i != j ==> gs[i].game@ != gs[j].game@
    &&& forall|i: int| 0 <= i < gs.len() ==> mods_ordered(mod_entries(#[trigger] gs[i].mods))
}

/// No archive name is listed twice.
pub open spec fn names_distinct(ns: Seq<(String, u64)>) -> bool {
    forall|i: int, j: int| 0 <= i < ns.len() && 0 <= j < ns.len() && i != j ==> ns[i].0@ != ns[j].0@
}

/// The file id listed under the archive name `name`.
pub open spec fn archive_lookup(ns: Seq<(String, u64)>, name: Seq<char>) -> Option<u64> {
    if exists|i: int| 0 <= i < ns.len() && (#[trigger] ns[i]).0@ == name {
        Some(ns[choose|i: int| 0 <= i < ns.len() && (#[trigger] ns[i]).0@ == name].1)
    } else {
        None
    }
}

/// The mods listed under the game `game`.
pub open spec fn game_lookup(gs: Seq<GameMods>, game: Seq<char>) -> Option<Seq<(u32, Seq<u64>)>> {
    if exists|i: int| 0 <= i < gs.len() && (#[trigger] gs[i]).game@ == game {
        Some(mod_entries(gs[choose|i: int| 0 <= i < gs.len() && (#[trigger] gs[i]).game@ == game].mods))
    } else {
        None
    }
}

/// The file ids listed under the mod `mod_id`.
pub open spec fn mod_lookup(ms: Seq<(u32, Seq<u64>)>, mod_id: u32) -> Option<Seq<u64>> {
    map_get(ms, mod_id)
}

/// The file ids listed under `game` and `mod_id`.
pub open spec fn files_lookup(gs: Seq<GameMods>, game: Seq<char>, mod_id: u32) -> Option<Seq<u64>> {
    match game_lookup(gs, game) {
        Some(ms) => mod_lookup(ms, mod_id),
        None => None,
    }
}

/// `i` is where `x` goes into the ascending `s`: after every smaller id,
/// before the rest.
pub open spec fn is_insertion_point(s: Seq<u64>, x: u64, i: int) -> bool {
    &&& 0 <= i <= s.len()
    &&& forall|j: int| 0 <= j < i ==> #[trigger] s[j] < x
    &&& i < s.len() ==> !(s[i] < x)
}

/// The ascending `s` with `x` in it: unchanged when `x` is there, else with
/// `x` put in after every smaller id and before the rest.
pub open spec fn insert_asc(s: Seq<u64>, x: u64) -> Seq<u64> {
    if s.contains(x) {
        s
    } else {
        s.insert(choose|i: int| is_insertion_point(s, x, i), x)
    }
}

/// `s` with its first `x` taken out, if it has one.
pub open spec fn remove_first(s: Seq<u64>, x: u64) -> Seq<u64> {
    if s.contains(x) {
        s.remove(
            choose|i: int|
                0 <= i < s.len() && s[i] == x && forall|j: int| 0 <= j < i ==> #[trigger] s[j] != x,
        )
    } else {
        s
    }
}

/// The list of a mod after `file_id` was added to it.
pub open spec fn with_file(old_files: Option<Seq<u64>>, file_id: u64) -> Seq<u64> {
    match old_files {
        Some(s) => insert_asc(s, file_id),
        None => seq![file_id],
    }
}

proof fn lemma_archive_lookup(ns: Seq<(String, u64)>, i: int)
    requires
        names_distinct(ns),
        0 <= i < ns.len(),
    ensures
        archive_lookup(ns, ns[i].0@) == Some(ns[i].1),
{
    let name = ns[i].0@;
    assert(ns[i].0@ == name);
    let k = choose|k: int| 0 <= k < ns.len() && (#[trigger] ns[k]).0@ == name;
    assert(k == i);
}

proof fn lemma_game_lookup(gs: Seq<GameMods>, i: int)
    requires
        games_ordered(gs),
        0 <= i < gs.len(),
    ensures
        game_lookup(gs, gs[i].game@) == Some(mod_entries(gs[i].mods)),
{
    let game = gs[i].game@;
    assert(gs[i].game@ == game);
    let k = choose|k: int| 0 <= k < gs.len() && (#[trigger] gs[k]).game@ == game;
    assert(k == i);
}

proof fn lemma_mod_lookup(ms: Seq<(u32, Seq<u64>)>, i: int)
    requires
        keys_ascending(ms),
        0 <= i < ms.len(),
    ensures
        mod_lookup(ms, ms[i].0) == Some(ms[i].1),
        key_index(ms, ms[i].0) == i,
{
    let m = ms[i].0;
    assert(ms[i].0 == m);
    let k = choose|k: int| 0 <= k < ms.len() && (#[trigger] ms[k]).0 == m;
    assert(k == i) by {
        if k < i {
            assert(ms[k].0 < ms[i].0);
        } else if k > i {
            assert(ms[i].0 < ms[k].0);
        }
    }
}

proof fn lemma_sorted_position(ms: Seq<(u32, Seq<u64>)>, k: u32)
    ensures
        is_sorted_slot(ms, k, sorted_position(ms, k)),
    decreases ms.len(),
{
    if ms.len() == 0 || ms[0].0 >= k {
        assert(is_sorted_slot(ms, k, 0));
    } else {
        let t = ms.drop_first();
        lemma_sorted_position(t, k);
        let p = sorted_position(t, k);
        assert forall|j: int| 0 <= j < p + 1 implies (#[trigger] ms[j]).0 < k by {
            if j > 0 {
                assert(ms[j] == t[j - 1]);
            }
        }
        if p < t.len() {
            assert(ms[p + 1] == t[p]);
        }
        assert(is_sorted_slot(ms, k, p + 1));
    }
}

proof fn lemma_insert_asc(s: Seq<u64>, x: u64, i: int)
    requires
        ascending(s),
        is_insertion_point(s, x, i),
        !(i < s.len() && s[i] == x),
    ensures
        !s.contains(x),
        insert_asc(s, x) == s.insert(i, x),
        ascending(s.insert(i, x)),
{
    assert(!s.contains(x)) by {
        if s.contains(x) {
            let a = choose|a: int| 0 <= a < s.len() && s[a] == x;
            if a < i {
                assert(s[a] < x);
            } else if a > i {
                assert(s[i] < s[a]);
                assert(!(s[i] < x));
            }
        }
    }
    let k = choose|k: int| is_insertion_point(s, x, k);
    assert(is_insertion_point(s, x, k));
    assert(k == i) by {
        if k < i {
            assert(s[k] < x);
        } else if k > i {
            assert(s[i] < x);
        }
    }
    let t = s.insert(i, x);
    assert forall|a: int, b: int| 0 <= a < b < t.len() implies t[a] < t[b] by {
        if b < i {
        } else if b == i {
            assert(s[a] < x);
        } else if a < i {
            assert(s[a] < x);
            assert(!(s[i] < x));
            if b - 1 > i {
                assert(s[i] < s[b - 1]);
            }
        } else if a == i {
            assert(!(s[i] < x));
            assert(s[i] != x);
            if b - 1 > i {
                assert(s[i] < s[b - 1]);
            }
        } else {
            assert(s[a - 1] < s[b - 1]);
        }
    }
}

proof fn lemma_remove_first(s: Seq<u64>, x: u64, i: int)
    requires
        ascending(s),
        0 <= i < s.len(),
        s[i] == x,
        forall|j: int| 0 <= j < i ==> s[j] != x,
    ensures
        remove_first(s, x) == s.remove(i),
        ascending(s.remove(i)),
{
    assert(s.contains(x));
    let k = choose|k: int|
        0 <= k < s.len() && s[k] == x && forall|j: int| 0 <= j < k ==> #[trigger] s[j] != x;
    assert(k == i) by {
        if k < i {
            assert(s[k] != x);
        } else if k > i {
            assert(s[i] != x);
        }
    }
    let t = s.remove(i);
    assert forall|a: int, b: int| 0 <= a < b < t.len() implies t[a] < t[b] by {
        if b < i {
        } else if a < i {
            assert(s[a] < s[b + 1]);
        } else {
            assert(s[a + 1] < s[b + 1]);
        }
    }
}

/// The position of the archive name `name`, if it is listed.
fn archive_pos(ns: &Vec<(String, u64)>, name: &String) -> (r: Option<usize>)
    ensures
        match r {
            Some(i) => i < ns@.len() && ns@[i as int].0@ == name@,
            None => forall|j: int| 0 <= j < ns@.len() ==> (#[trigger] ns@[j]).0@ != name@,
        },
{
    let mut i: usize = 0;
    while i < ns.len()
        invariant
            i <= ns@.len(),
            forall|j: int| 0 <= j < i ==> (#[trigger] ns@[j]).0@ != name@,
        decreases ns@.len() - i,
    {
        if ns[i].0 == *name {
            return Some(i);
        }
        i = i + 1;
    }
    None
}

/// Lists `file_id` under the archive name `name`.
fn put_archive_name(ns: &mut Vec<(String, u64)>, name: String, file_id: u64)
    requires
        names_distinct(old(ns)@),
    ensures
        names_distinct(final(ns)@),
        forall|n: Seq<char>|
            #[trigger] archive_lookup(final(ns)@, n) == if n == name@ {
                Some(file_id)
            } else {
                archive_lookup(old(ns)@, n)
            },
{
    let ghost before = ns@;
    let ghost nm = name@;
    match archive_pos(ns, &name) {
        Some(p) => {
            ns.set(p, (name, file_id));
            proof {
                let after = ns@;
                assert forall|n: Seq<char>|
                    #[trigger] archive_lookup(after, n) == if n == nm {
                        Some(file_id)
                    } else {
                        archive_lookup(before, n)
                    } by {
                    if n == nm {
                        lemma_archive_lookup(after, p as int);
                    } else if exists|i: int| 0 <= i < before.len() && (#[trigger] before[i]).0@ == n {
                        let i = choose|i: int| 0 <= i < before.len() && (#[trigger] before[i]).0@ == n;
                        lemma_archive_lookup(before, i);
                        lemma_archive_lookup(after, i);
                    } else {
                        assert(!exists|i: int| 0 <= i < after.len() && (#[trigger] after[i]).0@ == n) by {
                            if exists|i: int| 0 <= i < after.len() && (#[trigger] after[i]).0@ == n {
                                let i = choose|i: int| 0 <= i < after.len() && (#[trigger] after[i]).0@ == n;
                                assert(before[i].0@ == n);
                            }
                        }
                    }
                }
            }
        },
        None => {
            ns.push((name, file_id));
            proof {
                let after = ns@;
                assert(names_distinct(after));
                assert forall|n: Seq<char>|
                    #[trigger] archive_lookup(after, n) == if n == nm {
                        Some(file_id)
                    } else {
                        archive_lookup(before, n)
                    } by {
                    if n == nm {
                        lemma_archive_lookup(after, before.len() as int);
                    } else if exists|i: int| 0 <= i < before.len() && (#[trigger] before[i]).0@ == n {
                        let i = choose|i: int| 0 <= i < before.len() && (#[trigger] before[i]).0@ == n;
                        lemma_archive_lookup(before, i);
                        lemma_archive_lookup(after, i);
                    } else {
                        assert(!exists|i: int| 0 <= i < after.len() && (#[trigger] after[i]).0@ == n) by {
                            if exists|i: int| 0 <= i < after.len() && (#[trigger] after[i]).0@ == n {
                                let i = choose|i: int| 0 <= i < after.len() && (#[trigger] after[i]).0@ == n;
                                assert(before[i].0@ == n);
                            }
                        }
                    }
                }
            }
        },
    }
}

/// Where `x` goes into the ascending `ids`.
fn insertion_index(ids: &Vec<u64>, x: u64) -> (r: usize)
    ensures
        is_insertion_point(ids@, x, r as int),
{
    let mut i: usize = 0;
    while i < ids.len() && ids[i] < x
        invariant
            i <= ids@.len(),
            forall|j: int| 0 <= j < i ==> #[trigger] ids@[j] < x,
        decreases ids@.len() - i,
    {
        i = i + 1;
    }
    i
}

/// Adds `file_id` to the files of `mod_id`, keeping the order: into the
/// mod's list when the mod is known, else as a new mod at its sorted place.
fn add_file_to_mods(ms: &mut IndexMap<u32, Vec<u64>>, mod_id: u32, file_id: u64)
    requires
        mods_ordered(mod_entries(*old(ms))),
    ensures
        mods_ordered(mod_entries(*final(ms))),
        forall|m: u32|
            #[trigger] mod_lookup(mod_entries(*final(ms)), m) == if m == mod_id {
                Some(with_file(mod_lookup(mod_entries(*old(ms)), mod_id), file_id))
            } else {
                mod_lookup(mod_entries(*old(ms)), m)
            },
{
    let ghost before = mod_entries(*ms);
    let found = match mods_get(ms, mod_id) {
        Some(v) => Some(v.clone()),
        None => None,
    };
    match found {
        Some(v) => {
            let mut ids = v;
            let ghost s = ids@;
            let ghost k = key_index(before, mod_id);
            proof {
                assert(ids@ =~= map_get(before, mod_id)->0);
                assert(has_key(before, mod_id));
                assert(0 <= k < before.len() && before[k].0 == mod_id);
                lemma_mod_lookup(before, k);
                assert(ascending(before[k].1));
            }
            let i = insertion_index(&ids, file_id);
            if i < ids.len() && ids[i] == file_id {
                proof {
                    assert(s.contains(file_id)) by {
                        assert(s[i as int] == file_id);
                    }
                }
            } else {
                ids.insert(i, file_id);
                proof {
                    lemma_insert_asc(s, file_id, i as int);
                }
            }
            let ghost new_ids = ids@;
            mods_insert(ms, mod_id, ids);
            proof {
                let after = mod_entries(*ms);
                assert(after == before.update(k, (mod_id, new_ids)));
                assert(mods_ordered(after)) by {
                    assert forall|a: int, b: int| 0 <= a < b < after.len() implies after[a].0 < after[b].0 by {
                        assert(before[a].0 < before[b].0);
                    }
                    assert forall|a: int| 0 <= a < after.len() implies ascending(#[trigger] after[a].1) by {
                        if a != k {
                            assert(ascending(before[a].1));
                        }
                    }
                }
                assert forall|m: u32|
                    #[trigger] mod_lookup(after, m) == if m == mod_id {
                        Some(with_file(mod_lookup(before, mod_id), file_id))
                    } else {
                        mod_lookup(before, m)
                    } by {
                    if m == mod_id {
                        lemma_mod_lookup(after, k);
                    } else if has_key(before, m) {
                        let q = key_index(before, m);
                        lemma_mod_lookup(before, q);
                        lemma_mod_lookup(after, q);
                    } else {
                        assert(!has_key(after, m)) by {
                            if has_key(after, m) {
                                let q = key_index(after, m);
                                assert(before[q].0 == m);
                            }
                        }
                    }
                }
            }
        },
        None => {
            let mut ids: Vec<u64> = Vec::new();
            ids.push(file_id);
            let ghost new_ids = ids@;
            mods_insert_sorted(ms, mod_id, ids);
            proof {
                let after = mod_entries(*ms);
                let p = sorted_position(before, mod_id);
                lemma_sorted_position(before, mod_id);
                assert(!has_key(before, mod_id));
                assert(after == before.insert(p, (mod_id, new_ids)));
                assert(new_ids =~= seq![file_id]);
                assert(p < before.len() ==> before[p].0 > mod_id) by {
                    if p < before.len() && before[p].0 == mod_id {
                        assert(has_key(before, mod_id));
                    }
                }
                assert(mods_ordered(after)) by {
                    assert forall|a: int, b: int| 0 <= a < b < after.len() implies after[a].0 < after[b].0 by {
                        if b < p {
                        } else if b == p {
                        } else if a < p {
                            assert(before[a].0 < mod_id);
                            assert(before[p].0 <= before[b - 1].0);
                        } else if a == p {
                            assert(before[p].0 <= before[b - 1].0);
                        } else {
                            assert(before[a - 1].0 < before[b - 1].0);
                        }
                    }
                    assert forall|a: int| 0 <= a < after.len() implies ascending(#[trigger] after[a].1) by {
                        if a < p {
                            assert(ascending(before[a].1));
                        } else if a > p {
                            assert(ascending(before[a - 1].1));
                        }
                    }
                }
                assert forall|m: u32|
                    #[trigger] mod_lookup(after, m) == if m == mod_id {
                        Some(with_file(mod_lookup(before, mod_id), file_id))
                    } else {
                        mod_lookup(before, m)
                    } by {
                    if m == mod_id {
                        assert(after[p] == (mod_id, new_ids));
                        lemma_mod_lookup(after, p);
                    } else if has_key(before, m) {
                        let q = key_index(before, m);
                        lemma_mod_lookup(before, q);
                        if q < p {
                            lemma_mod_lookup(after, q);
                        } else {
                            assert(after[q + 1] == before[q]);
                            lemma_mod_lookup(after, q + 1);
                        }
                    } else {
                        assert(!has_key(after, m)) by {
                            if has_key(after, m) {
                                let q = key_index(after, m);
                                if q < p {
                                    assert(before[q].0 == m);
                                } else if q > p {
                                    assert(before[q - 1].0 == m);
                                }
                            }
                        }
                    }
                }
            }
        },
    }
}

/// The position of `game`, if it is listed.
fn game_pos(gs: &Vec<GameMods>, game: &str) -> (r: Option<usize>)
    ensures
        match r {
            Some(i) => i < gs@.len() && gs@[i as int].game@ == game@,
            None => forall|j: int| 0 <= j < gs@.len() ==> (#[trigger] gs@[j]).game@ != game@,
        },
{
    let mut i: usize = 0;
    while i < gs.len()
        invariant
            i <= gs@.len(),
            forall|j: int| 0 <= j < i ==> (#[trigger] gs@[j]).game@ != game@,
        decreases gs@.len() - i,
    {
        if str_eq(gs[i].game.as_str(), game) {
            return Some(i);
        }
        i = i + 1;
    }
    None
}

/// Replacing the mods of the game at `p` changes only what is listed under that game.
proof fn lemma_games_update(before: Seq<GameMods>, after: Seq<GameMods>, p: int)
    requires
        games_ordered(before),
        games_ordered(after),
        0 <= p < before.len(),
        after.len() == before.len(),
        after[p].game@ == before[p].game@,
        forall|k: int| 0 <= k < before.len() && k != p ==> after[k] == before[k],
    ensures
        forall|g: Seq<char>|
            #[trigger] game_lookup(after, g) == if g == before[p].game@ {
                Some(mod_entries(after[p].mods))
            } else {
                game_lookup(before, g)
            },
{
    assert forall|g: Seq<char>|
        #[trigger] game_lookup(after, g) == if g == before[p].game@ {
            Some(mod_entries(after[p].mods))
        } else {
            game_lookup(before, g)
        } by {
        if g == before[p].game@ {
            lemma_game_lookup(after, p);
        } else if exists|k: int| 0 <= k < before.len() && (#[trigger] before[k]).game@ == g {
            let k = choose|k: int| 0 <= k < before.len() && (#[trigger] before[k]).game@ == g;
            lemma_game_lookup(before, k);
            lemma_game_lookup(after, k);
        } else {
            assert(!exists|k: int| 0 <= k < after.len() && (#[trigger] after[k]).game@ == g) by {
                if exists|k: int| 0 <= k < after.len() && (#[trigger] after[k]).game@ == g {
                    let k = choose|k: int| 0 <= k < after.len() && (#[trigger] after[k]).game@ == g;
                    assert(before[k].game@ == g);
                }
            }
        }
    }
}

/// Adds `file_id` to the files of `mod_id` of `game`, keeping the order.
fn add_file_to_games(gs: &mut Vec<GameMods>, game: String, mod_id: u32, file_id: u64)
    requires
        games_ordered(old(gs)@),
    ensures
        games_ordered(final(gs)@),
        forall|g: Seq<char>, m: u32|
            #[trigger] files_lookup(final(gs)@, g, m) == if g == game@ && m == mod_id {
                Some(with_file(files_lookup(old(gs)@, g, m), file_id))
            } else {
                files_lookup(old(gs)@, g, m)
            },
{
    let ghost before = gs@;
    let ghost gname = game@;
    match game_pos(gs, game.as_str()) {
        Some(p) => {
            let mut gm = gs.remove(p);
            let ghost old_mods = mod_entries(gm.mods);
            add_file_to_mods(&mut gm.mods, mod_id, file_id);
            let ghost new_mods = mod_entries(gm.mods);
            gs.insert(p, gm);
            proof {
                let after = gs@;
                assert(after =~= before.update(p as int, gm));
                assert(games_ordered(after)) by {
                    assert forall|i: int| 0 <= i < after.len() implies mods_ordered(mod_entries(#[trigger] after[i].mods)) by {
                        if i != p {
                            assert(mods_ordered(mod_entries(before[i].mods)));
                        }
                    }
                }
                lemma_games_update(before, after, p as int);
                lemma_game_lookup(before, p as int);
                assert forall|g: Seq<char>, m: u32|
                    #[trigger] files_lookup(after, g, m) == if g == gname && m == mod_id {
                        Some(with_file(files_lookup(before, g, m), file_id))
                    } else {
                        files_lookup(before, g, m)
                    } by {
                    assert(game_lookup(after, g) == if g == gname {
                        Some(new_mods)
                    } else {
                        game_lookup(before, g)
                    });
                    if g == gname {
                        assert(mod_lookup(new_mods, m) == if m == mod_id {
                            Some(with_file(mod_lookup(old_mods, mod_id), file_id))
                        } else {
                            mod_lookup(old_mods, m)
                        });
                    }
                }
            }
        },
        None => {
            let mut mods = mods_new();
            let mut ids: Vec<u64> = Vec::new();
            ids.push(file_id);
            let ghost ids_v = ids@;
            mods_insert(&mut mods, mod_id, ids);
            let ghost new_mods = mod_entries(mods);
            proof {
                assert(new_mods =~= seq![(mod_id, ids_v)]);
                assert(ids_v =~= seq![file_id]);
                assert(mods_ordered(new_mods));
                lemma_mod_lookup(new_mods, 0);
                assert forall|m: u32| m != mod_id implies #[trigger] mod_lookup(new_mods, m) is None by {
                    if has_key(new_mods, m) {
                        let q = key_index(new_mods, m);
                        assert(q == 0);
                    }
                }
            }
            let gm = GameMods { game, mods };
            gs.push(gm);
            proof {
                let after = gs@;
                let n = before.len() as int;
                assert(after[n] == gm);
                assert(games_ordered(after)) by {
                    assert forall|i: int| 0 <= i < after.len() implies mods_ordered(mod_entries(#[trigger] after[i].mods)) by {
                        if i < n {
                            assert(mods_ordered(mod_entries(before[i].mods)));
                        }
                    }
                }
                assert forall|g: Seq<char>| #[trigger] game_lookup(after, g) == if g == gname {
                    Some(new_mods)
                } else {
                    game_lookup(before, g)
                } by {
                    if g == gname {
                        lemma_game_lookup(after, n);
                        assert(!exists|k: int| 0 <= k < before.len() && (#[trigger] before[k]).game@ == g);
                    } else if exists|k: int| 0 <= k < before.len() && (#[trigger] before[k]).game@ == g {
                        let k = choose|k: int| 0 <= k < before.len() && (#[trigger] before[k]).game@ == g;
                        lemma_game_lookup(before, k);
                        lemma_game_lookup(after, k);
                    } else {
                        assert(!exists|k: int| 0 <= k < after.len() && (#[trigger] after[k]).game@ == g) by {
                            if exists|k: int| 0 <= k < after.len() && (#[trigger] after[k]).game@ == g {
                                let k = choose|k: int| 0 <= k < after.len() && (#[trigger] after[k]).game@ == g;
                                if k < n {
                                    assert(before[k].game@ == g);
                                }
                            }
                        }
                    }
                }
                assert forall|g: Seq<char>, m: u32|
                    #[trigger] files_lookup(after, g, m) == if g == gname && m == mod_id {
                        Some(with_file(files_lookup(before, g, m), file_id))
                    } else {
                        files_lookup(before, g, m)
                    } by {
                    assert(game_lookup(after, g) == if g == gname {
                        Some(new_mods)
                    } else {
                        game_lookup(before, g)
                    });
                    if g == gname {
                        assert(files_lookup(before, g, m) is None);
                        if m == mod_id {
                            assert(mod_lookup(new_mods, m) == Some(seq![file_id]));
                        } else {
                            assert(mod_lookup(new_mods, m) is None);
                        }
                    }
                }
            }
        },
    }
}

/// The list of a mod after `file_id` was taken out of it.
pub open spec fn without_file(old_files: Option<Seq<u64>>, file_id: u64) -> Option<Seq<u64>> {
    match old_files {
        Some(s) => Some(remove_first(s, file_id)),
        None => None,
    }
}

/// The first position of `x`, if any.
fn first_pos(ids: &Vec<u64>, x: u64) -> (r: Option<usize>)
    ensures
        match r {
            Some(i) => i < ids@.len() && ids@[i as int] == x && forall|j: int|
                0 <= j < i ==> #[trigger] ids@[j] != x,
            None => !ids@.contains(x),
        },
{
    let mut i: usize = 0;
    while i < ids.len()
        invariant
            i <= ids@.len(),
            forall|j: int| 0 <= j < i ==> #[trigger] ids@[j] != x,
        decreases ids@.len() - i,
    {
        if ids[i] == x {
            return Some(i);
        }
        i = i + 1;
    }
    None
}

/// Takes the first `file_id` out of the files of `mod_id`.
fn remove_file_from_mods(ms: &mut IndexMap<u32, Vec<u64>>, mod_id: u32, file_id: u64)
    requires
        mods_ordered(mod_entries(*old(ms))),
    ensures
        mods_ordered(mod_entries(*final(ms))),
        forall|m: u32|
            #[trigger] mod_lookup(mod_entries(*final(ms)), m) == if m == mod_id {
                without_file(mod_lookup(mod_entries(*old(ms)), mod_id), file_id)
            } else {
                mod_lookup(mod_entries(*old(ms)), m)
            },
{
    let ghost before = mod_entries(*ms);
    let found = match mods_get(ms, mod_id) {
        Some(v) => Some(v.clone()),
        None => None,
    };
    if let Some(v) = found {
        let mut ids = v;
        let ghost s = ids@;
        let ghost k = key_index(before, mod_id);
        proof {
            assert(ids@ =~= map_get(before, mod_id)->0);
            assert(has_key(before, mod_id));
            lemma_mod_lookup(before, k);
            assert(ascending(before[k].1));
        }
        match first_pos(&ids, file_id) {
            Some(i) => {
                ids.remove(i);
                proof {
                    lemma_remove_first(s, file_id, i as int);
                }
            },
            None => {},
        }
        let ghost new_ids = ids@;
        proof {
            assert(new_ids == remove_first(s, file_id));
        }
        mods_insert(ms, mod_id, ids);
        proof {
            let after = mod_entries(*ms);
            assert(after == before.update(k, (mod_id, new_ids)));
            assert(mods_ordered(after)) by {
                assert forall|a: int, b: int| 0 <= a < b < after.len() implies after[a].0 < after[b].0 by {
                    assert(before[a].0 < before[b].0);
                }
                assert forall|a: int| 0 <= a < after.len() implies ascending(#[trigger] after[a].1) by {
                    if a != k {
                        assert(ascending(before[a].1));
                    }
                }
            }
            assert forall|m: u32|
                #[trigger] mod_lookup(after, m) == if m == mod_id {
                    without_file(mod_lookup(before, mod_id), file_id)
                } else {
                    mod_lookup(before, m)
                } by {
                if m == mod_id {
                    lemma_mod_lookup(after, k);
                } else if has_key(before, m) {
                    let q = key_index(before, m);
                    lemma_mod_lookup(before, q);
                    lemma_mod_lookup(after, q);
                } else {
                    assert(!has_key(after, m)) by {
                        if has_key(after, m) {
                            let q = key_index(after, m);
                            assert(before[q].0 == m);
                        }
                    }
                }
            }
        }
    }
}

/// Takes the first `file_id` out of the files of `mod_id` of `game`.
fn remove_file_from_games(gs: &mut Vec<GameMods>, game: &String, mod_id: u32, file_id: u64)
    requires
        games_ordered(old(gs)@),
    ensures
        games_ordered(final(gs)@),
        forall|g: Seq<char>, m: u32|
            #[trigger] files_lookup(final(gs)@, g, m) == if g == game@ && m == mod_id {
                without_file(files_lookup(old(gs)@, g, m), file_id)
            } else {
                files_lookup(old(gs)@, g, m)
            },
{
    let ghost before = gs@;
    let ghost gname = game@;
    match game_pos(gs, game.as_str()) {
        Some(p) => {
            let mut gm = gs.remove(p);
            let ghost old_mods = mod_entries(gm.mods);
            remove_file_from_mods(&mut gm.mods, mod_id, file_id);
            let ghost new_mods = mod_entries(gm.mods);
            gs.insert(p, gm);
            proof {
                let after = gs@;
                assert(after =~= before.update(p as int, gm));
                assert(games_ordered(after)) by {
                    assert forall|i: int| 0 <= i < after.len() implies mods_ordered(mod_entries(#[trigger] after[i].mods)) by {
                        if i != p {
                            assert(mods_ordered(mod_entries(before[i].mods)));
                        }
                    }
                }
                lemma_games_update(before, after, p as int);
                lemma_game_lookup(before, p as int);
                assert forall|g: Seq<char>, m: u32|
                    #[trigger] files_lookup(after, g, m) == if g == gname && m == mod_id {
                        without_file(files_lookup(before, g, m), file_id)
                    } else {
                        files_lookup(before, g, m)
                    } by {
                    assert(game_lookup(after, g) == if g == gname {
                        Some(new_mods)
                    } else {
                        game_lookup(before, g)
                    });
                    if g == gname {
                        assert(mod_lookup(new_mods, m) == if m == mod_id {
                            without_file(mod_lookup(old_mods, mod_id), file_id)
                        } else {
                            mod_lookup(old_mods, m)
                        });
                    }
                }
            }
        },
        None => {
            proof {
                assert(forall|g: Seq<char>| g == gname ==> game_lookup(before, g) is None);
            }
        },
    }
}

proof fn lemma_insertion_point_exists(s: Seq<u64>, x: u64)
    ensures
        exists|i: int| is_insertion_point(s, x, i),
    decreases s.len(),
{
    if s.len() == 0 || !(s[0] < x) {
        assert(is_insertion_point(s, x, 0));
    } else {
        let t = s.drop_first();
        lemma_insertion_point_exists(t, x);
        let i = choose|i: int| is_insertion_point(t, x, i);
        assert forall|j: int| 0 <= j < i + 1 implies #[trigger] s[j] < x by {
            if j > 0 {
                assert(s[j] == t[j - 1]);
            }
        }
        if i < t.len() {
            assert(s[i + 1] == t[i]);
        }
        assert(is_insertion_point(s, x, i + 1));
    }
}

proof fn lemma_insert_asc_contains(s: Seq<u64>, x: u64, k: u64)
    requires
        s.contains(k) || k == x,
    ensures
        insert_asc(s, x).contains(k),
{
    if !s.contains(x) {
        lemma_insertion_point_exists(s, x);
        let i = choose|i: int| is_insertion_point(s, x, i);
        let t = s.insert(i, x);
        if k == x {
            assert(t[i] == x);
        } else {
            let a = choose|a: int| 0 <= a < s.len() && s[a] == k;
            if a < i {
                assert(t[a] == k);
            } else {
                assert(t[a + 1] == k);
            }
        }
    }
}

proof fn lemma_first_index_exists(s: Seq<u64>, x: u64)
    requires
        s.contains(x),
    ensures
        exists|i: int| 0 <= i < s.len() && s[i] == x && forall|j: int| 0 <= j < i ==> #[trigger] s[j] != x,
    decreases s.len(),
{
    if s[0] == x {
        assert(0 < s.len() && s[0] == x && forall|j: int| 0 <= j < 0 ==> #[trigger] s[j] != x);
    } else {
        let t = s.drop_first();
        let a = choose|a: int| 0 <= a < s.len() && s[a] == x;
        assert(t[a - 1] == x);
        lemma_first_index_exists(t, x);
        let i = choose|i: int| 0 <= i < t.len() && t[i] == x && forall|j: int| 0 <= j < i ==> #[trigger] t[j] != x;
        assert forall|j: int| 0 <= j < i + 1 implies #[trigger] s[j] != x by {
            if j > 0 {
                assert(s[j] == t[j - 1]);
            }
        }
        assert(s[i + 1] == x);
    }
}

proof fn lemma_remove_first_contains(s: Seq<u64>, x: u64, k: u64)
    requires
        s.contains(k),
        k != x,
    ensures
        remove_first(s, x).contains(k),
{
    if s.contains(x) {
        lemma_first_index_exists(s, x);
        let i = choose|i: int|
            0 <= i < s.len() && s[i] == x && forall|j: int| 0 <= j < i ==> #[trigger] s[j] != x;
        let t = s.remove(i);
        let a = choose|a: int| 0 <= a < s.len() && s[a] == k;
        if a < i {
            assert(t[a] == k);
        } else {
            assert(a != i);
            assert(t[a - 1] == k);
        }
    }
}

/// Whether `v` is listed under its game and mod.
pub open spec fn listed(gs: Seq<GameMods>, v: ModFileMetadata) -> bool {
    match files_lookup(gs, v.game@, v.mod_id) {
        Some(s) => s.contains(v.file_id),
        None => false,
    }
}

/// What is known now, or else what was found.
pub open spec fn fill<T>(current: Option<T>, found: Option<T>) -> Option<T> {
    if current is None {
        found
    } else {
        current
    }
}

/// The text of an optional name.
pub open spec fn name_view(n: Option<String>) -> Option<Seq<char>> {
    match n {
        Some(s) => Some(s@),
        None => None,
    }
}

/// What is known of the mod files: by file id, by the name of an archive,
/// and by game and mod with the file ids in ascending order, each once.
pub struct MetadataIndex {
    by_file_id: HashMap<u64, ModFileMetadata>,
    by_archive_name: Vec<(String, u64)>,
    by_game_and_mod_sorted: Vec<GameMods>,
}

impl MetadataIndex {
    /// The records, by file id.
    pub closed spec fn files(self) -> Map<u64, ModFileMetadata> {
        self.by_file_id@
    }

    /// The file id listed under the archive name `name`.
    pub closed spec fn archive_file_id(self, name: Seq<char>) -> Option<u64> {
        archive_lookup(self.by_archive_name@, name)
    }

    /// The file ids listed under `game` and `mod_id`, in ascending order.
    pub closed spec fn modfiles(self, game: Seq<char>, mod_id: u32) -> Option<Seq<u64>> {
        files_lookup(self.by_game_and_mod_sorted@, game, mod_id)
    }

    /// Every record is stored under its own file id and listed under its game
    /// and mod; no archive name or game is listed twice; mods are in ascending
    /// order and the files of each in strictly ascending order.
    pub closed spec fn well_formed(self) -> bool {
        &&& names_distinct(self.by_archive_name@)
        &&& games_ordered(self.by_game_and_mod_sorted@)
        &&& forall|k: u64| #[trigger]
            self.by_file_id@.contains_key(k) ==> self.by_file_id@[k].file_id == k && listed(
                self.by_game_and_mod_sorted@,
                self.by_file_id@[k],
            )
    }

    /// `self` is `prev` with the record `m` added: stored under its file id,
    /// listed under `archive_name` if there is one, and put among the files of
    /// its game and mod.
    pub open spec fn added(self, prev: Self, archive_name: Option<Seq<char>>, m: ModFileMetadata) -> bool {
        &&& self.files() == prev.files().insert(m.file_id, m)
        &&& forall|n: Seq<char>|
            #[trigger] self.archive_file_id(n) == if archive_name == Some(n) {
                Some(m.file_id)
            } else {
                prev.archive_file_id(n)
            }
        &&& forall|g: Seq<char>, mo: u32|
            #[trigger] self.modfiles(g, mo) == if g == m.game@ && mo == m.mod_id {
                Some(with_file(prev.modfiles(g, mo), m.file_id))
            } else {
                prev.modfiles(g, mo)
            }
    }

    /// An empty index.
    pub fn new() -> (r: Self)
        ensures
            r.well_formed(),
            r.files() == Map::<u64, ModFileMetadata>::empty(),
            forall|n: Seq<char>| #[trigger] r.archive_file_id(n) is None,
            forall|g: Seq<char>, mo: u32| #[trigger] r.modfiles(g, mo) is None,
    {
        MetadataIndex {
            by_file_id: HashMap::new(),
            by_archive_name: Vec::new(),
            by_game_and_mod_sorted: Vec::new(),
        }
    }

    /// Adds the record `mfdata`: under its file id, under `archive_name` if
    /// given, and among the files of its game and mod.
    pub fn add_to_collections(&mut self, archive_name: Option<String>, mfdata: ModFileMetadata)
        requires
            old(self).well_formed(),
        ensures
            final(self).well_formed(),
            final(self).added(*old(self), name_view(archive_name), mfdata),
    {
        let ghost prev = *self;
        let fid = mfdata.file_id;
        let ghost m = mfdata;
        let game = mfdata.game.clone();
        let mod_id = mfdata.mod_id;
        if let Some(name) = archive_name {
            put_archive_name(&mut self.by_archive_name, name, fid);
        }
        add_file_to_games(&mut self.by_game_and_mod_sorted, game, mod_id, fid);
        self.by_file_id.insert(fid, mfdata);
        proof {
            let gs0 = prev.by_game_and_mod_sorted@;
            let gs1 = self.by_game_and_mod_sorted@;
            assert forall|k: u64| #[trigger] self.by_file_id@.contains_key(k) implies self.by_file_id@[k].file_id
                == k && listed(gs1, self.by_file_id@[k]) by {
                let v = self.by_file_id@[k];
                if k == fid {
                    assert(files_lookup(gs1, m.game@, m.mod_id) == Some(
                        with_file(files_lookup(gs0, m.game@, m.mod_id), fid),
                    ));
                    match files_lookup(gs0, m.game@, m.mod_id) {
                        Some(s) => lemma_insert_asc_contains(s, fid, fid),
                        None => assert(seq![fid][0] == fid),
                    }
                } else {
                    assert(prev.by_file_id@.contains_key(k));
                    let s0 = files_lookup(gs0, v.game@, v.mod_id)->0;
                    assert(s0.contains(k));
                    if v.game@ == m.game@ && v.mod_id == m.mod_id {
                        lemma_insert_asc_contains(s0, fid, k);
                    }
                }
            }
            assert forall|n: Seq<char>|
                #[trigger] self.archive_file_id(n) == if name_view(archive_name) == Some(n) {
                    Some(fid)
                } else {
                    prev.archive_file_id(n)
                } by {
                if archive_name is None {
                    assert(self.by_archive_name@ == prev.by_archive_name@);
                }
            }
            assert forall|g: Seq<char>, mo: u32|
                #[trigger] self.modfiles(g, mo) == if g == m.game@ && mo == m.mod_id {
                    Some(with_file(prev.modfiles(g, mo), fid))
                } else {
                    prev.modfiles(g, mo)
                } by {
                assert(files_lookup(gs1, g, mo) == if g == m.game@ && mo == m.mod_id {
                    Some(with_file(files_lookup(gs0, g, mo), fid))
                } else {
                    files_lookup(gs0, g, mo)
                });
            }
        }
    }

    /// The record of `file_id`, if there is one.
    pub fn get_by_file_id(&self, file_id: u64) -> (r: Option<&ModFileMetadata>)
        ensures
            r == if self.files().contains_key(file_id) {
                Some(&self.files()[file_id])
            } else {
                None
            },
    {
        self.by_file_id.get(&file_id)
    }

    /// The file ids of mod `mod_id` of `game`, the smallest first, each once.
    pub fn get_modfiles(&self, game: &str, mod_id: u32) -> (r: Option<Vec<u64>>)
        requires
            self.well_formed(),
        ensures
            match r {
                Some(v) => self.modfiles(game@, mod_id) == Some(v@),
                None => self.modfiles(game@, mod_id) is None,
            },
    {
        let gs = &self.by_game_and_mod_sorted;
        match game_pos(gs, game) {
            Some(p) => {
                proof {
                    lemma_game_lookup(gs@, p as int);
                }
                match mods_get(&gs[p].mods, mod_id) {
                    Some(v) => {
                        let r = v.clone();
                        assert(r@ =~= v@);
                        Some(r)
                    },
                    None => None,
                }
            },
            None => None,
        }
    }

    /// The record of the file whose archive is named `name`, if there is one.
    pub fn get_by_archive_name(&self, name: &String) -> (r: Option<&ModFileMetadata>)
        requires
            self.well_formed(),
        ensures
            r == match self.archive_file_id(name@) {
                Some(id) => if self.files().contains_key(id) {
                    Some(&self.files()[id])
                } else {
                    None
                },
                None => None,
            },
    {
        match archive_pos(&self.by_archive_name, name) {
            Some(p) => {
                proof {
                    lemma_archive_lookup(self.by_archive_name@, p as int);
                }
                self.by_file_id.get(&self.by_archive_name[p].1)
            },
            None => None,
        }
    }

    /// Forgets the record of `file_id` when it is neither installed nor
    /// downloaded any more: it leaves the index by file id and the files of
    /// its game and mod. Archive names stay listed.
    pub fn delete_if_unreferenced(&mut self, file_id: u64)
        requires
            old(self).well_formed(),
        ensures
            final(self).well_formed(),
            forall|n: Seq<char>| #[trigger] final(self).archive_file_id(n) == old(self).archive_file_id(n),
            ({
                let f = old(self).files();
                if f.contains_key(file_id) && f[file_id].installed_mods@.len() == 0
                    && f[file_id].mod_archives@.len() == 0 {
                    &&& final(self).files() == f.remove(file_id)
                    &&& forall|g: Seq<char>, mo: u32|
                        #[trigger] final(self).modfiles(g, mo) == if g == f[file_id].game@ && mo
                            == f[file_id].mod_id {
                            without_file(old(self).modfiles(g, mo), file_id)
                        } else {
                            old(self).modfiles(g, mo)
                        }
                } else {
                    &&& final(self).files() == f
                    &&& forall|g: Seq<char>, mo: u32|
                        #[trigger] final(self).modfiles(g, mo) == old(self).modfiles(g, mo)
                }
            }),
    {
        let ghost prev = *self;
        let (game, mod_id) = match self.by_file_id.get(&file_id) {
            Some(mfd) => {
                if mfd.installed_mods.len() == 0 && mfd.mod_archives.len() == 0 {
                    (mfd.game.clone(), mfd.mod_id)
                } else {
                    return;
                }
            },
            None => {
                return;
            },
        };
        let ghost v = prev.by_file_id@[file_id];
        self.by_file_id.remove(&file_id);
        remove_file_from_games(&mut self.by_game_and_mod_sorted, &game, mod_id, file_id);
        proof {
            let gs0 = prev.by_game_and_mod_sorted@;
            let gs1 = self.by_game_and_mod_sorted@;
            assert forall|k: u64| #[trigger] self.by_file_id@.contains_key(k) implies self.by_file_id@[k].file_id
                == k && listed(gs1, self.by_file_id@[k]) by {
                let w = self.by_file_id@[k];
                assert(prev.by_file_id@.contains_key(k));
                let s0 = files_lookup(gs0, w.game@, w.mod_id)->0;
                assert(s0.contains(k));
                if w.game@ == v.game@ && w.mod_id == v.mod_id {
                    lemma_remove_first_contains(s0, file_id, k);
                }
            }
            assert forall|g: Seq<char>, mo: u32|
                #[trigger] self.modfiles(g, mo) == if g == v.game@ && mo == v.mod_id {
                    without_file(prev.modfiles(g, mo), file_id)
                } else {
                    prev.modfiles(g, mo)
                } by {
                assert(files_lookup(gs1, g, mo) == if g == game@ && mo == mod_id {
                    without_file(files_lookup(gs0, g, mo), file_id)
                } else {
                    files_lookup(gs0, g, mo)
                });
            }
        }
    }
    /// Fills in the file's details and the mod's description where they are
    /// not known yet, from `file_details` and `mod_info`, what the file lists
    /// and the mod descriptions hold for the file.
    pub fn fill_mod_file_data(
        mfdata: &mut ModFileMetadata,
        file_details: Option<FileDetails>,
        mod_info: Option<ModInfo>,
    )
        ensures
            final(mfdata).file_details == fill(old(mfdata).file_details, file_details),
            final(mfdata).mod_info == fill(old(mfdata).mod_info, mod_info),
            final(mfdata).game == old(mfdata).game,
            final(mfdata).mod_id == old(mfdata).mod_id,
            final(mfdata).file_id == old(mfdata).file_id,
            final(mfdata).installed_mods == old(mfdata).installed_mods,
            final(mfdata).mod_archives == old(mfdata).mod_archives,
            final(mfdata).update_status == old(mfdata).update_status,
    {
        if mfdata.file_details.is_none() {
            mfdata.file_details = file_details;
        }
        if mfdata.mod_info.is_none() {
            mfdata.mod_info = mod_info;
        }
    }

    /// Takes out the record of `file_id`, or makes a new one of `game` and
    /// `mod_id` when there is none.
    fn take_or_new(&mut self, file_id: u64, game: String, mod_id: u32) -> (r: ModFileMetadata)
        requires
            old(self).well_formed(),
        ensures
            final(self).well_formed(),
            final(self).files() == old(self).files().remove(file_id),
            final(self).by_archive_name == old(self).by_archive_name,
            final(self).by_game_and_mod_sorted == old(self).by_game_and_mod_sorted,
            r.file_id == file_id,
            old(self).files().contains_key(file_id) ==> r == old(self).files()[file_id],
            !old(self).files().contains_key(file_id) ==> {
                &&& r.game == game
                &&& r.mod_id == mod_id
                &&& r.file_details is None
                &&& r.mod_info is None
                &&& r.installed_mods@.len() == 0
                &&& r.mod_archives@.len() == 0
                &&& r.update_status.view_status() == UpdateStatus::UpToDate(0)
            },
    {
        let taken = self.by_file_id.remove(&file_id);
        proof {
            assert forall|k: u64| #[trigger] self.by_file_id@.contains_key(k) implies self.by_file_id@[k].file_id
                == k && listed(self.by_game_and_mod_sorted@, self.by_file_id@[k]) by {
                assert(old(self).by_file_id@.contains_key(k));
            }
        }
        match taken {
            Some(m) => m,
            None => ModFileMetadata::new(game, mod_id, file_id),
        }
    }

    /// Adds what an entry of the download directory tells: the record of its
    /// file, filled in from `file_details` and `mod_info`, with the archive
    /// among its archives, kept under the metadata's file name, when the entry
    /// is one; the record is listed under the metadata's file name. An archive
    /// without metadata is not added.
    pub fn try_add_mod_archive(
        &mut self,
        archive_entry: ArchiveEntry,
        file_details: Option<FileDetails>,
        mod_info: Option<ModInfo>,
    ) -> (r: Option<u64>)
        requires
            old(self).well_formed(),
        ensures
            final(self).well_formed(),
            match archive_entry.spec_metadata() {
                None => r is None && final(self).files() == old(self).files() && (forall|n: Seq<char>|
                    #[trigger] final(self).archive_file_id(n) == old(self).archive_file_id(n)) && (
                forall|g: Seq<char>, mo: u32|
                    #[trigger] final(self).modfiles(g, mo) == old(self).modfiles(g, mo)),
                Some(md) => {
                    let fid = md.file_id;
                    let known = old(self).files().contains_key(fid);
                    let b = old(self).files()[fid];
                    let m = final(self).files()[fid];
                    &&& r == Some(fid)
                    &&& final(self).added(*old(self), Some(md.file_name@), m)
                    &&& m.file_id == fid
                    &&& known ==> m.game == b.game && m.mod_id == b.mod_id && m.installed_mods
                        == b.installed_mods && m.update_status == b.update_status
                    &&& !known ==> m.game == md.game && m.mod_id == md.mod_id
                        && m.installed_mods@.len() == 0 && m.update_status.view_status()
                        == UpdateStatus::UpToDate(0)
                    &&& m.file_details == fill(
                        if known {
                            b.file_details
                        } else {
                            None
                        },
                        file_details,
                    )
                    &&& m.mod_info == fill(
                        if known {
                            b.mod_info
                        } else {
                            None
                        },
                        mod_info,
                    )
                    &&& {
                        let before = if known {
                            b.mod_archives@
                        } else {
                            Seq::empty()
                        };
                        m.mod_archives@ == match archive_entry {
                            ArchiveEntry::File(a) => put_archive(before, (md.file_name, a)),
                            ArchiveEntry::MetadataOnly(_) => before,
                        }
                    }
                },
            },
    {
        let (file_name, game, mod_id, file_id) = match archive_entry.metadata() {
            Some(md) => (md.file_name.clone(), md.game.clone(), md.mod_id, md.file_id),
            None => {
                return None;
            },
        };
        let ghost prev = *self;
        let mut mfdata = self.take_or_new(file_id, game, mod_id);
        proof {
            if !prev.files().contains_key(file_id) {
                assert(mfdata.mod_archives@ =~= Seq::<(String, super::archive_files::ArchiveFile)>::empty());
            }
        }
        Self::fill_mod_file_data(&mut mfdata, file_details, mod_info);
        if let ArchiveEntry::File(archive) = archive_entry {
            mfdata.insert_archive(file_name.clone(), archive);
        }
        let ghost m = mfdata;
        let ghost mid = *self;
        self.add_to_collections(Some(file_name), mfdata);
        proof {
            assert(self.files() == prev.files().insert(file_id, m));
            assert(self.files()[file_id] == m);
            assert forall|n: Seq<char>|
                #[trigger] self.archive_file_id(n) == if Some(file_name@) == Some(n) {
                    Some(file_id)
                } else {
                    prev.archive_file_id(n)
                } by {
                assert(mid.archive_file_id(n) == prev.archive_file_id(n));
            }
            assert forall|g: Seq<char>, mo: u32|
                #[trigger] self.modfiles(g, mo) == if g == m.game@ && mo == m.mod_id {
                    Some(with_file(prev.modfiles(g, mo), file_id))
                } else {
                    prev.modfiles(g, mo)
                } by {
                assert(mid.modfiles(g, mo) == prev.modfiles(g, mo));
            }
        }
        Some(file_id)
    }

    /// Records that `im`, a file of `file_id`, is installed in `dir_name`:
    /// the file's record, filled in from `file_details` and `mod_info`, gets
    /// the directory, its archives are marked installed, and it is listed under
    /// the name of the archive it was installed from. Returns the id under
    /// which the record is stored.
    pub fn add_installed(
        &mut self,
        dir_name: String,
        file_id: u64,
        im: InstalledMod,
        file_details: Option<FileDetails>,
        mod_info: Option<ModInfo>,
    ) -> (r: u64)
        requires
            old(self).well_formed(),
        ensures
            final(self).well_formed(),
            ({
                let known = old(self).files().contains_key(file_id);
                let b = old(self).files()[file_id];
                let m = final(self).files()[r];
                &&& r == if known {
                    file_id
                } else {
                    im.file_id
                }
                &&& final(self).added(*old(self), Some(im.installation_file@), m)
                &&& m.file_id == r
                &&& known ==> m.game == b.game && m.mod_id == b.mod_id && m.update_status
                    == b.update_status && super::modfile_metadata::all_set_to(
                    b.mod_archives@,
                    m.mod_archives@,
                    super::archive_files::ArchiveStatus::Installed,
                )
                &&& !known ==> m.game == im.game && m.mod_id == im.mod_id && m.mod_archives@.len()
                    == 0 && m.update_status.view_status() == UpdateStatus::UpToDate(0)
                &&& m.installed_mods@ == put_dir(
                    if known {
                        b.installed_mods@
                    } else {
                        Seq::empty()
                    },
                    (dir_name, im),
                )
                &&& m.file_details == fill(
                    if known {
                        b.file_details
                    } else {
                        None
                    },
                    file_details,
                )
                &&& m.mod_info == fill(
                    if known {
                        b.mod_info
                    } else {
                        None
                    },
                    mod_info,
                )
            }),
    {
        let ghost prev = *self;
        let known = self.by_file_id.contains_key(&file_id);
        let key = if known {
            file_id
        } else {
            im.file_id
        };
        let mut mfd = if known {
            self.take_or_new(file_id, im.game.clone(), im.mod_id)
        } else {
            ModFileMetadata::new(im.game.clone(), im.mod_id, im.file_id)
        };
        proof {
            if !known {
                assert(mfd.installed_mods@ =~= Seq::<(String, InstalledMod)>::empty());
            }
        }
        let archive_name = im.installation_file.clone();
        Self::fill_mod_file_data(&mut mfd, file_details, mod_info);
        mfd.add_installed_dir(dir_name, im);
        let ghost m = mfd;
        let ghost mid = *self;
        self.add_to_collections(Some(archive_name), mfd);
        proof {
            if known {
                assert(self.files() == prev.files().insert(key, m));
            } else {
                assert(mid.files() == prev.files());
            }
            assert(self.files()[key] == m);
            assert forall|n: Seq<char>|
                #[trigger] self.archive_file_id(n) == if Some(archive_name@) == Some(n) {
                    Some(key)
                } else {
                    prev.archive_file_id(n)
                } by {
                assert(mid.archive_file_id(n) == prev.archive_file_id(n));
            }
            assert forall|g: Seq<char>, mo: u32|
                #[trigger] self.modfiles(g, mo) == if g == m.game@ && mo == m.mod_id {
                    Some(with_file(prev.modfiles(g, mo), key))
                } else {
                    prev.modfiles(g, mo)
                } by {
                assert(mid.modfiles(g, mo) == prev.modfiles(g, mo));
            }
        }
        key
    }
    /// Sets the details of the record of `file_id` to `fd`, if there is a
    /// record and its details are not known yet.
    pub fn fill_file_details(&mut self, file_id: u64, fd: FileDetails)
        requires
            old(self).well_formed(),
        ensures
            final(self).well_formed(),
            final(self).files() == if old(self).files().contains_key(file_id)
                && old(self).files()[file_id].file_details is None {
                old(self).files().insert(
                    file_id,
                    ModFileMetadata { file_details: Some(fd), ..old(self).files()[file_id] },
                )
            } else {
                old(self).files()
            },
            forall|n: Seq<char>| #[trigger] final(self).archive_file_id(n) == old(self).archive_file_id(n),
            forall|g: Seq<char>, mo: u32| #[trigger] final(self).modfiles(g, mo) == old(self).modfiles(g, mo),
    {
        let ghost prev = *self;
        if let Some(mut m) = self.by_file_id.remove(&file_id) {
            if m.file_details.is_none() {
                m.file_details = Some(fd);
            }
            self.by_file_id.insert(file_id, m);
            proof {
                assert(self.by_file_id@ =~= if prev.files()[file_id].file_details is None {
                    prev.files().insert(
                        file_id,
                        ModFileMetadata { file_details: Some(fd), ..prev.files()[file_id] },
                    )
                } else {
                    prev.files()
                });
                assert forall|k: u64| #[trigger] self.by_file_id@.contains_key(k) implies self.by_file_id@[k].file_id
                    == k && listed(self.by_game_and_mod_sorted@, self.by_file_id@[k]) by {
                    assert(prev.by_file_id@.contains_key(k));
                }
            }
        }
    }

    /// Sets the mod description of the record of `file_id` to `mi`, if there
    /// is a record and its description is not known yet.
    pub fn fill_mod_info(&mut self, file_id: u64, mi: ModInfo)
        requires
            old(self).well_formed(),
        ensures
            final(self).well_formed(),
            final(self).files() == if old(self).files().contains_key(file_id)
                && old(self).files()[file_id].mod_info is None {
                old(self).files().insert(
                    file_id,
                    ModFileMetadata { mod_info: Some(mi), ..old(self).files()[file_id] },
                )
            } else {
                old(self).files()
            },
            forall|n: Seq<char>| #[trigger] final(self).archive_file_id(n) == old(self).archive_file_id(n),
            forall|g: Seq<char>, mo: u32| #[trigger] final(self).modfiles(g, mo) == old(self).modfiles(g, mo),
    {
        let ghost prev = *self;
        if let Some(mut m) = self.by_file_id.remove(&file_id) {
            if m.mod_info.is_none() {
                m.mod_info = Some(mi);
            }
            self.by_file_id.insert(file_id, m);
            proof {
                assert(self.by_file_id@ =~= if prev.files()[file_id].mod_info is None {
                    prev.files().insert(file_id, ModFileMetadata { mod_info: Some(mi), ..prev.files()[file_id] })
                } else {
                    prev.files()
                });
                assert forall|k: u64| #[trigger] self.by_file_id@.contains_key(k) implies self.by_file_id@[k].file_id
                    == k && listed(self.by_game_and_mod_sorted@, self.by_file_id@[k]) by {
                    assert(prev.by_file_id@.contains_key(k));
                }
            }
        }
    }
    /// Forgets the installation of file `file_id` in `dir_name`, as
    /// `ModFileMetadata::remove_installed` does; tells whether the file has
    /// archives, whose listing may then have to be redrawn.
    pub fn remove_installed(&mut self, file_id: u64, dir_name: &String) -> (r: bool)
        requires
            old(self).well_formed(),
            old(self).files().contains_key(file_id),
        ensures
            final(self).well_formed(),
            final(self).files() == old(self).files().insert(file_id, final(self).files()[file_id]),
            installed_removed(old(self).files()[file_id], final(self).files()[file_id], dir_name@, r),
            forall|n: Seq<char>| #[trigger] final(self).archive_file_id(n) == old(self).archive_file_id(n),
            forall|g: Seq<char>, mo: u32| #[trigger] final(self).modfiles(g, mo) == old(self).modfiles(g, mo),
    {
        let ghost prev = *self;
        let mut m = self.by_file_id.remove(&file_id).unwrap();
        let r = m.remove_installed(dir_name);
        let ghost mm = m;
        self.by_file_id.insert(file_id, m);
        proof {
            assert(self.by_file_id@ == prev.by_file_id@.insert(file_id, mm));
            assert forall|k: u64| #[trigger] self.by_file_id@.contains_key(k) implies self.by_file_id@[k].file_id
                == k && listed(self.by_game_and_mod_sorted@, self.by_file_id@[k]) by {
                assert(prev.by_file_id@.contains_key(k));
            }
        }
        r
    }
}

/// The lists of the index are in the order its users rely on: the files of
/// every mod in ascending order of file id, none twice.
pub proof fn lemma_modfiles_ascending(idx: MetadataIndex, game: Seq<char>, mod_id: u32)
    requires
        idx.well_formed(),
    ensures
        match idx.modfiles(game, mod_id) {
            Some(s) => ascending(s),
            None => true,
        },
{
    let gs = idx.by_game_and_mod_sorted@;
    if exists|i: int| 0 <= i < gs.len() && (#[trigger] gs[i]).game@ == game {
        let i = choose|i: int| 0 <= i < gs.len() && (#[trigger] gs[i]).game@ == game;
        let ms = mod_entries(gs[i].mods);
        assert(mods_ordered(ms));
        if has_key(ms, mod_id) {
            let k = key_index(ms, mod_id);
            assert(ascending(ms[k].1));
        }
    }
}

/// A record that was added is found again: by its file id, by the archive
/// name it was added under, and among the files of its game and mod, which
/// stay in ascending order.
pub proof fn lemma_added_is_found(
    idx: MetadataIndex,
    prev: MetadataIndex,
    archive_name: Seq<char>,
    m: ModFileMetadata,
)
    requires
        idx.well_formed(),
        idx.added(prev, Some(archive_name), m),
    ensures
        idx.files().contains_key(m.file_id),
        idx.files()[m.file_id] == m,
        idx.archive_file_id(archive_name) == Some(m.file_id),
        idx.modfiles(m.game@, m.mod_id) is Some,
        idx.modfiles(m.game@, m.mod_id)->0.contains(m.file_id),
        ascending(idx.modfiles(m.game@, m.mod_id)->0),
{
    assert(idx.archive_file_id(archive_name) == Some(m.file_id));
    assert(idx.modfiles(m.game@, m.mod_id) == Some(with_file(prev.modfiles(m.game@, m.mod_id), m.file_id)));
    match prev.modfiles(m.game@, m.mod_id) {
        Some(s) => lemma_insert_asc_contains(s, m.file_id, m.file_id),
        None => assert(seq![m.file_id][0] == m.file_id),
    }
    lemma_modfiles_ascending(idx, m.game@, m.mod_id);
}

} // verus!
