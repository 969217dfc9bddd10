//! The ordered maps of `indexmap` that list the installed mods and the
//! downloaded archives by name, in their order. What each map holds is named
//! as a sequence of (name, value) pairs in the map's order; the operations
//! used are stated over that sequence as the crate documents and implements
//! them.
use super::archive_files::ArchiveEntry;
use crate::api::FileDetails;
use crate::install::installed_mod::ModDirectory;
use indexmap::IndexMap;
use vstd::prelude::*;

verus! {

#[verifier::external_type_specification]
#[verifier::external_body]
#[verifier::reject_recursive_types(K)]
#[verifier::reject_recursive_types(V)]
#[verifier::reject_recursive_types(S)]
pub struct ExIndexMap<K, V, S>(IndexMap<K, V, S>);

/// The pairs of the map of installed mod directories, in the map's order.
pub uninterp spec fn installed_entries(m: IndexMap<String, ModDirectory>) -> Seq<(Seq<char>, ModDirectory)>;

/// The pairs of the map of downloaded archives, in the map's order.
pub uninterp spec fn archive_entries(m: IndexMap<String, ArchiveEntry>) -> Seq<(Seq<char>, ArchiveEntry)>;

/// The pairs of the map of a game's mods, by mod id, each with its file ids.
pub uninterp spec fn mod_entries(m: IndexMap<u32, Vec<u64>>) -> Seq<(u32, Seq<u64>)>;

/// The pairs of a map of file details, by file id, in the map's order.
pub uninterp spec fn details_entries(m: IndexMap<u64, FileDetails>) -> Seq<(u64, FileDetails)>;

/// No key occurs twice.
pub open spec fn keys_unique<K, V>(s: Seq<(K, V)>) -> bool {
    forall|i: int, j: int| 0 <= i < s.len() && 0 <= j < s.len() && i != j ==> s[i].0 != s[j].0
}

/// Whether `k` is one of the names.
pub open spec fn has_key<K, V>(s: Seq<(K, V)>, k: K) -> bool {
    exists|i: int| 0 <= i < s.len() && (#[trigger] s[i]).0 == k
}

/// The position of the name `k`.
pub open spec fn key_index<K, V>(s: Seq<(K, V)>, k: K) -> int {
    choose|i: int| 0 <= i < s.len() && (#[trigger] s[i]).0 == k
}

/// The value under the name `k`.
pub open spec fn map_get<K, V>(s: Seq<(K, V)>, k: K) -> Option<V> {
    if has_key(s, k) {
        Some(s[key_index(s, k)].1)
    } else {
        None
    }
}

/// `IndexMap::insert`: a name already present keeps its place and gets the
/// value; a new name is added last.
pub open spec fn map_insert<K, V>(s: Seq<(K, V)>, k: K, v: V) -> Seq<(K, V)> {
    if has_key(s, k) {
        s.update(key_index(s, k), (k, v))
    } else {
        s.push((k, v))
    }
}

/// `IndexMap::shift_remove`: the pair of name `k` is taken out and the pairs
/// after it move up, keeping their order.
pub open spec fn map_shift_remove<K, V>(s: Seq<(K, V)>, k: K) -> Seq<(K, V)> {
    if has_key(s, k) {
        s.remove(key_index(s, k))
    } else {
        s
    }
}

/// `IndexMap::swap_remove`: the pair of name `k` is replaced by the last pair,
/// and the last place goes away.
pub open spec fn map_swap_remove<K, V>(s: Seq<(K, V)>, k: K) -> Seq<(K, V)> {
    if has_key(s, k) {
        s.update(key_index(s, k), s.last()).drop_last()
    } else {
        s
    }
}

/// `IndexMap::move_index`: the pair at `from` moves to `to`, the pairs in
/// between shift by one.
pub open spec fn map_move_index<K, V>(s: Seq<(K, V)>, from: int, to: int) -> Seq<(K, V)> {
    s.remove(from).insert(to, s[from])
}

/// `IndexMap::swap_indices`: the pairs at `a` and `b` trade places.
pub open spec fn map_swap_indices<K, V>(s: Seq<(K, V)>, a: int, b: int) -> Seq<(K, V)> {
    s.update(a, s[b]).update(b, s[a])
}

/// The keys are in strictly ascending order.
pub open spec fn keys_ascending<V>(s: Seq<(u32, V)>) -> bool {
    forall|i: int, j: int| 0 <= i < j < s.len() ==> s[i].0 < s[j].0
}

/// `p` is a place for the key `k` among keys in ascending order: after every
/// smaller key and before the others.
pub open spec fn is_sorted_slot<V>(s: Seq<(u32, V)>, k: u32, p: int) -> bool {
    &&& 0 <= p <= s.len()
    &&& forall|j: int| 0 <= j < p ==> (#[trigger] s[j]).0 < k
    &&& p < s.len() ==> s[p].0 >= k
}

/// Where `IndexMap::insert_sorted` puts a key that is not in the map with
/// keys in ascending order: after every smaller key.
pub open spec fn sorted_position<V>(s: Seq<(u32, V)>, k: u32) -> int {
    choose|p: int| is_sorted_slot(s, k, p)
}

/// `IndexMap::insert_sorted` on a map with keys in ascending order: a key
/// already present gets the value in its place; a new key goes to its sorted
/// position.
pub open spec fn map_insert_sorted<V>(s: Seq<(u32, V)>, k: u32, v: V) -> Seq<(u32, V)> {
    if has_key(s, k) {
        s.update(key_index(s, k), (k, v))
    } else {
        s.insert(sorted_position(s, k), (k, v))
    }
}

/// `IndexMap::new`: an empty map of a game's mods.
#[verifier::external_body]
pub(crate) fn mods_new() -> (r: IndexMap<u32, Vec<u64>>)
    ensures
        mod_entries(r) == Seq::<(u32, Seq<u64>)>::empty(),
{
    IndexMap::new()
}

/// `IndexMap::insert` on a game's mods; gives back the file ids the mod had.
#[verifier::external_body]
pub(crate) fn mods_insert(m: &mut IndexMap<u32, Vec<u64>>, k: u32, v: Vec<u64>) -> (r: Option<Vec<u64>>)
    ensures
        mod_entries(*final(m)) == map_insert(mod_entries(*old(m)), k, v@),
        keys_unique(mod_entries(*old(m))) ==> keys_unique(mod_entries(*final(m))),
        match r {
            Some(o) => map_get(mod_entries(*old(m)), k) == Some(o@),
            None => map_get(mod_entries(*old(m)), k) is None,
        },
{
    m.insert(k, v)
}

/// `IndexMap::insert_sorted` on a game's mods; gives back the position of
/// the key and the file ids the mod had. The position is stated where the
/// keys were in ascending order, as the crate states it.
#[verifier::external_body]
pub(crate) fn mods_insert_sorted(m: &mut IndexMap<u32, Vec<u64>>, k: u32, v: Vec<u64>) -> (r: (
    usize,
    Option<Vec<u64>>,
))
    ensures
        keys_ascending(mod_entries(*old(m))) ==> mod_entries(*final(m)) == map_insert_sorted(
            mod_entries(*old(m)),
            k,
            v@,
        ),
        keys_ascending(mod_entries(*old(m))) ==> r.0 == if has_key(mod_entries(*old(m)), k) {
            key_index(mod_entries(*old(m)), k)
        } else {
            sorted_position(mod_entries(*old(m)), k)
        },
        match r.1 {
            Some(o) => map_get(mod_entries(*old(m)), k) == Some(o@),
            None => map_get(mod_entries(*old(m)), k) is None,
        },
{
    m.insert_sorted(k, v)
}

/// `IndexMap::get` on a game's mods.
#[verifier::external_body]
pub(crate) fn mods_get<'a>(m: &'a IndexMap<u32, Vec<u64>>, k: u32) -> (r: Option<&'a Vec<u64>>)
    ensures
        match map_get(mod_entries(*m), k) {
            Some(v) => r is Some && r->0@ == v,
            None => r is None,
        },
{
    m.get(&k)
}

/// `IndexMap::new`: an empty map of installed mod directories.
#[verifier::external_body]
pub(crate) fn installed_new() -> (r: IndexMap<String, ModDirectory>)
    ensures
        installed_entries(r) == Seq::<(Seq<char>, ModDirectory)>::empty(),
{
    IndexMap::new()
}

/// `IndexMap::insert` on the installed mod directories; gives back the value
/// the name had.
#[verifier::external_body]
pub(crate) fn installed_insert(m: &mut IndexMap<String, ModDirectory>, k: String, v: ModDirectory) -> (r:
    Option<ModDirectory>)
    ensures
        installed_entries(*final(m)) == map_insert(installed_entries(*old(m)), k@, v),
        keys_unique(installed_entries(*old(m))) ==> keys_unique(installed_entries(*final(m))),
        r == map_get(installed_entries(*old(m)), k@),
{
    m.insert(k, v)
}

/// `IndexMap::get` on the installed mod directories.
#[verifier::external_body]
pub(crate) fn installed_get<'a>(m: &'a IndexMap<String, ModDirectory>, k: &str) -> (r: Option<
    &'a ModDirectory,
>)
    ensures
        match map_get(installed_entries(*m), k@) {
            Some(v) => r == Some(&v),
            None => r is None,
        },
{
    m.get(k)
}

/// `IndexMap::shift_remove` on the installed mod directories; gives back the
/// removed value.
#[verifier::external_body]
pub(crate) fn installed_shift_remove(m: &mut IndexMap<String, ModDirectory>, k: &str) -> (r: Option<
    ModDirectory,
>)
    ensures
        installed_entries(*final(m)) == map_shift_remove(installed_entries(*old(m)), k@),
        keys_unique(installed_entries(*old(m))) ==> keys_unique(installed_entries(*final(m))),
        r == map_get(installed_entries(*old(m)), k@),
{
    m.shift_remove(k)
}

/// `IndexMap::len` of the installed mod directories.
#[verifier::external_body]
pub(crate) fn installed_len(m: &IndexMap<String, ModDirectory>) -> (r: usize)
    ensures
        r == installed_entries(*m).len(),
{
    m.len()
}

/// `IndexMap::move_index` on the installed mod directories.
#[verifier::external_body]
pub(crate) fn installed_move_index(m: &mut IndexMap<String, ModDirectory>, from: usize, to: usize)
    requires
        from < installed_entries(*old(m)).len(),
        to < installed_entries(*old(m)).len(),
    ensures
        installed_entries(*final(m)) == map_move_index(installed_entries(*old(m)), from as int, to as int),
{
    m.move_index(from, to)
}

/// `IndexMap::swap_indices` on the installed mod directories.
#[verifier::external_body]
pub(crate) fn installed_swap_indices(m: &mut IndexMap<String, ModDirectory>, a: usize, b: usize)
    requires
        a < installed_entries(*old(m)).len(),
        b < installed_entries(*old(m)).len(),
    ensures
        installed_entries(*final(m)) == map_swap_indices(installed_entries(*old(m)), a as int, b as int),
{
    m.swap_indices(a, b)
}

/// `IndexMap::get_index` on the installed mod directories: the name at
/// position `i`.
#[verifier::external_body]
pub(crate) fn installed_key_at(m: &IndexMap<String, ModDirectory>, i: usize) -> (r: Option<String>)
    ensures
        match r {
            Some(k) => i < installed_entries(*m).len() && k@ == installed_entries(*m)[i as int].0,
            None => i >= installed_entries(*m).len(),
        },
{
    m.get_index(i).map(|(k, _)| k.clone())
}

/// `IndexMap::new`: an empty map of archives.
#[verifier::external_body]
pub(crate) fn archives_new() -> (r: IndexMap<String, ArchiveEntry>)
    ensures
        archive_entries(r) == Seq::<(Seq<char>, ArchiveEntry)>::empty(),
{
    IndexMap::new()
}

/// `IndexMap::insert` on the archives; gives back the value the name had.
#[verifier::external_body]
pub(crate) fn archives_insert(m: &mut IndexMap<String, ArchiveEntry>, k: String, v: ArchiveEntry) -> (r:
    Option<ArchiveEntry>)
    ensures
        archive_entries(*final(m)) == map_insert(archive_entries(*old(m)), k@, v),
        keys_unique(archive_entries(*old(m))) ==> keys_unique(archive_entries(*final(m))),
        r == map_get(archive_entries(*old(m)), k@),
{
    m.insert(k, v)
}

/// `IndexMap::get` on the archives.
#[verifier::external_body]
pub(crate) fn archives_get<'a>(m: &'a IndexMap<String, ArchiveEntry>, k: &str) -> (r: Option<
    &'a ArchiveEntry,
>)
    ensures
        match map_get(archive_entries(*m), k@) {
            Some(v) => r == Some(&v),
            None => r is None,
        },
{
    m.get(k)
}

/// `IndexMap::swap_remove` on the archives; gives back the removed value.
#[verifier::external_body]
pub(crate) fn archives_swap_remove(m: &mut IndexMap<String, ArchiveEntry>, k: &str) -> (r: Option<
    ArchiveEntry,
>)
    ensures
        archive_entries(*final(m)) == map_swap_remove(archive_entries(*old(m)), k@),
        keys_unique(archive_entries(*old(m))) ==> keys_unique(archive_entries(*final(m))),
        r == map_get(archive_entries(*old(m)), k@),
{
    m.swap_remove(k)
}

/// `IndexMap::insert` on file details; gives back the details the id had.
#[verifier::external_body]
pub(crate) fn details_insert(m: &mut IndexMap<u64, FileDetails>, k: u64, v: FileDetails) -> (r: Option<
    FileDetails,
>)
    ensures
        details_entries(*final(m)) == map_insert(details_entries(*old(m)), k, v),
        keys_unique(details_entries(*old(m))) ==> keys_unique(details_entries(*final(m))),
        r == map_get(details_entries(*old(m)), k),
{
    m.insert(k, v)
}

/// `IndexMap::get` on file details.
#[verifier::external_body]
pub(crate) fn details_get<'a>(m: &'a IndexMap<u64, FileDetails>, k: u64) -> (r: Option<&'a FileDetails>)
    ensures
        match map_get(details_entries(*m), k) {
            Some(v) => r == Some(&v),
            None => r is None,
        },
{
    m.get(&k)
}

/// `IndexMap::get_index` on file details: the pair at position `i`.
#[verifier::external_body]
pub(crate) fn details_get_index<'a>(m: &'a IndexMap<u64, FileDetails>, i: usize) -> (r: Option<
    (u64, &'a FileDetails),
>)
    ensures
        match r {
            Some(p) => i < details_entries(*m).len() && (p.0, *p.1) == details_entries(*m)[i as int],
            None => i >= details_entries(*m).len(),
        },
{
    m.get_index(i).map(|(k, v)| (*k, v))
}

/// `IndexMap::len` of file details.
#[verifier::external_body]
pub(crate) fn details_len(m: &IndexMap<u64, FileDetails>) -> (r: usize)
    ensures
        r == details_entries(*m).len(),
{
    m.len()
}

} // verus!
