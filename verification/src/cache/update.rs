//! Update checking: the downloaded files are grouped by mod, a mod's update
//! history is put in upload order, and each file's chain of replacements is
//! followed to the newest file.
use super::local_file::LocalFile;
use crate::api::{FileList, FileUpdate};
use vstd::prelude::*;

verus! {

/// Where following a file's replacements ends: whether any replacement was met,
/// and the id and name of the newest file.
pub struct UpdateChain {
    pub has_update: bool,
    pub latest_file_id: u64,
    pub latest_file_name: String,
}

/// One step of following replacements: an update of the current file moves to its replacement.
pub open spec fn chain_step(state: (bool, u64, Seq<char>), u: FileUpdate) -> (bool, u64, Seq<char>) {
    if u.old_file_id == state.1 {
        (true, u.new_file_id, u.new_file_name@)
    } else {
        state
    }
}

/// The state after going through `updates` in order, starting from `init`.
pub open spec fn chain_fold(init: (bool, u64, Seq<char>), updates: Seq<FileUpdate>) -> (
    bool,
    u64,
    Seq<char>,
)
    decreases updates.len(),
{
    if updates.len() == 0 {
        init
    } else {
        chain_step(chain_fold(init, updates.drop_last()), updates.last())
    }
}

/// Goes through the update history once, in the order given: whenever an update
/// replaces the file reached so far, the file it names becomes the one reached.
/// The history is expected in upload order, which `sort_updates` gives.
pub fn follow_update_chain(file_id: u64, file_name: &String, updates: &Vec<FileUpdate>) -> (r:
    UpdateChain)
    ensures
        (r.has_update, r.latest_file_id, r.latest_file_name@) == chain_fold(
            (false, file_id, file_name@),
            updates@,
        ),
{
    let mut has_update = false;
    let mut current_id = file_id;
    let mut latest = file_name.clone();
    let mut i: usize = 0;
    while i < updates.len()
        invariant
            i <= updates.len(),
            (has_update, current_id, latest@) == chain_fold(
                (false, file_id, file_name@),
                updates@.take(i as int),
            ),
        decreases updates.len() - i,
    {
        let x = &updates[i];
        assert(updates@.take(i + 1).drop_last() =~= updates@.take(i as int));
        if x.old_file_id == current_id {
            current_id = x.new_file_id;
            latest = x.new_file_name.clone();
            has_update = true;
        }
        i = i + 1;
    }
    assert(updates@.take(updates.len() as int) =~= updates@);
    UpdateChain { has_update, latest_file_id: current_id, latest_file_name: latest }
}

/// A file has an update when its chain of replacements went somewhere and the
/// newest file of the chain is not already downloaded.
pub fn file_has_update(chain: &UpdateChain, latest_is_downloaded: bool) -> (r: bool)
    ensures
        r == (chain.has_update && !latest_is_downloaded),
{
    !latest_is_downloaded && chain.has_update
}

/// The update history is in upload order.
pub open spec fn sorted_by_upload(s: Seq<FileUpdate>) -> bool {
    forall|i: int, j: int| 0 <= i <= j < s.len() ==> s[i].uploaded_timestamp <= s[j].uploaded_timestamp
}

/// Puts the update history in upload order; updates of equal time keep their order.
pub fn sort_updates(updates: &mut Vec<FileUpdate>)
    ensures
        sorted_by_upload(final(updates)@),
        final(updates)@.to_multiset() == old(updates)@.to_multiset(),
        final(updates)@.len() == old(updates)@.len(),
        forall|t: u64|
            #![trigger final(updates)@.filter(at_time(t))]
            final(updates)@.filter(at_time(t)) == old(updates)@.filter(at_time(t)),
{
    let n = updates.len();
    if n == 0 {
        return;
    }
    let mut i: usize = 1;
    while i < n
        invariant
            1 <= i <= n,
            n == updates@.len(),
            forall|a: int, b: int|
                0 <= a <= b < i ==> (#[trigger] updates@[a]).uploaded_timestamp <= (
                #[trigger] updates@[b]).uploaded_timestamp,
            updates@.to_multiset() == old(updates)@.to_multiset(),
            forall|t: u64|
                #![trigger updates@.filter(at_time(t))]
                updates@.filter(at_time(t)) == old(updates)@.filter(at_time(t)),
        decreases n - i,
    {
        let mut j: usize = i;
        while j > 0 && updates[j - 1].uploaded_timestamp > updates[j].uploaded_timestamp
            invariant
                0 <= j <= i < n,
                n == updates@.len(),
                updates@.to_multiset() == old(updates)@.to_multiset(),
                forall|t: u64|
                    #![trigger updates@.filter(at_time(t))]
                    updates@.filter(at_time(t)) == old(updates)@.filter(at_time(t)),
                forall|a: int, b: int|
                    0 <= a <= b <= i && a != j && b != j ==> (#[trigger] updates@[a]).uploaded_timestamp
                        <= (#[trigger] updates@[b]).uploaded_timestamp,
                forall|b: int|
                    j < b <= i ==> updates@[j as int].uploaded_timestamp < (
                    #[trigger] updates@[b]).uploaded_timestamp,
            decreases j,
        {
            let ghost before = updates@;
            let x = updates[j - 1].clone();
            let y = updates[j].clone();
            updates.set(j - 1, y);
            updates.set(j, x);
            proof {
                assert(updates@ =~= before.update(j - 1, before[j as int]).update(
                    j as int,
                    before[j - 1],
                ));
                lemma_swap_multiset(before, j - 1, j as int);
                assert forall|t: u64| #[trigger]
                    updates@.filter(at_time(t)) == old(updates)@.filter(at_time(t)) by {
                    lemma_swap_keeps_filter(before, j - 1, at_time(t));
                    assert(before.filter(at_time(t)) == old(updates)@.filter(at_time(t)));
                }
                assert forall|a: int, b: int|
                    0 <= a <= b <= i && a != j - 1 && b != j - 1 implies (
                    #[trigger] updates@[a]).uploaded_timestamp <= (
                    #[trigger] updates@[b]).uploaded_timestamp by {
                    if a == b {
                    } else if a == j as int {
                        assert(before[j - 1].uploaded_timestamp <= before[b].uploaded_timestamp);
                    } else if b == j as int {
                        assert(before[a].uploaded_timestamp <= before[j - 1].uploaded_timestamp);
                    } else {
                        assert(before[a].uploaded_timestamp <= before[b].uploaded_timestamp);
                    }
                }
                assert forall|b: int| j - 1 < b <= i implies updates@[j - 1].uploaded_timestamp < (
                #[trigger] updates@[b]).uploaded_timestamp by {
                    if b > j {
                        assert(before[j as int].uploaded_timestamp < before[b].uploaded_timestamp);
                    }
                }
            }
            j = j - 1;
        }
        proof {
            assert forall|a: int, b: int| 0 <= a <= b < i + 1 implies (
            #[trigger] updates@[a]).uploaded_timestamp <= (
            #[trigger] updates@[b]).uploaded_timestamp by {
                if a == j as int && b != j as int {
                } else if b == j as int && a != j as int {
                    assert(updates@[a].uploaded_timestamp <= updates@[j - 1].uploaded_timestamp);
                }
            }
        }
        i = i + 1;
    }
}

/// Swapping two neighbours keeps the subsequence that `f` picks, when `f` does
/// not pick both of them.
pub(crate) proof fn lemma_swap_keeps_filter<T>(s: Seq<T>, k: int, f: spec_fn(T) -> bool)
    requires
        0 <= k,
        k + 1 < s.len(),
        !(f(s[k]) && f(s[k + 1])),
    ensures
        s.update(k, s[k + 1]).update(k + 1, s[k]).filter(f) == s.filter(f),
{
    let a = s.take(k);
    let b = s.skip(k + 2);
    let x = s[k];
    let y = s[k + 1];
    let w = s.update(k, y).update(k + 1, x);
    assert(s =~= a + seq![x, y] + b);
    assert(w =~= a + seq![y, x] + b);
    Seq::filter_distributes_over_add(a + seq![x, y], b, f);
    Seq::filter_distributes_over_add(a, seq![x, y], f);
    Seq::filter_distributes_over_add(a + seq![y, x], b, f);
    Seq::filter_distributes_over_add(a, seq![y, x], f);
    reveal_with_fuel(Seq::filter, 3);
    assert(seq![x, y].drop_last() =~= seq![x]);
    assert(seq![y, x].drop_last() =~= seq![y]);
    assert(seq![x].drop_last() =~= Seq::<T>::empty());
    assert(seq![y].drop_last() =~= Seq::<T>::empty());
    assert(seq![x, y].filter(f) =~= seq![y, x].filter(f));
}

/// The test that picks the updates uploaded at time `t`.
pub open spec fn at_time(t: u64) -> spec_fn(FileUpdate) -> bool {
    |u: FileUpdate| u.uploaded_timestamp == t
}

/// Swapping two positions keeps the multiset of elements.
pub(crate) proof fn lemma_swap_multiset<T>(s: Seq<T>, i: int, j: int)
    requires
        0 <= i < s.len(),
        0 <= j < s.len(),
    ensures
        s.update(i, s[j]).update(j, s[i]).to_multiset() == s.to_multiset(),
{
    broadcast use vstd::seq_lib::group_to_multiset_ensures;

    let t = s.update(i, s[j]);
    assert(t.to_multiset() == s.to_multiset().remove(s[i]).insert(s[j]));
    assert(t.update(j, s[i]).to_multiset() == t.to_multiset().remove(t[j]).insert(s[i]));
    if i == j {
        assert(t.update(j, s[i]) =~= s);
    } else {
        assert(t[j] == s[j]);
    }
}

/// The downloaded files of one mod.
pub struct ModGroup {
    pub game: String,
    pub mod_id: u32,
    pub files: Vec<LocalFile>,
}

/// The test that picks the files of the mod `mod_id` of `game`.
pub open spec fn of_mod(game: Seq<char>, mod_id: u32) -> spec_fn(LocalFile) -> bool {
    |f: LocalFile| f.game@ == game && f.mod_id == mod_id
}

/// `groups` splits `files` by mod: no two groups are of the same mod, each
/// group holds exactly the files of its mod in their original order, and
/// every file's mod has a group.
pub open spec fn groups_files(groups: Seq<ModGroup>, files: Seq<LocalFile>) -> bool {
    &&& forall|a: int, b: int|
        0 <= a < b < groups.len() ==> !(#[trigger] groups[a].game@ == #[trigger] groups[b].game@
            && groups[a].mod_id == groups[b].mod_id)
    &&& forall|a: int|
        0 <= a < groups.len() ==> (#[trigger] groups[a]).files@ == files.filter(
            of_mod(groups[a].game@, groups[a].mod_id),
        )
    &&& forall|i: int|
        0 <= i < files.len() ==> exists|a: int|
            0 <= a < groups.len() && (#[trigger] groups[a]).game@ == (#[trigger] files[i]).game@
                && groups[a].mod_id == files[i].mod_id
}

fn find_group(groups: &Vec<ModGroup>, game: &String, mod_id: u32) -> (r: Option<usize>)
    ensures
        match r {
            Some(a) => a < groups.len() && groups@[a as int].game@ == game@ && groups@[a as int].mod_id
                == mod_id,
            None => forall|a: int|
                0 <= a < groups.len() ==> !(groups@[a].game@ == game@ && groups@[a].mod_id == mod_id),
        },
{
    let mut a: usize = 0;
    while a < groups.len()
        invariant
            a <= groups.len(),
            forall|b: int|
                0 <= b < a ==> !(groups@[b].game@ == game@ && groups@[b].mod_id == mod_id),
        decreases groups.len() - a,
    {
        if groups[a].mod_id == mod_id && groups[a].game == *game {
            return Some(a);
        }
        a = a + 1;
    }
    None
}

/// Splits the downloaded files by mod, so that each mod is checked once.
pub fn group_by_mod(files: Vec<LocalFile>) -> (r: Vec<ModGroup>)
    ensures
        groups_files(r@, files@),
{
    let mut groups: Vec<ModGroup> = Vec::new();
    let mut i: usize = 0;
    while i < files.len()
        invariant
            i <= files.len(),
            groups_files(groups@, files@.take(i as int)),
        decreases files.len() - i,
    {
        let f = files[i].clone();
        let ghost prefix = files@.take(i as int);
        let ghost next = files@.take(i + 1);
        assert(next.drop_last() =~= prefix);
        assert(next.last() == f);
        assert(next =~= prefix.push(f));
        let ghost old_groups = groups@;
        proof {
            reveal_with_fuel(Seq::filter, 1);
        }
        match find_group(&groups, &f.game, f.mod_id) {
            Some(a) => {
                let mut g = groups.remove(a);
                g.files.push(f);
                groups.insert(a, g);
                proof {
                    assert(groups@ =~= old_groups.update(a as int, groups@[a as int]));
                    assert forall|b: int|
                        0 <= b < groups@.len() implies (#[trigger] groups@[b]).files@ == next.filter(
                        of_mod(groups@[b].game@, groups@[b].mod_id),
                    ) by {
                        lemma_filter_step(prefix, f, of_mod(groups@[b].game@, groups@[b].mod_id));
                        if b == a {
                            assert(groups@[b].files@ =~= old_groups[b].files@.push(f));
                        } else {
                            assert(groups@[b] == old_groups[b]);
                            assert(!(old_groups[b].game@ == old_groups[a as int].game@
                                && old_groups[b].mod_id == old_groups[a as int].mod_id));
                        }
                    }
                    assert forall|k: int| 0 <= k < next.len() implies exists|b: int|
                        0 <= b < groups@.len() && (#[trigger] groups@[b]).game@ == (
                        #[trigger] next[k]).game@ && groups@[b].mod_id == next[k].mod_id by {
                        if k < i {
                            assert(next[k] == prefix[k]);
                            let b = choose|b: int|
                                0 <= b < old_groups.len() && (#[trigger] old_groups[b]).game@ == (
                                #[trigger] prefix[k]).game@ && old_groups[b].mod_id
                                    == prefix[k].mod_id;
                            assert(groups@[b].game@ == old_groups[b].game@);
                        } else {
                            assert(groups@[a as int].game@ == next[k].game@);
                        }
                    }
                    assert forall|x: int, y: int| 0 <= x < y < groups@.len() implies !(
                    #[trigger] groups@[x].game@ == #[trigger] groups@[y].game@ && groups@[x].mod_id
                        == groups@[y].mod_id) by {
                        assert(groups@[x].game@ == old_groups[x].game@);
                        assert(groups@[y].game@ == old_groups[y].game@);
                    }
                }
            },
            None => {
                let game = f.game.clone();
                let mod_id = f.mod_id;
                let mut fs: Vec<LocalFile> = Vec::new();
                fs.push(f);
                groups.push(ModGroup { game, mod_id, files: fs });
                proof {
                    let na = old_groups.len() as int;
                    assert forall|b: int|
                        0 <= b < groups@.len() implies (#[trigger] groups@[b]).files@ == next.filter(
                        of_mod(groups@[b].game@, groups@[b].mod_id),
                    ) by {
                        lemma_filter_step(prefix, f, of_mod(groups@[b].game@, groups@[b].mod_id));
                        if b == na {
                            assert forall|k: int| 0 <= k < prefix.len() implies !(of_mod(
                                groups@[b].game@,
                                groups@[b].mod_id,
                            ))(#[trigger] prefix[k]) by {
                                if (of_mod(groups@[b].game@, groups@[b].mod_id))(prefix[k]) {
                                    let c = choose|c: int|
                                        0 <= c < old_groups.len() && (#[trigger] old_groups[c]).game@
                                            == (#[trigger] prefix[k]).game@ && old_groups[c].mod_id
                                            == prefix[k].mod_id;
                                    assert(old_groups[c].game@ == f.game@);
                                }
                            }
                            lemma_filter_none(prefix, of_mod(groups@[b].game@, groups@[b].mod_id));
                            assert(groups@[b].files@ =~= seq![f]);
                        } else {
                            assert(groups@[b] == old_groups[b]);
                        }
                    }
                    assert forall|k: int| 0 <= k < next.len() implies exists|b: int|
                        0 <= b < groups@.len() && (#[trigger] groups@[b]).game@ == (
                        #[trigger] next[k]).game@ && groups@[b].mod_id == next[k].mod_id by {
                        if k < i {
                            assert(next[k] == prefix[k]);
                            let b = choose|b: int|
                                0 <= b < old_groups.len() && (#[trigger] old_groups[b]).game@ == (
                                #[trigger] prefix[k]).game@ && old_groups[b].mod_id
                                    == prefix[k].mod_id;
                            assert(groups@[b] == old_groups[b]);
                        } else {
                            assert(groups@[na].game@ == next[k].game@);
                        }
                    }
                    assert forall|x: int, y: int| 0 <= x < y < groups@.len() implies !(
                    #[trigger] groups@[x].game@ == #[trigger] groups@[y].game@ && groups@[x].mod_id
                        == groups@[y].mod_id) by {
                        if y == na {
                            assert(groups@[x] == old_groups[x]);
                        } else {
                            assert(groups@[x] == old_groups[x]);
                            assert(groups@[y] == old_groups[y]);
                        }
                    }
                }
            },
        }
        i = i + 1;
    }
    assert(files@.take(files.len() as int) =~= files@);
    groups
}

/// Filtering a list with one more element at the end.
proof fn lemma_filter_step(s: Seq<LocalFile>, x: LocalFile, p: spec_fn(LocalFile) -> bool)
    ensures
        s.push(x).filter(p) == (if p(x) {
            s.filter(p).push(x)
        } else {
            s.filter(p)
        }),
{
    reveal_with_fuel(Seq::filter, 1);
    assert(s.push(x).drop_last() =~= s);
}

/// A list with no element of the mod `game`/`mod_id` filters to nothing.
proof fn lemma_filter_none(s: Seq<LocalFile>, p: spec_fn(LocalFile) -> bool)
    requires
        forall|k: int| 0 <= k < s.len() ==> !p(#[trigger] s[k]),
    ensures
        s.filter(p) =~= Seq::<LocalFile>::empty(),
    decreases s.len(),
{
    reveal_with_fuel(Seq::filter, 1);
    if s.len() > 0 {
        lemma_filter_none(s.drop_last(), p);
    }
}

/// Where following the replacements of `f` through `updates` ends.
pub open spec fn spec_chain_of(f: LocalFile, updates: Seq<FileUpdate>) -> (bool, u64, Seq<char>) {
    chain_fold((false, f.file_id, f.file_name@), updates)
}

/// Puts the update history of the mod's file list in upload order, then
/// follows the replacements of each downloaded file of the mod through it.
pub fn update_chains(files: &Vec<LocalFile>, fl: &mut FileList) -> (r: Vec<UpdateChain>)
    ensures
        sorted_by_upload(final(fl).file_updates@),
        final(fl).file_updates@.to_multiset() == old(fl).file_updates@.to_multiset(),
        forall|t: u64|
            #![trigger final(fl).file_updates@.filter(at_time(t))]
            final(fl).file_updates@.filter(at_time(t)) == old(fl).file_updates@.filter(at_time(t)),
        final(fl).files == old(fl).files,
        r@.len() == files@.len(),
        forall|i: int|
            0 <= i < files@.len() ==> ((#[trigger] r@[i]).has_update, r@[i].latest_file_id,
                r@[i].latest_file_name@) == spec_chain_of(files@[i], final(fl).file_updates@),
{
    sort_updates(&mut fl.file_updates);
    let mut r: Vec<UpdateChain> = Vec::new();
    let mut i: usize = 0;
    while i < files.len()
        invariant
            i <= files@.len(),
            r@.len() == i,
            forall|j: int|
                0 <= j < i ==> ((#[trigger] r@[j]).has_update, r@[j].latest_file_id,
                    r@[j].latest_file_name@) == spec_chain_of(files@[j], fl.file_updates@),
        decreases files@.len() - i,
    {
        let c = follow_update_chain(files[i].file_id, &files[i].file_name, &fl.file_updates);
        r.push(c);
        i = i + 1;
    }
    r
}

/// The files of `files` that have an update: their chain of replacements went
/// somewhere and its newest file is not downloaded (`latest_exists`).
pub open spec fn select_updatable(
    files: Seq<LocalFile>,
    chains: Seq<UpdateChain>,
    latest_exists: Seq<bool>,
) -> Seq<LocalFile>
    decreases files.len(),
{
    if files.len() == 0 {
        Seq::empty()
    } else {
        let n = files.len() - 1;
        let rest = select_updatable(files.drop_last(), chains.take(n), latest_exists.take(n));
        if chains[n].has_update && !latest_exists[n] {
            rest.push(files[n])
        } else {
            rest
        }
    }
}

/// The downloaded files of a mod that have an update, in their order, given
/// the chain of each (`chains`) and whether the newest file of each chain is
/// already downloaded (`latest_exists`).
pub fn check_mod(files: Vec<LocalFile>, chains: &Vec<UpdateChain>, latest_exists: &Vec<bool>) -> (r:
    Vec<LocalFile>)
    requires
        chains@.len() == files@.len(),
        latest_exists@.len() == files@.len(),
    ensures
        r@ == select_updatable(files@, chains@, latest_exists@),
{
    let mut have_updates: Vec<LocalFile> = Vec::new();
    let mut i: usize = 0;
    while i < files.len()
        invariant
            i <= files@.len(),
            chains@.len() == files@.len(),
            latest_exists@.len() == files@.len(),
            have_updates@ == select_updatable(
                files@.take(i as int),
                chains@.take(i as int),
                latest_exists@.take(i as int),
            ),
        decreases files@.len() - i,
    {
        proof {
            let f1 = files@.take(i + 1);
            assert(f1.drop_last() =~= files@.take(i as int));
            assert(chains@.take(i + 1).take(i as int) =~= chains@.take(i as int));
            assert(latest_exists@.take(i + 1).take(i as int) =~= latest_exists@.take(i as int));
        }
        if file_has_update(&chains[i], latest_exists[i]) {
            have_updates.push(files[i].clone());
        }
        i = i + 1;
    }
    proof {
        assert(files@.take(files@.len() as int) =~= files@);
        assert(chains@.take(files@.len() as int) =~= chains@);
        assert(latest_exists@.take(files@.len() as int) =~= latest_exists@);
    }
    have_updates
}

/// What the update check of a mod does after looking at its cached file list.
pub enum ModCheckStep {
    /// The cached list shows these files to have updates: the check is over.
    Done(Vec<LocalFile>),
    /// There is no cached list, or it shows no update, which may only mean it
    /// is stale: the list is to be requested, stored, and checked again.
    Refresh,
}

/// Decides from what the cached file list gave (`cached`: the files it shows
/// to have updates, `None` when the mod has no cached list) whether the
/// mod's file list has to be requested.
pub fn after_cached_check(cached: Option<Vec<LocalFile>>) -> (r: ModCheckStep)
    ensures
        match cached {
            Some(v) => if v@.len() > 0 {
                r matches ModCheckStep::Done(w) && w@ == v@
            } else {
                r is Refresh
            },
            None => r is Refresh,
        },
{
    match cached {
        Some(v) => {
            if v.len() > 0 {
                ModCheckStep::Done(v)
            } else {
                ModCheckStep::Refresh
            }
        },
        None => ModCheckStep::Refresh,
    }
}

/// Each downloaded file with its chain and whether the chain's newest file is
/// downloaded, position by position.
pub open spec fn file_checks(
    files: Seq<LocalFile>,
    chains: Seq<UpdateChain>,
    latest_exists: Seq<bool>,
) -> Seq<(LocalFile, UpdateChain, bool)> {
    Seq::new(files.len(), |i: int| (files[i], chains[i], latest_exists[i]))
}

/// The test a single file passes when it has an update.
pub open spec fn outdated() -> spec_fn((LocalFile, UpdateChain, bool)) -> bool {
    |t: (LocalFile, UpdateChain, bool)| t.1.has_update && !t.2
}

/// The files reported as having updates are exactly those whose own chain
/// went somewhere and whose own newest file is not downloaded, in their
/// order: each file is judged by itself, whatever the other files are.
pub proof fn lemma_updatable_is_per_file_filter(
    files: Seq<LocalFile>,
    chains: Seq<UpdateChain>,
    latest_exists: Seq<bool>,
)
    requires
        chains.len() == files.len(),
        latest_exists.len() == files.len(),
    ensures
        select_updatable(files, chains, latest_exists) == file_checks(files, chains, latest_exists).filter(
            outdated(),
        ).map_values(|t: (LocalFile, UpdateChain, bool)| t.0),
    decreases files.len(),
{
    let z = file_checks(files, chains, latest_exists);
    let f = |t: (LocalFile, UpdateChain, bool)| t.0;
    reveal_with_fuel(Seq::filter, 1);
    if files.len() == 0 {
        assert(z =~= Seq::<(LocalFile, UpdateChain, bool)>::empty());
        assert(z.filter(outdated()) =~= Seq::<(LocalFile, UpdateChain, bool)>::empty());
        assert(z.filter(outdated()).map_values(f) =~= Seq::<LocalFile>::empty());
    } else {
        let n = files.len() - 1;
        let f1 = files.drop_last();
        let c1 = chains.take(n);
        let e1 = latest_exists.take(n);
        lemma_updatable_is_per_file_filter(f1, c1, e1);
        let z1 = file_checks(f1, c1, e1);
        assert(z.drop_last() =~= z1);
        assert(z.last() == (files[n], chains[n], latest_exists[n]));
        let r1 = z1.filter(outdated());
        if chains[n].has_update && !latest_exists[n] {
            assert(z.filter(outdated()) == r1.push(z.last()));
            assert(r1.push(z.last()).map_values(f) =~= r1.map_values(f).push(files[n]));
        } else {
            assert(z.filter(outdated()) == r1);
        }
    }
}

} // verus!
