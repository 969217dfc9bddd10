//! A cache of records read from disk, keyed by a game and a number (a mod id
//! or a file id). A key can also hold the knowledge that no record exists, so
//! that a missing file is not read again.
use crate::text::str_eq;
use vstd::prelude::*;

verus! {

/// No key is listed twice.
pub open spec fn keys_distinct<V>(es: Seq<(String, u64, Option<V>)>) -> bool {
    forall|i: int, j: int|
        0 <= i < es.len() && 0 <= j < es.len() && i != j ==> !(es[i].0@ == es[j].0@ && es[i].1
            == es[j].1)
}

/// What is stored under `game` and `id`.
pub open spec fn entry_lookup<V>(es: Seq<(String, u64, Option<V>)>, game: Seq<char>, id: u64) -> Option<
    Option<V>,
> {
    if exists|i: int| 0 <= i < es.len() && (#[trigger] es[i]).0@ == game && es[i].1 == id {
        Some(es[choose|i: int| 0 <= i < es.len() && (#[trigger] es[i]).0@ == game && es[i].1 == id].2)
    } else {
        None
    }
}

proof fn lemma_entry_lookup<V>(es: Seq<(String, u64, Option<V>)>, i: int)
    requires
        keys_distinct(es),
        0 <= i < es.len(),
    ensures
        entry_lookup(es, es[i].0@, es[i].1) == Some(es[i].2),
{
    let g = es[i].0@;
    let id = es[i].1;
    assert(es[i].0@ == g && es[i].1 == id);
    let k = choose|k: int| 0 <= k < es.len() && (#[trigger] es[k]).0@ == g && es[k].1 == id;
    assert(k == i);
}

/// Records keyed by a game and a number; a key may record that nothing exists.
pub struct KeyedCache<V> {
    entries: Vec<(String, u64, Option<V>)>,
}

impl<V> KeyedCache<V> {
    /// What is stored under `game` and `id`: nothing when the key was never
    /// stored, else the record or the knowledge that there is none.
    pub closed spec fn lookup(self, game: Seq<char>, id: u64) -> Option<Option<V>> {
        entry_lookup(self.entries@, game, id)
    }

    /// No key is stored twice.
    pub closed spec fn well_formed(self) -> bool {
        keys_distinct(self.entries@)
    }

    /// An empty cache.
    pub fn new() -> (r: Self)
        ensures
            r.well_formed(),
            forall|g: Seq<char>, id: u64| #[trigger] r.lookup(g, id) is None,
    {
        KeyedCache { entries: Vec::new() }
    }

    fn position(&self, game: &str, id: u64) -> (r: Option<usize>)
        ensures
            match r {
                Some(i) => i < self.entries@.len() && self.entries@[i as int].0@ == game@
                    && self.entries@[i as int].1 == id,
                None => forall|j: int|
                    0 <= j < self.entries@.len() ==> !((#[trigger] self.entries@[j]).0@ == game@
                        && self.entries@[j].1 == id),
            },
    {
        let mut i: usize = 0;
        while i < self.entries.len()
            invariant
                i <= self.entries@.len(),
                forall|j: int|
                    0 <= j < i ==> !((#[trigger] self.entries@[j]).0@ == game@ && self.entries@[j].1
                        == id),
            decreases self.entries@.len() - i,
        {
            if self.entries[i].1 == id && str_eq(self.entries[i].0.as_str(), game) {
                return Some(i);
            }
            i = i + 1;
        }
        None
    }

    /// What is stored under `game` and `id`, if anything.
    pub fn get(&self, game: &str, id: u64) -> (r: Option<&Option<V>>)
        requires
            self.well_formed(),
        ensures
            match self.lookup(game@, id) {
                Some(v) => r == Some(&v),
                None => r is None,
            },
    {
        match self.position(game, id) {
            Some(i) => {
                proof {
                    lemma_entry_lookup(self.entries@, i as int);
                }
                Some(&self.entries[i].2)
            },
            None => None,
        }
    }

    /// Stores `value` under `game` and `id`, replacing what was there.
    pub fn insert(&mut self, game: String, id: u64, value: Option<V>)
        requires
            old(self).well_formed(),
        ensures
            final(self).well_formed(),
            forall|g: Seq<char>, k: u64|
                #[trigger] final(self).lookup(g, k) == if g == game@ && k == id {
                    Some(value)
                } else {
                    old(self).lookup(g, k)
                },
    {
        let ghost before = self.entries@;
        let ghost gm = game@;
        let ghost v = value;
        match self.position(game.as_str(), id) {
            Some(p) => {
                self.entries.set(p, (game, id, value));
                proof {
                    let after = self.entries@;
                    assert(keys_distinct(after)) by {
                        assert forall|i: int, j: int|
                            0 <= i < after.len() && 0 <= j < after.len() && i != j implies !(
                            after[i].0@ == after[j].0@ && after[i].1 == after[j].1) by {
                            if i != p && j != p {
                                assert(after[i] == before[i] && after[j] == before[j]);
                            } else if i == p {
                                assert(after[j] == before[j]);
                            } else {
                                assert(after[i] == before[i]);
                            }
                        }
                    }
                    assert forall|g: Seq<char>, k: u64|
                        #[trigger] entry_lookup(after, g, k) == if g == gm && k == id {
                            Some(v)
                        } else {
                            entry_lookup(before, g, k)
                        } by {
                        if g == gm && k == id {
                            lemma_entry_lookup(after, p as int);
                        } else if exists|i: int|
                            0 <= i < before.len() && (#[trigger] before[i]).0@ == g && before[i].1 == k {
                            let i = choose|i: int|
                                0 <= i < before.len() && (#[trigger] before[i]).0@ == g && before[i].1
                                    == k;
                            lemma_entry_lookup(before, i);
                            lemma_entry_lookup(after, i);
                        } else {
                            assert(!exists|i: int|
                                0 <= i < after.len() && (#[trigger] after[i]).0@ == g && after[i].1
                                    == k) by {
                                if exists|i: int|
                                    0 <= i < after.len() && (#[trigger] after[i]).0@ == g && after[i].1
                                        == k {
                                    let i = choose|i: int|
                                        0 <= i < after.len() && (#[trigger] after[i]).0@ == g
                                            && after[i].1 == k;
                                    assert(before[i].0@ == g && before[i].1 == k);
                                }
                            }
                        }
                    }
                }
            },
            None => {
                self.entries.push((game, id, value));
                proof {
                    let after = self.entries@;
                    let n = before.len() as int;
                    assert(keys_distinct(after)) by {
                        assert forall|i: int, j: int|
                            0 <= i < after.len() && 0 <= j < after.len() && i != j implies !(
                            after[i].0@ == after[j].0@ && after[i].1 == after[j].1) by {
                            if i < n && j < n {
                                assert(after[i] == before[i] && after[j] == before[j]);
                            } else if i == n {
                                assert(after[j] == before[j]);
                            } else {
                                assert(after[i] == before[i]);
                            }
                        }
                    }
                    assert forall|g: Seq<char>, k: u64|
                        #[trigger] entry_lookup(after, g, k) == if g == gm && k == id {
                            Some(v)
                        } else {
                            entry_lookup(before, g, k)
                        } by {
                        if g == gm && k == id {
                            lemma_entry_lookup(after, n);
                        } else if exists|i: int|
                            0 <= i < before.len() && (#[trigger] before[i]).0@ == g && before[i].1 == k {
                            let i = choose|i: int|
                                0 <= i < before.len() && (#[trigger] before[i]).0@ == g && before[i].1
                                    == k;
                            lemma_entry_lookup(before, i);
                            lemma_entry_lookup(after, i);
                        } else {
                            assert(!exists|i: int|
                                0 <= i < after.len() && (#[trigger] after[i]).0@ == g && after[i].1
                                    == k) by {
                                if exists|i: int|
                                    0 <= i < after.len() && (#[trigger] after[i]).0@ == g && after[i].1
                                        == k {
                                    let i = choose|i: int|
                                        0 <= i < after.len() && (#[trigger] after[i]).0@ == g
                                            && after[i].1 == k;
                                    assert(before[i].0@ == g && before[i].1 == k);
                                }
                            }
                        }
                    }
                }
            },
        }
    }
    /// Takes out what is stored under `game` and `id`, if anything.
    pub fn remove(&mut self, game: &str, id: u64) -> (r: Option<Option<V>>)
        requires
            old(self).well_formed(),
        ensures
            final(self).well_formed(),
            r == old(self).lookup(game@, id),
            forall|g: Seq<char>, k: u64|
                #[trigger] final(self).lookup(g, k) == if g == game@ && k == id {
                    None
                } else {
                    old(self).lookup(g, k)
                },
    {
        let ghost before = self.entries@;
        match self.position(game, id) {
            Some(p) => {
                proof {
                    lemma_entry_lookup(before, p as int);
                }
                let e = self.entries.remove(p);
                proof {
                    let after = self.entries@;
                    assert(after =~= before.remove(p as int));
                    assert(keys_distinct(after)) by {
                        assert forall|i: int, j: int|
                            0 <= i < after.len() && 0 <= j < after.len() && i != j implies !(
                            after[i].0@ == after[j].0@ && after[i].1 == after[j].1) by {
                            let si = if i < p {
                                i
                            } else {
                                i + 1
                            };
                            let sj = if j < p {
                                j
                            } else {
                                j + 1
                            };
                            assert(after[i] == before[si] && after[j] == before[sj]);
                        }
                    }
                    assert forall|g: Seq<char>, k: u64|
                        #[trigger] entry_lookup(after, g, k) == if g == game@ && k == id {
                            None
                        } else {
                            entry_lookup(before, g, k)
                        } by {
                        if exists|i: int| 0 <= i < after.len() && (#[trigger] after[i]).0@ == g && after[i].1 == k {
                            let i = choose|i: int|
                                0 <= i < after.len() && (#[trigger] after[i]).0@ == g && after[i].1 == k;
                            let si = if i < p {
                                i
                            } else {
                                i + 1
                            };
                            assert(after[i] == before[si]);
                            assert(si != p);
                            lemma_entry_lookup(before, si);
                            lemma_entry_lookup(after, i);
                        } else {
                            if g != game@ || k != id {
                                assert(!exists|i: int|
                                    0 <= i < before.len() && (#[trigger] before[i]).0@ == g && before[i].1
                                        == k) by {
                                    if exists|i: int|
                                        0 <= i < before.len() && (#[trigger] before[i]).0@ == g
                                            && before[i].1 == k {
                                        let i = choose|i: int|
                                            0 <= i < before.len() && (#[trigger] before[i]).0@ == g
                                                && before[i].1 == k;
                                        assert(i != p);
                                        let ai = if i < p {
                                            i
                                        } else {
                                            i - 1
                                        };
                                        assert(after[ai] == before[i]);
                                    }
                                }
                            }
                        }
                    }
                }
                Some(e.2)
            },
            None => None,
        }
    }
}

/// What was stored is what is read back, and storing under one key leaves
/// every other key as it was.
pub proof fn lemma_insert_then_lookup<V>(
    before: KeyedCache<V>,
    after: KeyedCache<V>,
    game: Seq<char>,
    id: u64,
    value: Option<V>,
    other_game: Seq<char>,
    other_id: u64,
)
    requires
        forall|g: Seq<char>, k: u64|
            #[trigger] after.lookup(g, k) == if g == game && k == id {
                Some(value)
            } else {
                before.lookup(g, k)
            },
        !(other_game == game && other_id == id),
    ensures
        after.lookup(game, id) == Some(value),
        after.lookup(other_game, other_id) == before.lookup(other_game, other_id),
{
    assert(after.lookup(game, id) == Some(value));
    assert(after.lookup(other_game, other_id) == before.lookup(other_game, other_id));
}

} // verus!
