//! A transposition table: results of earlier searches, keyed by the hash of
//! the searched state.
use vstd::prelude::*;

use crate::interface::{Evaluation, Game};
use crate::strategies::iterative::Replacement;

verus! {

/// What a stored value says of the true value of its state.
#[derive(Clone, Copy, Debug, PartialEq, Eq, Structural)]
pub enum EntryFlag {
    /// The value is exact.
    Exact,
    /// The true value is at most the stored value.
    Upperbound,
    /// The true value is at least the stored value.
    Lowerbound,
}

/// A stored search result.
#[derive(Clone, Copy, Debug)]
pub struct Entry<M> {
    /// The hash of the searched state.
    pub hash: u64,
    /// The value found.
    pub value: Evaluation,
    /// The depth to which the state was searched.
    pub depth: u8,
    /// What `value` says of the true value.
    pub flag: EntryFlag,
    /// The generation of the table when the entry was stored.
    pub generation: u8,
    /// The best move found.
    pub best_move: Option<M>,
}

/// The flag that `update` stores for the value `best` found with the
/// window `alpha_orig`..`beta`.
pub open spec fn flag_for(alpha_orig: int, beta: int, best: int) -> EntryFlag {
    if best <= alpha_orig {
        EntryFlag::Upperbound
    } else if best >= beta {
        EntryFlag::Lowerbound
    } else {
        EntryFlag::Exact
    }
}

/// The index of the first of the two slots that `hash` may occupy, in a
/// table of `len` slots.
pub open spec fn bucket_of(hash: u64, len: nat) -> int {
    2 * (hash as int % (len as int / 2))
}

/// The bucket of a hash lies inside a table of buckets of two slots.
pub proof fn lemma_bucket_in_range(hash: u64, len: nat)
    requires
        len >= 2,
        len % 2 == 0,
    ensures
        0 <= bucket_of(hash, len),
        bucket_of(hash, len) + 1 < len,
{
    let half = len as int / 2;
    assert(half >= 1);
    let x = hash as int % half;
    assert(0 <= x < half) by {
        vstd::arithmetic::div_mod::lemma_mod_bound(hash as int, half);
    }
    assert(2 * half == len);
}

/// What a lookup of `hash` finds in `slots`: the entry of that hash in the
/// first slot of its bucket, else in the second, else nothing.
pub open spec fn lookup_in<M>(slots: Seq<Option<Entry<M>>>, hash: u64) -> Option<Entry<M>> {
    let b = bucket_of(hash, slots.len());
    if slots[b] is Some && slots[b]->0.hash == hash {
        slots[b]
    } else if slots[b + 1] is Some && slots[b + 1]->0.hash == hash {
        slots[b + 1]
    } else {
        None
    }
}

/// The entry that `store` makes.
pub open spec fn entry_of<M>(
    hash: u64,
    value: Evaluation,
    depth: u8,
    flag: EntryFlag,
    generation: u8,
    best_move: M,
) -> Entry<M> {
    Entry { hash, value, depth, flag, generation, best_move: Some(best_move) }
}

/// Whether a new entry of `hash` and `depth` may take the first slot of its
/// bucket, which holds `old`: it is empty, holds the same state, holds an
/// entry of an earlier generation, or one searched no deeper.
pub open spec fn may_replace<M>(old: Option<Entry<M>>, hash: u64, depth: u8, generation: u8) -> bool {
    match old {
        None => true,
        Some(e) => e.hash == hash || e.generation != generation || depth >= e.depth,
    }
}

/// `slots` after `store` of `entry` under `strategy`.
pub open spec fn stored_in<M>(
    slots: Seq<Option<Entry<M>>>,
    strategy: Replacement,
    entry: Entry<M>,
) -> Seq<Option<Entry<M>>> {
    let b = bucket_of(entry.hash, slots.len());
    match strategy {
        Replacement::Always => slots.update(b, Some(entry)),
        Replacement::DepthPreferred => if may_replace(
            slots[b],
            entry.hash,
            entry.depth,
            entry.generation,
        ) {
            slots.update(b, Some(entry))
        } else {
            slots
        },
        Replacement::TwoTier => if may_replace(
            slots[b],
            entry.hash,
            entry.depth,
            entry.generation,
        ) {
            slots.update(b, Some(entry))
        } else {
            slots.update(b + 1, Some(entry))
        },
    }
}

/// What `check` makes of the entry `found` for a search to `depth` with
/// the good move `good` and the window `alpha`..`beta`: the new good move,
/// the new window, and the value to return, if any.
pub open spec fn checked<M>(
    found: Option<Entry<M>>,
    depth: u8,
    good: Option<M>,
    alpha: Evaluation,
    beta: Evaluation,
) -> (Option<M>, Evaluation, Evaluation, Option<Evaluation>) {
    match found {
        None => (good, alpha, beta, None),
        Some(e) => if e.depth < depth {
            (e.best_move, alpha, beta, None)
        } else {
            match e.flag {
                EntryFlag::Exact => (e.best_move, alpha, beta, Some(e.value)),
                EntryFlag::Lowerbound => {
                    let a = if alpha > e.value {
                        alpha
                    } else {
                        e.value
                    };
                    (e.best_move, a, beta, if a >= beta {
                        Some(e.value)
                    } else {
                        None
                    })
                },
                EntryFlag::Upperbound => {
                    let b = if beta < e.value {
                        beta
                    } else {
                        e.value
                    };
                    (e.best_move, alpha, b, if alpha >= b {
                        Some(e.value)
                    } else {
                        None
                    })
                },
            }
        },
    }
}

/// The number of buckets of a table of about `bytes` bytes whose slots
/// take `slot_size` bytes each: as many as fit, and at least one.
pub open spec fn bucket_count(bytes: int, slot_size: int) -> int {
    let slots = if slot_size == 0 {
        bytes
    } else {
        bytes / slot_size
    };
    if slots / 2 == 0 {
        1
    } else {
        slots / 2
    }
}

/// A transposition table of a fixed number of slots, in buckets of two.
pub struct TranspositionTable<M> {
    table: Vec<Option<Entry<M>>>,
    generation: u8,
    strategy: Replacement,
}

impl<M: Copy> TranspositionTable<M> {
    /// The slots of the table.
    pub closed spec fn slots(&self) -> Seq<Option<Entry<M>>> {
        self.table@
    }

    /// The generation that new entries get.
    pub closed spec fn current_generation(&self) -> u8 {
        self.generation
    }

    /// The replacement strategy of the table.
    pub closed spec fn replacement(&self) -> Replacement {
        self.strategy
    }

    /// The table has buckets of two slots.
    pub open spec fn wf(&self) -> bool {
        &&& self.slots().len() >= 2
        &&& self.slots().len() % 2 == 0
    }

    /// Whether the table is well formed; `new` makes it so and every
    /// method keeps it so.
    pub fn is_well_formed(&self) -> (r: bool)
        ensures
            r == self.wf(),
    {
        self.table.len() >= 2 && self.table.len() % 2 == 0
    }

    /// The table holds no entry.
    pub open spec fn is_empty(&self) -> bool {
        forall|h: u64| #[trigger] self.lookup_spec(h) is None
    }

    /// What `lookup` finds for `hash`.
    pub open spec fn lookup_spec(&self, hash: u64) -> Option<Entry<M>> {
        lookup_in(self.slots(), hash)
    }

    /// An empty table of about `table_byte_size` bytes.
    pub fn new(table_byte_size: usize, strategy: Replacement) -> (r: Self)
        ensures
            r.wf(),
            r.replacement() == strategy,
            r.current_generation() == 0,
            r.slots().len() == 2 * bucket_count(
                table_byte_size as int,
                vstd::layout::size_of::<Option<Entry<M>>>() as int,
            ),
            forall|i: int| 0 <= i < r.slots().len() ==> r.slots()[i] is None,
            r.is_empty(),
    {
        let entry_size = core::mem::size_of::<Option<Entry<M>>>();
        let wanted = if entry_size == 0 {
            table_byte_size
        } else {
            table_byte_size / entry_size
        };
        let buckets = if wanted / 2 == 0 {
            1
        } else {
            wanted / 2
        };
        let mut table: Vec<Option<Entry<M>>> = Vec::new();
        let mut i: usize = 0;
        while i < buckets
            invariant
                0 <= i <= buckets,
                1 <= buckets <= usize::MAX / 2,
                table@.len() == 2 * i,
                forall|k: int| 0 <= k < table@.len() ==> table@[k] is None,
            decreases buckets - i,
        {
            table.push(None);
            table.push(None);
            i = i + 1;
        }
        let r = TranspositionTable { table, generation: 0, strategy };
        proof {
            assert forall|h: u64| #[trigger] r.lookup_spec(h) is None by {
                lemma_bucket_in_range(h, r.slots().len());
            }
        }
        r
    }

    /// The index of the first slot of the bucket of `hash`.
    fn bucket(&self, hash: u64) -> (r: usize)
        requires
            self.wf(),
        ensures
            r == bucket_of(hash, self.slots().len()),
            r + 1 < self.slots().len(),
    {
        let buckets = self.table.len() / 2;
        let b = (hash % (buckets as u64)) as usize;
        2 * b
    }

    /// The stored entry of `hash`, if the table still holds one.
    pub fn lookup(&self, hash: u64) -> (r: Option<Entry<M>>)
        requires
            self.wf(),
        ensures
            r == self.lookup_spec(hash),
            r matches Some(e) ==> e.hash == hash,
    {
        let b = self.bucket(hash);
        if let Some(e) = self.table[b] {
            if e.hash == hash {
                return Some(e);
            }
        }
        if let Some(e) = self.table[b + 1] {
            if e.hash == hash {
                return Some(e);
            }
        }
        None
    }

    /// Stores a search result, replacing an entry as the strategy says.
    pub fn store(&mut self, hash: u64, value: Evaluation, depth: u8, flag: EntryFlag, best_move: M)
        requires
            old(self).wf(),
        ensures
            final(self).wf(),
            final(self).current_generation() == old(self).current_generation(),
            final(self).replacement() == old(self).replacement(),
            final(self).slots() == stored_in(
                old(self).slots(),
                old(self).replacement(),
                entry_of(hash, value, depth, flag, old(self).current_generation(), best_move),
            ),
    {
        let entry = Entry {
            hash,
            value,
            depth,
            flag,
            generation: self.generation,
            best_move: Some(best_move),
        };
        let b = self.bucket(hash);
        let first_free = match self.table[b] {
            None => true,
            Some(e) => e.hash == hash || e.generation != self.generation || depth >= e.depth,
        };
        match self.strategy {
            Replacement::Always => {
                self.table.set(b, Some(entry));
            },
            Replacement::DepthPreferred => {
                if first_free {
                    self.table.set(b, Some(entry));
                }
            },
            Replacement::TwoTier => {
                if first_free {
                    self.table.set(b, Some(entry));
                } else {
                    self.table.set(b + 1, Some(entry));
                }
            },
        }
    }

    /// Starts a new generation: entries of earlier ones give way to new ones.
    pub fn advance_generation(&mut self)
        requires
            old(self).wf(),
        ensures
            final(self).wf(),
            final(self).slots() == old(self).slots(),
            final(self).replacement() == old(self).replacement(),
            final(self).current_generation() == (old(self).current_generation() + 1) % 256,
    {
        self.generation = self.generation.wrapping_add(1);
    }

    /// Reads what the table knows of a state of `hash` searched to `depth`:
    /// the best move stored for it goes to `good_move`; a bound stored from
    /// a search at least as deep narrows the window; an exact value, or a
    /// window that the narrowing closes, is returned.
    pub fn check(
        &self,
        hash: u64,
        depth: u8,
        good_move: &mut Option<M>,
        alpha: &mut Evaluation,
        beta: &mut Evaluation,
    ) -> (r: Option<Evaluation>)
        requires
            self.wf(),
        ensures
            (*final(good_move), *final(alpha), *final(beta), r) == checked(
                self.lookup_spec(hash),
                depth,
                *old(good_move),
                *old(alpha),
                *old(beta),
            ),
    {
        if let Some(entry) = self.lookup(hash) {
            *good_move = entry.best_move;
            if entry.depth >= depth {
                match entry.flag {
                    EntryFlag::Exact => {
                        return Some(entry.value);
                    },
                    EntryFlag::Lowerbound => {
                        if entry.value > *alpha {
                            *alpha = entry.value;
                        }
                    },
                    EntryFlag::Upperbound => {
                        if entry.value < *beta {
                            *beta = entry.value;
                        }
                    },
                }
                if *alpha >= *beta {
                    return Some(entry.value);
                }
            }
        }
        None
    }

    /// Some slot holds an exact entry whose best move is `m`.
    pub open spec fn records_exact_move(&self, m: M) -> bool {
        exists|i: int|
            0 <= i < self.slots().len() && #[trigger] self.slots()[i] is Some
                && self.slots()[i]->0.flag == EntryFlag::Exact && self.slots()[i]->0.best_move
                == Some(m)
    }

    /// Fills `pv` with the principal variation from `s` as far as the table
    /// remembers it: the best moves of exact entries, following the states
    /// they lead to, until an entry is missing or not exact, or a state's
    /// hash comes back.
    pub fn populate_pv<G: Game<M = M>>(&self, pv: &mut Vec<M>, s: &G::S) where G::S: Clone
        requires
            self.wf(),
        ensures
            forall|i: int| 0 <= i < final(pv)@.len() ==> self.records_exact_move(#[trigger] final(pv)@[i]),
    {
        pv.clear();
        let mut hash_history: Vec<u64> = Vec::new();
        let mut hash = G::zobrist_hash(s);
        let mut s = s.clone();
        loop
            invariant
                self.wf(),
                hash_history@.no_duplicates(),
                forall|i: int| 0 <= i < pv@.len() ==> self.records_exact_move(#[trigger] pv@[i]),
            decreases 0x1_0000_0000_0000_0000 - hash_history@.len(),
        {
            let entry = match self.lookup(hash) {
                Some(e) => e,
                None => {
                    break;
                },
            };
            // The principal variation has only exact nodes: the others come
            // from cutoffs where the node is proven worse than another.
            if entry.flag != EntryFlag::Exact {
                break;
            }
            let m = match entry.best_move {
                Some(m) => m,
                None => {
                    break;
                },
            };
            proof {
                let b = bucket_of(hash, self.slots().len());
                if self.slots()[b] is Some && self.slots()[b]->0.hash == hash {
                    assert(self.slots()[b] is Some);
                } else {
                    assert(self.slots()[b + 1] is Some);
                }
            }
            pv.push(m);
            if let Some(new_s) = G::apply(&mut s, m) {
                s = new_s;
            }
            hash = G::zobrist_hash(&s);
            // Keep cyclical variations from growing without end.
            if contains_hash(&hash_history, hash) {
                break;
            }
            proof {
                lemma_distinct_hashes_bounded(hash_history@, hash);
            }
            hash_history.push(hash);
        }
    }

    /// Stores the value `best` found with the window `alpha_orig`..`beta`,
    /// flagged as an upper bound if it is at most `alpha_orig`, as a lower
    /// bound if it is at least `beta`, and as exact otherwise.
    pub fn update(
        &mut self,
        hash: u64,
        alpha_orig: Evaluation,
        beta: Evaluation,
        depth: u8,
        best: Evaluation,
        best_move: M,
    )
        requires
            old(self).wf(),
        ensures
            final(self).wf(),
            final(self).current_generation() == old(self).current_generation(),
            final(self).replacement() == old(self).replacement(),
            final(self).slots() == stored_in(
                old(self).slots(),
                old(self).replacement(),
                entry_of(
                    hash,
                    best,
                    depth,
                    flag_for(alpha_orig as int, beta as int, best as int),
                    old(self).current_generation(),
                    best_move,
                ),
            ),
    {
        let flag = if best <= alpha_orig {
            EntryFlag::Upperbound
        } else if best >= beta {
            EntryFlag::Lowerbound
        } else {
            EntryFlag::Exact
        };
        self.store(hash, best, depth, flag, best_move);
    }
}

/// Whether `hashes` holds `hash`.
fn contains_hash(hashes: &Vec<u64>, hash: u64) -> (r: bool)
    ensures
        r == hashes@.contains(hash),
{
    let mut i: usize = 0;
    while i < hashes.len()
        invariant
            0 <= i <= hashes.len(),
            forall|k: int| 0 <= k < i ==> hashes@[k] != hash,
        decreases hashes.len() - i,
    {
        if hashes[i] == hash {
            return true;
        }
        i = i + 1;
    }
    false
}

/// Distinct hashes that leave one hash out number fewer than all hashes.
proof fn lemma_distinct_hashes_bounded(hashes: Seq<u64>, missing: u64)
    requires
        hashes.no_duplicates(),
        !hashes.contains(missing),
    ensures
        hashes.len() < 0x1_0000_0000_0000_0000,
{
    let ints = hashes.map_values(|h: u64| h as int);
    assert(ints.no_duplicates()) by {
        assert forall|i: int, j: int|
            0 <= i < ints.len() && 0 <= j < ints.len() && i != j implies ints[i] != ints[j] by {
            assert(hashes[i] != hashes[j]);
        }
    }
    ints.unique_seq_to_set();
    let full = vstd::set_lib::set_int_range(0, 0x1_0000_0000_0000_0000);
    vstd::set_lib::lemma_int_range(0, 0x1_0000_0000_0000_0000);
    let room = full.remove(missing as int);
    assert(ints.to_set().subset_of(room)) by {
        assert forall|x: int| ints.to_set().contains(x) implies room.contains(x) by {
            assert(ints.contains(x));
            let k = choose|k: int| 0 <= k < ints.len() && ints[k] == x;
            assert(hashes[k] != missing);
        }
    }
    vstd::set_lib::lemma_len_subset(ints.to_set(), room);
}

/// A lookup right after a store of a hash finds the stored entry, unless a
/// depth preferring table kept the entry that was there.
pub proof fn lemma_lookup_after_store<M>(
    slots: Seq<Option<Entry<M>>>,
    strategy: Replacement,
    entry: Entry<M>,
)
    requires
        slots.len() >= 2,
        slots.len() % 2 == 0,
    ensures
        ({
            let after = stored_in(slots, strategy, entry);
            let b = bucket_of(entry.hash, slots.len());
            &&& strategy != Replacement::DepthPreferred ==> lookup_in(after, entry.hash) == Some(
                entry,
            )
            &&& strategy == Replacement::DepthPreferred ==> if may_replace(
                slots[b],
                entry.hash,
                entry.depth,
                entry.generation,
            ) {
                lookup_in(after, entry.hash) == Some(entry)
            } else {
                after == slots
            }
        }),
{
    let b = bucket_of(entry.hash, slots.len());
    assert(0 <= b && b + 1 < slots.len()) by {
        let n = slots.len() as int / 2;
        assert(entry.hash as int % n < n);
    }
}

/// A lookup finds only entries of the hash that it looks for.
pub proof fn lemma_lookup_matches_hash<M>(slots: Seq<Option<Entry<M>>>, hash: u64)
    ensures
        lookup_in(slots, hash) matches Some(e) ==> e.hash == hash,
{
}

} // verus!
