//! Helpers shared by the searches: value clamping and move ordering.
use vstd::prelude::*;

use crate::interface::{Evaluation, Game, BEST_EVAL, WORST_EVAL};
use vstd::std_specs::cmp::PartialEqSpec;

verus! {

broadcast use vstd::seq_lib::group_to_multiset_ensures;

/// The value that `clamp_value` gives to `value`: values near a win or a loss
/// are moved one step toward zero, so that a quicker win (or a slower loss)
/// scores better once it is passed up the tree.
pub open spec fn clamped(value: int) -> int {
    if value > BEST_EVAL - 100 {
        value - 1
    } else if value < WORST_EVAL + 100 {
        value + 1
    } else {
        value
    }
}

/// The value that `unclamp_value` gives to `value`: values near a win or a
/// loss are read as the win or the loss itself.
pub open spec fn unclamped(value: int) -> int {
    if value > BEST_EVAL - 100 {
        BEST_EVAL as int
    } else if value < WORST_EVAL + 100 {
        WORST_EVAL as int
    } else {
        value
    }
}

/// Moves values near a win or a loss one step toward zero.
pub fn clamp_value(value: Evaluation) -> (r: Evaluation)
    ensures
        r == clamped(value as int),
{
    if value > BEST_EVAL - 100 {
        value - 1
    } else if value < WORST_EVAL + 100 {
        value + 1
    } else {
        value
    }
}

/// Reads values near a win or a loss as the win or the loss.
pub fn unclamp_value(value: Evaluation) -> (r: Evaluation)
    ensures
        r == unclamped(value as int),
{
    if value > BEST_EVAL - 100 {
        BEST_EVAL
    } else if value < WORST_EVAL + 100 {
        WORST_EVAL
    } else {
        value
    }
}

/// Clamping keeps the order of values and moves each by at most one step.
pub proof fn lemma_clamp_monotonic(a: int, b: int)
    requires
        a <= b,
    ensures
        clamped(a) <= clamped(b),
        a - 1 <= clamped(a) <= a + 1,
{
}

/// Unclamping undoes clamping away from the edges of the clamped bands,
/// and a clamped win or loss still reads as the win or the loss.
pub proof fn lemma_unclamp_clamp(v: int)
    requires
        WORST_EVAL <= v <= BEST_EVAL,
    ensures
        v > BEST_EVAL - 99 ==> unclamped(clamped(v)) == BEST_EVAL,
        v < WORST_EVAL + 99 ==> unclamped(clamped(v)) == WORST_EVAL,
        WORST_EVAL + 100 <= v <= BEST_EVAL - 100 ==> unclamped(clamped(v)) == v,
        unclamped(unclamped(v)) == unclamped(v),
{
}

/// The keys of `items` do not increase.
pub open spec fn sorted_desc<T>(items: Seq<(u64, T)>) -> bool {
    forall|i: int, j: int| 0 <= i < j < items.len() ==> #[trigger] items[i].0 >= #[trigger] items[j].0
}

/// `k` is the index of the first item of `items` with the largest key.
pub open spec fn is_first_max<T>(items: Seq<(u64, T)>, k: int) -> bool {
    &&& 0 <= k < items.len()
    &&& forall|j: int| 0 <= j < items.len() ==> #[trigger] items[j].0 <= items[k].0
    &&& forall|j: int| 0 <= j < k ==> #[trigger] items[j].0 < items[k].0
}

/// Swapping two items permutes the items.
proof fn lemma_swap_permutes<T>(s: Seq<T>, a: int, b: int)
    requires
        0 <= a < s.len(),
        0 <= b < s.len(),
    ensures
        s.update(a, s[b]).update(b, s[a]).to_multiset() == s.to_multiset(),
{
    let t = s.update(a, s[b]);
    vstd::seq_lib::to_multiset_update(s, a, s[b]);
    vstd::seq_lib::to_multiset_update(t, b, s[a]);
    if a == b {
        assert(t.update(b, s[a]) =~= s);
    } else {
        assert(t[b] == s[b]);
        assert(s.to_multiset().insert(s[b]).remove(s[a]).insert(s[a]).remove(s[b]) =~= s.to_multiset());
    }
}

/// `now` is `prev` with its item at `i` moved down to `j`, past items of
/// smaller keys only, and stopped at an item of no smaller key.
#[verifier::opaque]
pub open spec fn inserted_at<T>(prev: Seq<(u64, T)>, now: Seq<(u64, T)>, i: int, j: int) -> bool {
    &&& 0 <= j <= i < prev.len()
    &&& now.len() == prev.len()
    &&& now[j] == prev[i]
    &&& forall|t: int| 0 <= t < j ==> now[t] == prev[t]
    &&& forall|t: int| j < t <= i ==> now[t] == prev[t - 1]
    &&& forall|t: int| j < t <= i ==> #[trigger] now[t].0 < prev[i].0
    &&& forall|t: int| i < t < prev.len() ==> now[t] == prev[t]
    &&& j > 0 ==> !(now[j - 1].0 < prev[i].0)
}

/// What the sort knows of its items after `i` steps.
#[verifier::opaque]
pub open spec fn sort_progress<T>(orig: Seq<(u64, T)>, cur: Seq<(u64, T)>, i: int) -> bool {
    &&& 1 <= i <= orig.len()
    &&& cur.len() == orig.len()
    &&& cur.skip(i) == orig.skip(i)
    &&& sorted_desc(cur.take(i))
    &&& exists|k: int| is_first_max(orig.take(i), k) && cur[0] == orig[k]
}

/// Inserting the next item keeps the sorted prefix sorted.
proof fn lemma_insertion_sorted<T>(prev: Seq<(u64, T)>, now: Seq<(u64, T)>, i: int, j: int)
    requires
        sorted_desc(prev.take(i)),
        inserted_at(prev, now, i, j),
    ensures
        sorted_desc(now.take(i + 1)),
{
    reveal(inserted_at);
    let x = prev[i];
    assert forall|p: int, q: int| 0 <= p < q < i + 1 implies #[trigger] now.take(i + 1)[p].0
        >= #[trigger] now.take(i + 1)[q].0 by {
        if q < j {
            assert(prev.take(i)[p].0 >= prev.take(i)[q].0);
        } else if q == j {
            if p < j - 1 {
                assert(prev.take(i)[p].0 >= prev.take(i)[j - 1].0);
            }
        } else {
            if p < j {
                assert(prev.take(i)[p].0 >= prev.take(i)[q - 1].0);
            } else if p > j {
                assert(prev.take(i)[p - 1].0 >= prev.take(i)[q - 1].0);
            }
        }
    }
}

/// After an insertion step, the items past the prefix are still the
/// items given.
proof fn lemma_insertion_suffix<T>(orig: Seq<(u64, T)>, prev: Seq<(u64, T)>, now: Seq<(u64, T)>, i: int, j: int)
    requires
        prev.len() == orig.len(),
        prev.skip(i) == orig.skip(i),
        i < orig.len(),
        inserted_at(prev, now, i, j),
    ensures
        now.skip(i + 1) == orig.skip(i + 1),
        prev[i] == orig[i],
        now.len() == orig.len(),
{
    reveal(inserted_at);
    assert(prev.skip(i)[0] == orig.skip(i)[0]);
    assert(now.skip(i + 1) =~= orig.skip(i + 1)) by {
        assert forall|t: int| 0 <= t < now.skip(i + 1).len() implies #[trigger] now.skip(i + 1)[t]
            == orig.skip(i + 1)[t] by {
            assert(prev.skip(i)[t + 1] == orig.skip(i)[t + 1]);
        }
    }
}

/// After an insertion step, the first item is the first given item of
/// the largest key.
proof fn lemma_insertion_first<T>(orig: Seq<(u64, T)>, prev: Seq<(u64, T)>, now: Seq<(u64, T)>, i: int, j: int, k: int)
    requires
        sorted_desc(prev.take(i)),
        is_first_max(orig.take(i), k),
        prev[0] == orig[k],
        prev[i] == orig[i],
        1 <= i < orig.len(),
        inserted_at(prev, now, i, j),
    ensures
        exists|k2: int| is_first_max(orig.take(i + 1), k2) && now[0] == orig[k2],
{
    reveal(inserted_at);
    assert forall|u: int| 0 <= u < i implies #[trigger] orig[u].0 <= prev[0].0 by {
        assert(orig.take(i)[u].0 <= orig.take(i)[k].0);
    }
    if j == 0 {
        assert(prev[0].0 < orig[i].0) by {
            assert(now[1] == prev[0]);
        }
        assert forall|u: int| 0 <= u < i + 1 implies #[trigger] orig.take(i + 1)[u].0
            <= orig.take(i + 1)[i].0 by {
            if u < i {
                assert(orig[u].0 <= prev[0].0);
            }
        }
        assert forall|u: int| 0 <= u < i implies #[trigger] orig.take(i + 1)[u].0
            < orig.take(i + 1)[i].0 by {
            assert(orig[u].0 <= prev[0].0);
        }
        assert(is_first_max(orig.take(i + 1), i));
        assert(now[0] == orig[i]);
    } else {
        assert(now[0] == prev[0]);
        assert(orig[i].0 <= prev[0].0) by {
            if j - 1 > 0 {
                assert(prev.take(i)[0].0 >= prev.take(i)[j - 1].0);
            }
        }
        assert forall|u: int| 0 <= u < i + 1 implies #[trigger] orig.take(i + 1)[u].0
            <= orig.take(i + 1)[k].0 by {
            if u < i {
                assert(orig.take(i)[u].0 <= orig.take(i)[k].0);
            }
        }
        assert forall|u: int| 0 <= u < k implies #[trigger] orig.take(i + 1)[u].0
            < orig.take(i + 1)[k].0 by {
            assert(orig.take(i)[u].0 < orig.take(i)[k].0);
        }
        assert(is_first_max(orig.take(i + 1), k));
    }
}

/// Once every item is inserted, the items are sorted and the first one is
/// the first given item of the largest key.
proof fn lemma_sort_done<T>(orig: Seq<(u64, T)>, cur: Seq<(u64, T)>)
    requires
        sort_progress(orig, cur, orig.len() as int),
    ensures
        sorted_desc(cur),
        cur.len() == orig.len(),
        exists|k: int| is_first_max(orig, k) && cur[0] == orig[k],
{
    reveal(sort_progress);
    assert(cur.take(orig.len() as int) =~= cur);
    assert(orig.take(orig.len() as int) =~= orig);
}

/// One insertion step of the sort keeps what the sort knows.
proof fn lemma_insertion_step<T>(orig: Seq<(u64, T)>, prev: Seq<(u64, T)>, now: Seq<(u64, T)>, i: int, j: int)
    requires
        sort_progress(orig, prev, i),
        i < orig.len(),
        inserted_at(prev, now, i, j),
    ensures
        sort_progress(orig, now, i + 1),
{
    reveal(sort_progress);
    lemma_insertion_suffix(orig, prev, now, i, j);
    lemma_insertion_sorted(prev, now, i, j);
    let k = choose|k: int| is_first_max(orig.take(i), k) && prev[0] == orig[k];
    lemma_insertion_first(orig, prev, now, i, j, k);
}

/// `sorted` with `x` put after its items of no smaller key, and before the
/// items of smaller key that end it.
pub open spec fn insert_desc<T>(sorted: Seq<(u64, T)>, x: (u64, T)) -> Seq<(u64, T)>
    decreases sorted.len(),
{
    if sorted.len() == 0 {
        seq![x]
    } else if sorted.last().0 < x.0 {
        insert_desc(sorted.drop_last(), x).push(sorted.last())
    } else {
        sorted.push(x)
    }
}

/// The items sorted by decreasing key, items of equal keys in their given
/// order: each item in turn put after the items of no smaller key.
pub open spec fn stable_sorted_desc<T>(items: Seq<(u64, T)>) -> Seq<(u64, T)>
    decreases items.len(),
{
    if items.len() == 0 {
        Seq::empty()
    } else {
        insert_desc(stable_sorted_desc(items.drop_last()), items.last())
    }
}

/// Putting `x` into a prefix of `prev` whose last items all have smaller
/// keys than `x` puts it into the shorter prefix, the items after it.
proof fn lemma_insert_past_smaller<T>(prev: Seq<(u64, T)>, x: (u64, T), j: int, i: int)
    requires
        0 <= j <= i <= prev.len(),
        forall|t: int| j <= t < i ==> #[trigger] prev[t].0 < x.0,
    ensures
        insert_desc(prev.take(i), x) == insert_desc(prev.take(j), x) + prev.subrange(j, i),
    decreases i - j,
{
    if i == j {
        assert(prev.subrange(j, i) =~= Seq::<(u64, T)>::empty());
        assert(insert_desc(prev.take(j), x) + prev.subrange(j, i) =~= insert_desc(prev.take(j), x));
    } else {
        lemma_insert_past_smaller(prev, x, j, i - 1);
        assert(prev.take(i).drop_last() =~= prev.take(i - 1));
        assert(prev.take(i).last() == prev[i - 1]);
        assert(prev.subrange(j, i) =~= prev.subrange(j, i - 1).push(prev[i - 1]));
        assert((insert_desc(prev.take(j), x) + prev.subrange(j, i - 1)).push(prev[i - 1])
            =~= insert_desc(prev.take(j), x) + prev.subrange(j, i));
    }
}

/// Sorts `items` by decreasing key, keeping items of equal keys in their
/// order: the first item is the first one of the largest key.
pub fn sort_by_key_desc<T: Copy>(items: &mut Vec<(u64, T)>)
    ensures
        final(items)@ == stable_sorted_desc(old(items)@),
        final(items)@.to_multiset() == old(items)@.to_multiset(),
        final(items)@.len() == old(items)@.len(),
        sorted_desc(final(items)@),
        final(items)@.len() > 0 ==> exists|k: int|
            is_first_max(old(items)@, k) && final(items)@[0] == old(items)@[k],
{
    let ghost orig = items@;
    let n = items.len();
    if n == 0 {
        return;
    }
    let mut i: usize = 1;
    proof {
        assert(orig.take(1).drop_last() =~= orig.take(0));
        assert(stable_sorted_desc(orig.take(0)) =~= Seq::<(u64, T)>::empty());
        assert(items@.take(1) =~= stable_sorted_desc(orig.take(1)));
        assert(is_first_max(orig.take(1), 0));
        assert(items@[0] == orig[0]);
        reveal(sort_progress);
        assert(sort_progress(orig, items@, 1));
    }
    while i < n
        invariant
            1 <= i <= n,
            n == items@.len(),
            n == orig.len(),
            orig == old(items)@,
            items@.to_multiset() == orig.to_multiset(),
            sort_progress(orig, items@, i as int),
            items@.take(i as int) == stable_sorted_desc(orig.take(i as int)),
            forall|t: int| i <= t < n ==> items@[t] == orig[t],
        decreases n - i,
    {
        let ghost prev = items@;
        let x = items[i];
        let mut j: usize = i;
        while j > 0 && items[j - 1].0 < x.0
            invariant
                0 <= j <= i < n,
                n == items@.len(),
                n == prev.len(),
                items@[j as int] == x,
                items@.to_multiset() == prev.to_multiset(),
                forall|t: int| 0 <= t < j ==> items@[t] == prev[t],
                forall|t: int| j < t <= i ==> items@[t] == prev[t - 1],
                forall|t: int| j < t <= i ==> #[trigger] items@[t].0 < x.0,
                forall|t: int| i < t < n ==> items@[t] == prev[t],
            decreases j,
        {
            let a = items[j - 1];
            let b = items[j];
            proof {
                lemma_swap_permutes(items@, j - 1, j as int);
            }
            items.set(j - 1, b);
            items.set(j, a);
            j = j - 1;
        }
        proof {
            reveal(inserted_at);
            assert(inserted_at(prev, items@, i as int, j as int));
            lemma_insertion_step(orig, prev, items@, i as int, j as int);
            assert forall|t: int| j <= t < i implies #[trigger] prev[t].0 < x.0 by {
                assert(items@[t + 1] == prev[t]);
            }
            lemma_insert_past_smaller(prev, x, j as int, i as int);
            if j > 0 {
                assert(prev.take(j as int).last() == prev[j - 1]);
            }
            assert(insert_desc(prev.take(j as int), x) =~= prev.take(j as int).push(x));
            assert(items@.take(i + 1) =~= insert_desc(prev.take(j as int), x) + prev.subrange(
                j as int,
                i as int,
            ));
            assert(orig.take(i + 1).drop_last() =~= orig.take(i as int));
            assert(orig.take(i + 1).last() == x);
        }
        i = i + 1;
    }
    proof {
        lemma_sort_done(orig, items@);
        assert(items@.take(n as int) =~= items@);
        assert(orig.take(n as int) =~= orig);
    }
}

/// Mapping two permutations of each other gives permutations of each other.
pub proof fn lemma_map_permutation<A, B>(a: Seq<A>, b: Seq<A>, f: spec_fn(A) -> B)
    requires
        a.to_multiset() == b.to_multiset(),
    ensures
        a.map_values(f).to_multiset() == b.map_values(f).to_multiset(),
    decreases a.len(),
{
    vstd::seq_lib::to_multiset_len(a);
    vstd::seq_lib::to_multiset_len(b);
    if a.len() == 0 {
        assert(a.map_values(f) =~= b.map_values(f));
    } else {
        let x = a[0];
        assert(a.to_multiset().count(x) > 0) by {
            vstd::seq_lib::to_multiset_contains(a, x);
        }
        vstd::seq_lib::to_multiset_contains(b, x);
        let k = choose|k: int| 0 <= k < b.len() && b[k] == x;
        let a1 = a.drop_first();
        let b1 = b.remove(k);
        assert(a.remove(0) =~= a1);
        vstd::seq_lib::to_multiset_remove(a, 0);
        vstd::seq_lib::to_multiset_remove(b, k);
        lemma_map_permutation(a1, b1, f);
        let ma = a.map_values(f);
        let mb = b.map_values(f);
        assert(ma.remove(0) =~= a1.map_values(f));
        assert(mb.remove(k) =~= b1.map_values(f));
        vstd::seq_lib::to_multiset_remove(ma, 0);
        vstd::seq_lib::to_multiset_remove(mb, k);
        assert(ma.to_multiset() =~= a1.map_values(f).to_multiset().insert(f(x)));
        assert(mb.to_multiset() =~= b1.map_values(f).to_multiset().insert(f(x)));
    }
}

/// Move ordering tables: the reply that last caused a cutoff after each
/// move (countermoves), and how often each move caused a cutoff (history).
/// A table that is switched off is empty.
pub struct CounterMoves<G: Game> {
    countermove_table: Vec<Option<G::M>>,
    history_table: Vec<u64>,
}

impl<G: Game> CounterMoves<G> {
    /// The countermove table.
    pub closed spec fn countermoves(&self) -> Seq<Option<G::M>> {
        self.countermove_table@
    }

    /// The history table.
    pub closed spec fn history(&self) -> Seq<u64> {
        self.history_table@
    }

    /// Tables with a slot for each move index, each switched on or off.
    pub fn new(countermove_enabled: bool, history_enabled: bool) -> (r: Self)
        ensures
            countermove_enabled <==> r.countermoves().len() > 0,
            history_enabled <==> r.history().len() > 0,
            forall|i: int| 0 <= i < r.countermoves().len() ==> r.countermoves()[i] is None,
            forall|i: int| 0 <= i < r.history().len() ==> r.history()[i] == 0,
    {
        let size = G::max_table_index() as usize + 1;
        let mut countermove_table: Vec<Option<G::M>> = Vec::new();
        let mut history_table: Vec<u64> = Vec::new();
        let mut i: usize = 0;
        while i < size
            invariant
                0 <= i <= size,
                1 <= size,
                countermove_table@.len() == if countermove_enabled {
                    i as int
                } else {
                    0
                },
                history_table@.len() == if history_enabled {
                    i as int
                } else {
                    0
                },
                forall|k: int| 0 <= k < countermove_table@.len() ==> countermove_table@[k] is None,
                forall|k: int| 0 <= k < history_table@.len() ==> history_table@[k] == 0,
            decreases size - i,
        {
            if countermove_enabled {
                countermove_table.push(None);
            }
            if history_enabled {
                history_table.push(0);
            }
            i = i + 1;
        }
        CounterMoves { countermove_table, history_table }
    }

    /// Ages the history: every count is halved.
    pub fn advance_generation(&mut self, _null_move: Option<G::M>)
        ensures
            final(self).countermoves() == old(self).countermoves(),
            final(self).history().len() == old(self).history().len(),
            forall|i: int|
                0 <= i < final(self).history().len() ==> #[trigger] final(self).history()[i]
                    == old(self).history()[i] / 2,
    {
        let mut i: usize = 0;
        while i < self.history_table.len()
            invariant
                0 <= i <= self.history_table@.len(),
                self.history_table@.len() == old(self).history_table@.len(),
                self.countermove_table == old(self).countermove_table,
                forall|k: int| 0 <= k < i ==> #[trigger] self.history_table@[k] == old(self).history_table@[k] / 2,
                forall|k: int| i <= k < self.history_table@.len() ==> #[trigger] self.history_table@[k] == old(self).history_table@[k],
            decreases self.history_table@.len() - i,
        {
            let h = self.history_table[i];
            self.history_table.set(i, h / 2);
            i = i + 1;
        }
    }

    /// Orders `moves` by decreasing history count (keeping the order of
    /// moves of equal counts), then puts first the countermove of `prev`.
    pub fn reorder(&self, prev: Option<G::M>, moves: &mut Vec<G::M>) where G::M: PartialEq
        ensures
            final(moves)@.to_multiset() == old(moves)@.to_multiset(),
            self.history().len() == 0 && (prev is None || self.countermoves().len() == 0)
                ==> final(moves)@ == old(moves)@,
    {
        if self.history_table.len() > 0 {
            let mut keyed: Vec<(u64, G::M)> = Vec::new();
            let mut i: usize = 0;
            while i < moves.len()
                invariant
                    0 <= i <= moves@.len(),
                    keyed@.len() == i,
                    forall|k: int| 0 <= k < i ==> #[trigger] keyed@[k].1 == moves@[k],
                decreases moves@.len() - i,
            {
                let m = moves[i];
                let index = G::table_index(m) as usize;
                let count = if index < self.history_table.len() {
                    self.history_table[index]
                } else {
                    0
                };
                keyed.push((count, m));
                i = i + 1;
            }
            let ghost before = keyed@;
            assert(before.map_values(|p: (u64, G::M)| p.1) =~= moves@);
            sort_by_key_desc(&mut keyed);
            proof {
                lemma_map_permutation(keyed@, before, |p: (u64, G::M)| p.1);
            }
            let ghost sorted = keyed@;
            let mut j: usize = 0;
            while j < keyed.len()
                invariant
                    0 <= j <= keyed@.len(),
                    keyed@ == sorted,
                    moves@.len() == keyed@.len(),
                    forall|k: int| 0 <= k < j ==> #[trigger] moves@[k] == sorted[k].1,
                decreases keyed@.len() - j,
            {
                let m = keyed[j].1;
                moves.set(j, m);
                j = j + 1;
            }
            assert(moves@ =~= sorted.map_values(|p: (u64, G::M)| p.1));
        }
        if let Some(p) = prev {
            let index = G::table_index(p) as usize;
            if index < self.countermove_table.len() {
                if let Some(response) = self.countermove_table[index] {
                    move_to_front(response, moves);
                }
            }
        }
    }

    /// Records that `m` caused a cutoff after `prev`: the countermove slot
    /// of `prev` (chosen by `Game::table_index`) is set to `m`, and the
    /// history slot of `m` counts one more cutoff. An index past the end of
    /// a table leaves that table as it was.
    pub fn update(&mut self, prev: Option<G::M>, m: G::M)
        ensures
            final(self).countermoves().len() == old(self).countermoves().len(),
            final(self).history().len() == old(self).history().len(),
            prev is None ==> final(self).countermoves() == old(self).countermoves(),
            prev is Some ==> exists|i: u16|
                final(self).countermoves() == #[trigger] set_slot(
                    old(self).countermoves(),
                    i as int,
                    Some(m),
                ),
            exists|j: u16| final(self).history() == #[trigger] bump_slot(old(self).history(), j as int),
    {
        if let Some(p) = prev {
            let pi = G::table_index(p);
            let index = pi as usize;
            if index < self.countermove_table.len() {
                self.countermove_table.set(index, Some(m));
            }
            assert(self.countermoves() == set_slot(old(self).countermoves(), pi as int, Some(m)));
        }
        let mi = G::table_index(m);
        let index = mi as usize;
        if index < self.history_table.len() {
            let h = self.history_table[index];
            self.history_table.set(index, h.saturating_add(1));
        }
        assert(self.history() == bump_slot(old(self).history(), mi as int));
    }
}

/// `table` with its slot `i` set to `v`; as it was where there is no slot `i`.
pub open spec fn set_slot<T>(table: Seq<T>, i: int, v: T) -> Seq<T> {
    if 0 <= i < table.len() {
        table.update(i, v)
    } else {
        table
    }
}

/// `counts` with its slot `i` one higher, saturated; as it was where there
/// is no slot `i`.
pub open spec fn bump_slot(counts: Seq<u64>, i: int) -> Seq<u64> {
    if 0 <= i < counts.len() {
        counts.update(i, if counts[i] == u64::MAX { u64::MAX } else { (counts[i] + 1) as u64 })
    } else {
        counts
    }
}

/// A move together with the value found for it.
#[derive(Clone, Copy, Debug)]
pub struct ValueMove<M> {
    /// The value found for the move.
    pub value: Evaluation,
    /// The move.
    pub m: M,
}

impl<M> ValueMove<M> {
    /// A move with its value.
    pub fn new(value: Evaluation, m: M) -> (r: Self)
        ensures
            r.value == value,
            r.m == m,
    {
        ValueMove { value, m }
    }
}

/// The index of the first move of `moves`, from `i` on, that `==` on `M`
/// takes for equal to `m`, where `==` follows `eq_spec`.
pub open spec fn first_equal_from<M: PartialEq>(moves: Seq<M>, m: M, i: int) -> int
    decreases moves.len() - i,
{
    if i >= moves.len() {
        -1
    } else if moves[i].eq_spec(&m) {
        i
    } else {
        first_equal_from(moves, m, i + 1)
    }
}

/// `moves` with the move at index `k` taken out and put in front.
pub open spec fn moved_to_front<M>(moves: Seq<M>, k: int) -> Seq<M> {
    seq![moves[k]] + moves.take(k) + moves.skip(k + 1)
}

/// Puts the first move equal to `m` in front of the others, which keep
/// their order; where none is equal, nothing changes.
pub fn move_to_front<M: PartialEq>(m: M, moves: &mut Vec<M>)
    ensures
        final(moves)@.to_multiset() == old(moves)@.to_multiset(),
        M::obeys_eq_spec() ==> {
            let k = first_equal_from(old(moves)@, m, 0);
            &&& k < 0 ==> final(moves)@ == old(moves)@
            &&& k >= 0 ==> final(moves)@ == moved_to_front(old(moves)@, k)
        },
{
    let ghost orig = moves@;
    let mut i: usize = 0;
    while i < moves.len()
        invariant
            0 <= i <= moves.len(),
            moves@ == orig,
            orig == old(moves)@,
            M::obeys_eq_spec() ==> first_equal_from(orig, m, 0) == first_equal_from(
                orig,
                m,
                i as int,
            ),
        decreases moves.len() - i,
    {
        if moves[i] == m {
            let x = moves.remove(i);
            moves.insert(0, x);
            proof {
                assert(moves@ =~= moved_to_front(orig, i as int));
                lemma_moved_to_front_permutes(orig, i as int);
            }
            return;
        }
        i = i + 1;
    }
}

/// Putting one move in front permutes the moves.
pub proof fn lemma_moved_to_front_permutes<M>(moves: Seq<M>, k: int)
    requires
        0 <= k < moves.len(),
    ensures
        moved_to_front(moves, k).to_multiset() == moves.to_multiset(),
        moved_to_front(moves, k).len() == moves.len(),
{
    let rest = moves.take(k) + moves.skip(k + 1);
    assert(moves.remove(k) =~= rest);
    assert(moved_to_front(moves, k) =~= rest.insert(0, moves[k]));
    vstd::seq_lib::to_multiset_remove(moves, k);
    vstd::seq_lib::to_multiset_insert(rest, 0, moves[k]);
}

} // verus!
