use expecti_search::strategies::iterative::Replacement;
use expecti_search::strategies::table::{EntryFlag, TranspositionTable};
use expecti_search::{Game, Winner};

#[test]
fn lookup_after_store_finds_entry() {
    for strategy in [Replacement::Always, Replacement::DepthPreferred, Replacement::TwoTier] {
        let mut table: TranspositionTable<u8> = TranspositionTable::new(1000, strategy);
        assert!(table.is_well_formed());
        assert!(table.lookup(42).is_none());
        table.store(42, 17, 3, EntryFlag::Exact, 5);
        let e = table.lookup(42).unwrap();
        assert_eq!(e.hash, 42);
        assert_eq!(e.value, 17);
        assert_eq!(e.depth, 3);
        assert_eq!(e.flag, EntryFlag::Exact);
        assert_eq!(e.best_move, Some(5));
        assert!(table.lookup(43).is_none());
    }
}

#[test]
fn smallest_table_has_one_bucket() {
    // Two slots: every hash falls in the same bucket.
    let mut table: TranspositionTable<u8> = TranspositionTable::new(0, Replacement::TwoTier);
    assert!(table.is_well_formed());
    table.store(1, 10, 5, EntryFlag::Exact, 1);
    // Shallower, same generation: goes to the second slot.
    table.store(2, 20, 1, EntryFlag::Exact, 2);
    assert_eq!(table.lookup(1).unwrap().value, 10);
    assert_eq!(table.lookup(2).unwrap().value, 20);
    // Another shallow one replaces the second slot.
    table.store(3, 30, 1, EntryFlag::Exact, 3);
    assert!(table.lookup(2).is_none());
    assert_eq!(table.lookup(3).unwrap().value, 30);
    assert_eq!(table.lookup(1).unwrap().value, 10);
}

#[test]
fn depth_preferred_keeps_deeper_entry() {
    let mut table: TranspositionTable<u8> = TranspositionTable::new(0, Replacement::DepthPreferred);
    table.store(1, 10, 5, EntryFlag::Exact, 1);
    table.store(2, 20, 1, EntryFlag::Exact, 2);
    assert!(table.lookup(2).is_none());
    assert_eq!(table.lookup(1).unwrap().value, 10);
    // A new generation gives way.
    table.advance_generation();
    table.store(2, 20, 1, EntryFlag::Exact, 2);
    assert_eq!(table.lookup(2).unwrap().value, 20);
    assert!(table.lookup(1).is_none());
}

#[test]
fn always_replaces() {
    let mut table: TranspositionTable<u8> = TranspositionTable::new(0, Replacement::Always);
    table.store(1, 10, 5, EntryFlag::Exact, 1);
    table.store(2, 20, 1, EntryFlag::Exact, 2);
    assert!(table.lookup(1).is_none());
    assert_eq!(table.lookup(2).unwrap().value, 20);
}

#[test]
fn update_flags_by_window() {
    let mut table: TranspositionTable<u8> = TranspositionTable::new(1000, Replacement::Always);
    table.update(1, 0, 10, 2, 0, 1);
    assert_eq!(table.lookup(1).unwrap().flag, EntryFlag::Upperbound);
    table.update(2, 0, 10, 2, 10, 1);
    assert_eq!(table.lookup(2).unwrap().flag, EntryFlag::Lowerbound);
    table.update(3, 0, 10, 2, 5, 1);
    assert_eq!(table.lookup(3).unwrap().flag, EntryFlag::Exact);
}

#[test]
fn check_reads_entries() {
    let mut table: TranspositionTable<u8> = TranspositionTable::new(1000, Replacement::Always);
    let mut good = None;
    let (mut alpha, mut beta) = (-100, 100);
    // Nothing stored.
    assert_eq!(table.check(7, 3, &mut good, &mut alpha, &mut beta), None);
    assert_eq!((good, alpha, beta), (None, -100, 100));
    // Exact and deep enough: the value.
    table.store(7, 42, 3, EntryFlag::Exact, 9);
    assert_eq!(table.check(7, 3, &mut good, &mut alpha, &mut beta), Some(42));
    assert_eq!(good, Some(9));
    // Too shallow: only the move.
    good = None;
    assert_eq!(table.check(7, 4, &mut good, &mut alpha, &mut beta), None);
    assert_eq!((good, alpha, beta), (Some(9), -100, 100));
    // A lower bound raises alpha.
    table.store(8, 30, 5, EntryFlag::Lowerbound, 1);
    assert_eq!(table.check(8, 5, &mut good, &mut alpha, &mut beta), None);
    assert_eq!((alpha, beta), (30, 100));
    // An upper bound below alpha closes the window.
    table.store(9, 20, 5, EntryFlag::Upperbound, 2);
    assert_eq!(table.check(9, 5, &mut good, &mut alpha, &mut beta), Some(20));
    assert_eq!((alpha, beta), (30, 20));
}

// A counter: the move adds to the count.
#[derive(Clone, Copy, Debug, PartialEq, Eq)]
struct Count(u64);
struct Counting;
impl Game for Counting {
    type S = Count;
    type M = u8;
    fn generate_moves(_s: &Count, moves: &mut Vec<u8>) -> Option<Winner> {
        moves.push(1);
        None
    }
    fn apply(s: &mut Count, m: u8) -> Option<Count> {
        Some(Count(s.0 + m as u64))
    }
    fn undo(_s: &mut Count, _m: u8) {}
    fn get_winner(_s: &Count) -> Option<Winner> {
        None
    }
    fn zobrist_hash(s: &Count) -> u64 {
        s.0
    }
}

#[test]
fn principal_variation_follows_exact_entries() {
    let mut table: TranspositionTable<u8> = TranspositionTable::new(10000, Replacement::Always);
    table.store(0, 1, 3, EntryFlag::Exact, 1);
    table.store(1, 1, 2, EntryFlag::Exact, 1);
    table.store(2, 1, 1, EntryFlag::Lowerbound, 1);
    let mut pv = vec![7, 7, 7];
    table.populate_pv::<Counting>(&mut pv, &Count(0));
    assert_eq!(pv, vec![1, 1]);
}

#[test]
fn principal_variation_stops_on_cycle() {
    let mut table: TranspositionTable<u8> = TranspositionTable::new(10000, Replacement::Always);
    // Moves of zero keep the state: the hash comes back.
    table.store(5, 1, 3, EntryFlag::Exact, 0);
    let mut pv = Vec::new();
    table.populate_pv::<Counting>(&mut pv, &Count(5));
    assert_eq!(pv, vec![0, 0]);
}
