use expecti_search::util::{move_id, pv_string};
use expecti_search::strategies::common::{
    clamp_value, move_to_front, sort_by_key_desc, unclamp_value, CounterMoves, ValueMove,
};
use expecti_search::strategies::iterative::{IterativeOptions, Replacement, Stats};
use expecti_search::{Game, Winner, BEST_EVAL, WORST_EVAL};

#[test]
fn clamp_moves_edges_toward_zero() {
    assert_eq!(clamp_value(BEST_EVAL), BEST_EVAL - 1);
    assert_eq!(clamp_value(WORST_EVAL), WORST_EVAL + 1);
    assert_eq!(clamp_value(-32768), WORST_EVAL);
    assert_eq!(clamp_value(0), 0);
    assert_eq!(clamp_value(BEST_EVAL - 100), BEST_EVAL - 100);
    assert_eq!(clamp_value(BEST_EVAL - 99), BEST_EVAL - 100);
}

#[test]
fn unclamp_reads_edges_as_results() {
    assert_eq!(unclamp_value(BEST_EVAL - 1), BEST_EVAL);
    assert_eq!(unclamp_value(WORST_EVAL + 1), WORST_EVAL);
    assert_eq!(unclamp_value(123), 123);
    assert_eq!(unclamp_value(clamp_value(BEST_EVAL)), BEST_EVAL);
    assert_eq!(unclamp_value(clamp_value(WORST_EVAL)), WORST_EVAL);
}

#[test]
fn move_to_front_moves_first_match() {
    let mut moves = vec![1, 2, 3, 2, 4];
    move_to_front(2, &mut moves);
    assert_eq!(moves, vec![2, 1, 3, 2, 4]);
    move_to_front(4, &mut moves);
    assert_eq!(moves, vec![4, 2, 1, 3, 2]);
    move_to_front(9, &mut moves);
    assert_eq!(moves, vec![4, 2, 1, 3, 2]);
    let mut empty: Vec<u8> = Vec::new();
    move_to_front(1, &mut empty);
    assert!(empty.is_empty());
}

#[test]
fn sort_is_stable_and_descending() {
    let mut items = vec![(1u64, 'a'), (3, 'b'), (2, 'c'), (3, 'd'), (1, 'e')];
    sort_by_key_desc(&mut items);
    assert_eq!(items, vec![(3, 'b'), (3, 'd'), (2, 'c'), (1, 'a'), (1, 'e')]);
    let mut one = vec![(5u64, 'x')];
    sort_by_key_desc(&mut one);
    assert_eq!(one, vec![(5, 'x')]);
}

#[test]
fn value_move_holds_both() {
    let vm = ValueMove::new(-3, 'm');
    assert_eq!(vm.value, -3);
    assert_eq!(vm.m, 'm');
}

// A game of numbered moves, for the move ordering tables.
struct Numbered;
impl Game for Numbered {
    type S = ();
    type M = u16;
    fn generate_moves(_s: &(), moves: &mut Vec<u16>) -> Option<Winner> {
        moves.extend([0, 1, 2, 3]);
        None
    }
    fn apply(_s: &mut (), _m: u16) -> Option<()> {
        Some(())
    }
    fn undo(_s: &mut (), _m: u16) {}
    fn get_winner(_s: &()) -> Option<Winner> {
        None
    }
    fn table_index(m: u16) -> u16 {
        m
    }
    fn max_table_index() -> u16 {
        3
    }
}

#[test]
fn countermoves_reorder_after_update() {
    let mut cm: CounterMoves<Numbered> = CounterMoves::new(true, false);
    let mut moves = vec![0u16, 1, 2, 3];
    cm.reorder(Some(1), &mut moves);
    assert_eq!(moves, vec![0, 1, 2, 3]);
    cm.update(Some(1), 3);
    cm.reorder(Some(1), &mut moves);
    assert_eq!(moves, vec![3, 0, 1, 2]);
    // Another previous move has no countermove.
    let mut moves = vec![0u16, 1, 2, 3];
    cm.reorder(Some(2), &mut moves);
    assert_eq!(moves, vec![0, 1, 2, 3]);
}

#[test]
fn history_orders_by_cutoffs() {
    let mut cm: CounterMoves<Numbered> = CounterMoves::new(false, true);
    cm.update(None, 2);
    cm.update(None, 2);
    cm.update(None, 3);
    let mut moves = vec![0u16, 1, 2, 3];
    cm.reorder(None, &mut moves);
    assert_eq!(moves, vec![2, 3, 0, 1]);
    // Aging halves the counts: 1, 0 — move 3 ties with the others.
    cm.advance_generation(None);
    let mut moves = vec![0u16, 1, 2, 3];
    cm.reorder(None, &mut moves);
    assert_eq!(moves, vec![2, 0, 1, 3]);
}

#[test]
fn options_builders_set_one_field() {
    let o = IterativeOptions::new();
    assert_eq!(o.table_byte_size, 1000000);
    assert_eq!(o.strategy, Replacement::TwoTier);
    assert!(o.null_window_search);
    assert_eq!(o.null_move_depth, None);
    assert_eq!(o.step_increment, 1);
    assert_eq!(o.with_table_byte_size(5).table_byte_size, 5);
    assert_eq!(o.with_null_move_depth(2).null_move_depth, Some(2));
    assert_eq!(o.with_aspiration_window(7).aspiration_window, Some(7));
    assert_eq!(o.with_quiescence_search_depth(3).max_quiescence_depth, 3);
    assert_eq!(o.with_min_reorder_moves_depth(4).min_reorder_moves_depth, 4);
    assert_eq!(o.with_double_step_increment().step_increment, 2);
    assert!(o.with_singular_extension().singular_extension);
    assert!(o.with_countermoves().countermove_table);
    assert!(o.with_countermove_history().countermove_history_table);
    assert!(o.verbose().verbose);
    assert!(!o.with_null_window_search(false).null_window_search);
    assert_eq!(
        o.with_replacement_strategy(Replacement::Always).strategy,
        Replacement::Always
    );
}

#[test]
fn stats_count_and_saturate() {
    let mut st = Stats::new();
    st.explore_node();
    st.explore_node();
    st.generate_moves(5);
    assert_eq!(st.nodes_explored, 2);
    assert_eq!(st.total_generate_move_calls, 1);
    assert_eq!(st.total_generated_moves, 5);
    st.nodes_explored = u64::MAX;
    st.explore_node();
    assert_eq!(st.nodes_explored, u64::MAX);
    st.reset();
    assert_eq!(st.nodes_explored, 0);
    assert_eq!(st.total_generated_moves, 0);
}

// A game that keeps every optional method of `Game` at its default.
struct Plain;
impl Game for Plain {
    type S = u8;
    type M = u8;
    fn generate_moves(_s: &u8, moves: &mut Vec<u8>) -> Option<Winner> {
        moves.push(7);
        None
    }
    fn apply(_s: &mut u8, m: u8) -> Option<u8> {
        Some(m)
    }
    fn undo(_s: &mut u8, _m: u8) {}
    fn get_winner(_s: &u8) -> Option<Winner> {
        None
    }
}

#[test]
fn game_defaults_have_no_tables_or_names() {
    assert_eq!(Plain::zobrist_hash(&5), 0);
    assert_eq!(Plain::null_move(&5), None);
    assert_eq!(Plain::notation(&5, 7), None);
    assert_eq!(Plain::table_index(7), 0);
    assert_eq!(Plain::max_table_index(), 0);
}

#[test]
fn move_names_join_with_semicolons() {
    assert_eq!(move_id::<Plain>(&0, None), "none");
    assert_eq!(move_id::<Plain>(&0, Some(3)), "no notation impl");
    assert_eq!(pv_string::<Plain>(&[], &0), "");
    assert_eq!(pv_string::<Plain>(&[1], &0), "no notation impl");
    assert_eq!(
        pv_string::<Plain>(&[1, 2], &0),
        "no notation impl; no notation impl"
    );
}
