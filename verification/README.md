# expecti_search

Expectiminimax game tree search for two-player games with chance nodes,
verified with Verus.

* `src/interface.rs` — the traits a game and its evaluator implement
  (`Game`, `TurnBasedGame`, `StochasticGame`, `Evaluator`,
  `TurnBasedGameEvaluator`) and the `Strategy` trait of the searches. Each
  executable trait function is tied to a spec function of the trait.
* `src/strategies/expectiminimax.rs` — `ExpectiMinimax`, a depth limited
  search with alpha-beta pruning at the players' nodes and probability
  weighted averages at chance nodes. Its result is specified exactly by
  `search_value`.
* `src/strategies/pruning.rs` — the unpruned minimax value and the proof that,
  where no chance node is in reach, pruning keeps it: for `ExpectiMinimax`,
  and for the iterative search (`iterative_value`, with its null window
  probes) where every node has a move and every leaf scores inside the band
  that clamping leaves alone; and that the root move it chooses first is of
  the best minimax value.
* `src/strategies/expecti_iterative.rs` — `ExpectiIterativeSearch`, iterative
  deepening with a transposition table, move ordering, null move and
  aspiration searches, and a clock.
  Where the search finds nothing in its table and runs without null moves,
  singular extensions, quiescence search and move ordering tables, its
  values are `iterative_value` (a ghost counter records table hits).
* `src/strategies/table.rs` — the transposition table.
* `src/strategies/common.rs` — value clamping, move ordering, a stable sort.
* `src/strategies/iterative.rs` — search options, counters, the stop signal.
* `src/util.rs` — names of moves and of lines of play.
* `src/outside.rs` — the calls into `rand`, `instant`, `std::time` and `Arc::clone`.
* `app/` — printing the search summary and the per-iteration reports that a
  verbose search records, and float conversions, which Verus does not take.

Probabilities are fixed-point `u32` numbers: `PROBABILITY_ONE` (one million)
stands for certainty. A chance node's value is the probability weighted sum
of its moves' values, rounded half away from zero.
