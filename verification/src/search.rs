//! The move selector: depth-bounded minimax with alpha-beta pruning.
//!
//! `spec_minimax` is the mathematical value of a state: the score both sides
//! would settle on if each picked its locally best continuation down to the
//! search horizon. The executable `minimax` prunes branches that cannot
//! change the outcome, so its result is tied to the mathematical value by the
//! usual window contract: a result strictly inside the `(alpha, beta)` window
//! is the exact value, a result at or below `alpha` is an upper bound, and a
//! result at or above `beta` is a lower bound. `get_best_move` threads the
//! window across the candidate moves, and that contract is strong enough to
//! prove it returns exactly the earliest candidate of greatest value.

use vstd::prelude::*;

use crate::game::spec_num_moves;
use crate::game::spec_take;
use crate::game::NimGame;

verus! {

/// The fixed search horizon, in plies.
pub const SEARCH_DEPTH: u32 = 10;

/// The score of a search leaf: the searching side (the computer) counts a
/// state as good exactly when the turn at that leaf is its own.
pub open spec fn spec_evaluate(g: NimGame) -> int {
    if g.current_player is Computer {
        1
    } else {
        -1
    }
}

/// The minimax value of a state: the leaf score at the horizon or at the end
/// of the game, and otherwise the best value among the successor states —
/// greatest when maximizing, least when minimizing.
pub open spec fn spec_minimax(g: NimGame, depth: nat, is_maximizing: bool) -> int
    decreases depth, 4int,
{
    if depth == 0 || g.total_sticks == 0 {
        spec_evaluate(g)
    } else {
        spec_children_best(g, (depth - 1) as nat, is_maximizing, spec_num_moves(g))
    }
}

/// The best minimax value among the successors reached by taking 1..=n
/// sticks, each searched at the given depth with the sides swapped: the
/// greatest when maximizing, the least when minimizing.
pub open spec fn spec_children_best(g: NimGame, depth: nat, is_maximizing: bool, n: int) -> int
    decreases depth + 1, n,
{
    if n <= 1 {
        spec_minimax(spec_take(g, 1), depth, !is_maximizing)
    } else {
        let prev = spec_children_best(g, depth, is_maximizing, n - 1);
        let v = spec_minimax(spec_take(g, n as u32), depth, !is_maximizing);
        if is_maximizing {
            vstd::math::max(prev, v)
        } else {
            vstd::math::min(prev, v)
        }
    }
}

/// Widening the set of candidate moves can only improve the best value: it
/// raises a maximizing best and lowers a minimizing one.
proof fn lemma_children_best_monotone(
    g: NimGame,
    depth: nat,
    is_maximizing: bool,
    i: int,
    n: int,
)
    requires
        1 <= i <= n,
    ensures
        is_maximizing ==> spec_children_best(g, depth, true, i) <= spec_children_best(
            g,
            depth,
            true,
            n,
        ),
        !is_maximizing ==> spec_children_best(g, depth, false, n) <= spec_children_best(
            g,
            depth,
            false,
            i,
        ),
    decreases n,
{
    if i < n {
        lemma_children_best_monotone(g, depth, is_maximizing, i, n - 1);
    }
}

/// The value the selector assigns to a candidate take amount: the minimax
/// value of the resulting state, searched one ply short of the full horizon
/// with the opponent to move.
pub open spec fn spec_candidate_value(g: NimGame, num_sticks: u32) -> int {
    spec_minimax(spec_take(g, num_sticks), (SEARCH_DEPTH - 1) as nat, false)
}

/// The greatest candidate value among take amounts 1..=n, paired with the
/// earliest take amount that attains it.
pub open spec fn spec_best_prefix(g: NimGame, n: int) -> (int, u32)
    decreases n,
{
    if n <= 1 {
        (spec_candidate_value(g, 1), 1u32)
    } else {
        let prev = spec_best_prefix(g, n - 1);
        let v = spec_candidate_value(g, n as u32);
        if v > prev.0 {
            (v, n as u32)
        } else {
            prev
        }
    }
}

/// The take amount the selector chooses: the earliest legal candidate whose
/// searched value is strictly greatest.
pub open spec fn spec_best_move(g: NimGame) -> u32 {
    spec_best_prefix(g, spec_num_moves(g)).1
}

/// Search determinism: the chosen move is a function of the pile size and of
/// whose turn it is, and of nothing else.
pub proof fn lemma_best_move_deterministic(g1: NimGame, g2: NimGame)
    requires
        g1.total_sticks == g2.total_sticks,
        g1.current_player == g2.current_player,
    ensures
        spec_best_move(g1) == spec_best_move(g2),
{
    assert(g1 == g2);
}

/// Bounded choice: on a non-empty pile the chosen move takes between one and
/// three sticks, and never more than remain.
pub proof fn lemma_best_move_in_range(g: NimGame)
    requires
        g.total_sticks >= 1,
    ensures
        1 <= spec_best_move(g) <= 3,
        spec_best_move(g) <= g.total_sticks,
{
    lemma_best_prefix_move_in_range(g, spec_num_moves(g));
}

proof fn lemma_best_prefix_move_in_range(g: NimGame, n: int)
    requires
        1 <= n <= 3,
    ensures
        1 <= spec_best_prefix(g, n).1 <= n,
    decreases n,
{
    if n > 1 {
        lemma_best_prefix_move_in_range(g, n - 1);
    }
}

impl NimGame {
    /// Depth-bounded minimax over the tree of successor states, pruned with
    /// the alpha-beta window. The result is always one of the two leaf
    /// scores; a result strictly inside the window is the exact minimax
    /// value, a result at or below `alpha` bounds the value from above, and a
    /// result at or above `beta` bounds it from below.
    pub fn minimax(&self, depth: u32, is_maximizing: bool, alpha: i32, beta: i32) -> (r: i32)
        requires
            alpha < beta,
        ensures
            r == 1 || r == -1,
            alpha < r < beta ==> r == spec_minimax(*self, depth as nat, is_maximizing),
            r <= alpha ==> spec_minimax(*self, depth as nat, is_maximizing) <= r,
            r >= beta ==> r <= spec_minimax(*self, depth as nat, is_maximizing),
        decreases depth,
    {
        if depth == 0 || self.is_game_over() {
            if self.current_player.is_computer() {
                return 1;
            } else {
                return -1;
            }
        }
        let ghost g = *self;
        let ghost d = (depth - 1) as nat;
        let ghost k = spec_num_moves(g);
        let successors = self.get_successors();

        if is_maximizing {
            let mut max_eval = i32::MIN;
            let mut cur_alpha = alpha;
            let mut i: usize = 0;
            while i < successors.len() && cur_alpha < beta
                invariant
                    alpha < beta,
                    depth >= 1,
                    d == (depth - 1) as nat,
                    g.total_sticks >= 1,
                    k == spec_num_moves(g),
                    1 <= k <= 3,
                    successors@.len() == k,
                    forall|j: int| 0 <= j < k ==> successors@[j] == spec_take(g, (j + 1) as u32),
                    0 <= i <= k,
                    i == 0 ==> max_eval == i32::MIN && cur_alpha == alpha,
                    i >= 1 ==> (max_eval == 1 || max_eval == -1),
                    i >= 1 ==> cur_alpha as int == vstd::math::max(alpha as int, max_eval as int),
                    i >= 1 && cur_alpha < beta ==> spec_children_best(g, d, true, i as int)
                        <= max_eval,
                    i >= 1 && cur_alpha < beta ==> max_eval as int <= vstd::math::max(
                        alpha as int,
                        spec_children_best(g, d, true, i as int),
                    ),
                    i >= 1 && cur_alpha >= beta ==> max_eval >= beta && max_eval as int
                        <= spec_children_best(g, d, true, i as int),
                decreases k - i,
            {
                let eval = successors[i].minimax(depth - 1, false, cur_alpha, beta);
                if eval > max_eval {
                    max_eval = eval;
                }
                if eval > cur_alpha {
                    cur_alpha = eval;
                }
                i = i + 1;
            }
            proof {
                assert(i >= 1);
                if cur_alpha < beta {
                    assert(i as int == k);
                } else {
                    lemma_children_best_monotone(g, d, true, i as int, k);
                }
            }
            max_eval
        } else {
            let mut min_eval = i32::MAX;
            let mut cur_beta = beta;
            let mut i: usize = 0;
            while i < successors.len() && alpha < cur_beta
                invariant
                    alpha < beta,
                    depth >= 1,
                    d == (depth - 1) as nat,
                    g.total_sticks >= 1,
                    k == spec_num_moves(g),
                    1 <= k <= 3,
                    successors@.len() == k,
                    forall|j: int| 0 <= j < k ==> successors@[j] == spec_take(g, (j + 1) as u32),
                    0 <= i <= k,
                    i == 0 ==> min_eval == i32::MAX && cur_beta == beta,
                    i >= 1 ==> (min_eval == 1 || min_eval == -1),
                    i >= 1 ==> cur_beta as int == vstd::math::min(beta as int, min_eval as int),
                    i >= 1 && alpha < cur_beta ==> min_eval as int <= spec_children_best(
                        g,
                        d,
                        false,
                        i as int,
                    ),
                    i >= 1 && alpha < cur_beta ==> vstd::math::min(
                        beta as int,
                        spec_children_best(g, d, false, i as int),
                    ) <= min_eval as int,
                    i >= 1 && alpha >= cur_beta ==> min_eval <= alpha && spec_children_best(
                        g,
                        d,
                        false,
                        i as int,
                    ) <= min_eval as int,
                decreases k - i,
            {
                let eval = successors[i].minimax(depth - 1, true, alpha, cur_beta);
                if eval < min_eval {
                    min_eval = eval;
                }
                if eval < cur_beta {
                    cur_beta = eval;
                }
                i = i + 1;
            }
            proof {
                assert(i >= 1);
                if alpha < cur_beta {
                    assert(i as int == k);
                } else {
                    lemma_children_best_monotone(g, d, false, i as int, k);
                }
            }
            min_eval
        }
    }

    /// Chooses the computer's take amount for the current state: each legal
    /// candidate is applied and searched one ply short of the full horizon
    /// with the opponent to move, and the earliest candidate of strictly
    /// greatest value wins. The caller guarantees the pile is not empty.
    pub fn get_best_move(&self) -> (r: u32)
        requires
            self.total_sticks >= 1,
        ensures
            r == spec_best_move(*self),
            1 <= r <= 3,
            r <= self.total_sticks,
    {
        let ghost g = *self;
        let max_sticks: u32 = if self.total_sticks < 3 {
            self.total_sticks
        } else {
            3
        };
        let mut best_value: i32 = i32::MIN;
        let mut best_move: u32 = 0;
        let mut alpha: i32 = i32::MIN;
        let beta: i32 = i32::MAX;
        let mut num_sticks: u32 = 1;
        while num_sticks <= max_sticks
            invariant
                g == *self,
                1 <= max_sticks <= 3,
                max_sticks as int == spec_num_moves(g),
                max_sticks <= g.total_sticks,
                1 <= num_sticks <= max_sticks + 1,
                beta == i32::MAX,
                num_sticks == 1 ==> best_value == i32::MIN && best_move == 0 && alpha == i32::MIN,
                num_sticks >= 2 ==> (best_value == 1 || best_value == -1),
                num_sticks >= 2 ==> alpha == best_value,
                num_sticks >= 2 ==> best_value as int == spec_best_prefix(
                    g,
                    num_sticks - 1,
                ).0,
                num_sticks >= 2 ==> best_move == spec_best_prefix(g, num_sticks - 1).1,
                num_sticks >= 2 ==> 1 <= best_move < num_sticks,
            decreases max_sticks + 1 - num_sticks,
        {
            let mut new_game = self.clone();
            new_game.take_sticks(num_sticks).unwrap();
            let value = new_game.minimax(SEARCH_DEPTH - 1, false, alpha, beta);
            if value > best_value {
                best_value = value;
                best_move = num_sticks;
            }
            if value > alpha {
                alpha = value;
            }
            num_sticks = num_sticks + 1;
        }
        best_move
    }
}

} // verus!
