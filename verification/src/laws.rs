//! The game's global properties, proved once and for all against the
//! model in [`crate::model`]: stone conservation, terminal idempotence,
//! turn alternation, free-turn preservation, and capture correctness.

use vstd::prelude::*;
use crate::engine::GameMode;
use crate::model::{
    SideModel, StateModel, SowState, active_side, apply_moves, apply_spec, flip, inactive_side,
    initial_model, legal_moves_spec, lemma_elem_le_sum6, lemma_sum6_update, moves_from,
    place_all, sow_outcome, sum6, total_stones,
};

verus! {

/// Every stone in a mid-sow state: both rows and both scores.
pub open spec fn sow_total(st: SowState) -> int {
    sum6(st.active.pits) + st.active.score + sum6(st.inactive.pits) + st.inactive.score
}

/// Sowing conserves stones: placing `n` stones in hand adds exactly `n`
/// to the board, and keeps both sides well formed.
pub proof fn lemma_place_all_conserves(st: SowState, slot: int, n: nat)
    requires
        st.active.wf(),
        st.inactive.wf(),
        0 <= slot <= 12,
    ensures
        sow_total(place_all(st, slot, n)) == sow_total(st) + n,
        place_all(st, slot, n).active.wf(),
        place_all(st, slot, n).inactive.wf(),
    decreases n,
{
    if n == 0 {
    } else if slot < 6 {
        if n == 1 && st.active.pits[slot] == 0 {
            lemma_elem_le_sum6(st.inactive.pits, 5 - slot);
            lemma_sum6_update(st.inactive.pits, 5 - slot, 0);
        } else {
            let st2 = SowState {
                active: SideModel {
                    pits: st.active.pits.update(slot, st.active.pits[slot] + 1),
                    score: st.active.score,
                },
                inactive: st.inactive,
                last_in_score: st.last_in_score,
            };
            lemma_elem_le_sum6(st.active.pits, slot);
            lemma_sum6_update(st.active.pits, slot, st.active.pits[slot] + 1);
            assert(st2.active.wf());
            lemma_place_all_conserves(st2, slot + 1, (n - 1) as nat);
        }
    } else if slot == 6 {
        let st2 = SowState {
            active: SideModel {
                pits: st.active.pits,
                score: st.active.score + 1,
            },
            inactive: st.inactive,
            last_in_score: n == 1,
        };
        lemma_place_all_conserves(st2, 7, (n - 1) as nat);
    } else {
        let st2 = SowState {
            active: st.active,
            inactive: SideModel {
                pits: st.inactive.pits.update(slot - 7, st.inactive.pits[slot - 7] + 1),
                score: st.inactive.score,
            },
            last_in_score: st.last_in_score,
        };
        lemma_elem_le_sum6(st.inactive.pits, slot - 7);
        lemma_sum6_update(st.inactive.pits, slot - 7, st.inactive.pits[slot - 7] + 1);
        assert(st2.inactive.wf());
        lemma_place_all_conserves(st2, if slot == 12 { 0 } else { slot + 1 }, (n - 1) as nat);
    }
}

/// Stone conservation: one move never creates or destroys a stone — the
/// sum of all pit stones and both scores is unchanged — and the
/// successor position is well formed.
pub proof fn lemma_stone_conservation(m: StateModel, i: int)
    requires
        m.wf(),
        0 <= i < 6,
    ensures
        total_stones(apply_spec(m, i)) == total_stones(m),
        apply_spec(m, i).wf(),
{
    if m.mode != GameMode::GameOver {
        let a = if m.mode == GameMode::WhiteTurn {
            m.white
        } else {
            m.black
        };
        let ia = if m.mode == GameMode::WhiteTurn {
            m.black
        } else {
            m.white
        };
        let start = SowState {
            active: SideModel { pits: a.pits.update(i, 0), score: a.score },
            inactive: ia,
            last_in_score: false,
        };
        lemma_elem_le_sum6(a.pits, i);
        lemma_sum6_update(a.pits, i, 0);
        assert(start.active.wf());
        lemma_place_all_conserves(start, i + 1, a.pits[i] as nat);
    }
}

/// Stone conservation over every sequence of moves: each position
/// reached from a well-formed position holds exactly the stones the
/// start did.  From the standard start that total is 48
/// ([`lemma_initial_total`]).
pub proof fn lemma_reachable_conservation(m: StateModel, moves: Seq<int>)
    requires
        m.wf(),
        forall|j: int| 0 <= j < moves.len() ==> 0 <= #[trigger] moves[j] < 6,
    ensures
        total_stones(apply_moves(m, moves)) == total_stones(m),
        apply_moves(m, moves).wf(),
    decreases moves.len(),
{
    if moves.len() > 0 {
        lemma_stone_conservation(m, moves[0]);
        assert(forall|j: int|
            0 <= j < moves.drop_first().len() ==> 0 <= #[trigger] moves.drop_first()[j] < 6);
        lemma_reachable_conservation(apply_spec(m, moves[0]), moves.drop_first());
    }
}

/// The standard starting position is well formed and holds 48 stones.
pub proof fn lemma_initial_total()
    ensures
        initial_model().wf(),
        total_stones(initial_model()) == 48,
{
}

/// Terminal idempotence: once the game is over, applying any move
/// returns the position unchanged.
pub proof fn lemma_terminal_idempotence(m: StateModel, i: int)
    requires
        m.mode == GameMode::GameOver,
    ensures
        apply_spec(m, i) == m,
{
}

/// Turn alternation: when neither the free-turn rule (last stone in the
/// mover's score slot) nor the terminal rule (mover's row emptied)
/// applies, a move flips whose turn it is.
pub proof fn lemma_turn_alternation(m: StateModel, i: int)
    requires
        m.mode != GameMode::GameOver,
        !sow_outcome(m, i).last_in_score,
        !sow_outcome(m, i).active.all_empty(),
    ensures
        apply_spec(m, i).mode == flip(m.mode),
        m.mode == GameMode::WhiteTurn ==> apply_spec(m, i).mode == GameMode::BlackTurn,
        m.mode == GameMode::BlackTurn ==> apply_spec(m, i).mode == GameMode::WhiteTurn,
{
}

/// Free-turn preservation: when the last sown stone lands in the active
/// player's score slot and the game does not end, the same player moves
/// again.
pub proof fn lemma_free_turn(m: StateModel, i: int)
    requires
        m.mode != GameMode::GameOver,
        sow_outcome(m, i).last_in_score,
        !sow_outcome(m, i).active.all_empty(),
    ensures
        apply_spec(m, i).mode == m.mode,
{
}

/// The terminal rule, and its priority over the free turn: a move in a
/// live game ends it exactly when it leaves the mover's whole row
/// empty, whether or not the last stone landed in the score slot.
pub proof fn lemma_terminal_rule(m: StateModel, i: int)
    requires
        m.mode != GameMode::GameOver,
    ensures
        (apply_spec(m, i).mode == GameMode::GameOver) <==> sow_outcome(m, i).active.all_empty(),
{
}

/// Where the final stone lands decides the free turn: sowing `n >= 1`
/// stones from `slot` places the last one at slot `(slot + n - 1) % 13`
/// of the circular path, and the free-turn flag is set exactly when
/// that is slot 6, the active player's score slot.
pub proof fn lemma_place_all_flag(st: SowState, slot: int, n: nat)
    requires
        0 <= slot <= 12,
        n >= 1,
        !st.last_in_score,
    ensures
        place_all(st, slot, n).last_in_score <==> (slot + n - 1) % 13 == 6,
    decreases n,
{
    if n == 1 {
        reveal_with_fuel(place_all, 3);
        vstd::arithmetic::div_mod::lemma_small_mod(slot as nat, 13);
    } else if slot < 6 {
        let st2 = SowState {
            active: SideModel {
                pits: st.active.pits.update(slot, st.active.pits[slot] + 1),
                score: st.active.score,
            },
            inactive: st.inactive,
            last_in_score: st.last_in_score,
        };
        lemma_place_all_flag(st2, slot + 1, (n - 1) as nat);
    } else if slot == 6 {
        let st2 = SowState {
            active: SideModel { pits: st.active.pits, score: st.active.score + 1 },
            inactive: st.inactive,
            last_in_score: n == 1,
        };
        lemma_place_all_flag(st2, 7, (n - 1) as nat);
    } else {
        let st2 = SowState {
            active: st.active,
            inactive: SideModel {
                pits: st.inactive.pits.update(slot - 7, st.inactive.pits[slot - 7] + 1),
                score: st.inactive.score,
            },
            last_in_score: st.last_in_score,
        };
        lemma_place_all_flag(st2, if slot == 12 { 0 } else { slot + 1 }, (n - 1) as nat);
        if slot == 12 {
            vstd::arithmetic::div_mod::lemma_mod_add_multiples_vanish(n - 2, 13);
        }
    }
}

/// The free-turn condition in closed form: the last sown stone lands in
/// the mover's score slot exactly when the chosen pit held `n >= 1`
/// stones with `(i + n) % 13 == 6` — one full lap is 13 slots, and the
/// score slot sits 6 past the mover's first pit.
pub proof fn lemma_free_turn_landing(m: StateModel, i: int)
    requires
        m.wf(),
        m.mode != GameMode::GameOver,
        0 <= i < 6,
    ensures
        sow_outcome(m, i).last_in_score <==> (active_side(m).pits[i] >= 1 && (i
            + active_side(m).pits[i]) % 13 == 6),
{
    let a = active_side(m);
    let n = a.pits[i];
    let start = SowState {
        active: SideModel { pits: a.pits.update(i, 0), score: a.score },
        inactive: inactive_side(m),
        last_in_score: false,
    };
    if n >= 1 {
        lemma_place_all_flag(start, i + 1, n as nat);
    }
}

/// What the move enumerator's result holds, from `i` up: exactly the
/// indices of the nonempty pits, in strictly ascending order.
pub proof fn lemma_moves_from_props(pits: Seq<int>, i: int)
    requires
        0 <= i,
    ensures
        forall|x: usize|
            #[trigger] moves_from(pits, i).contains(x) <==> (i <= x < 6 && pits[x as int] != 0),
        forall|k: int, l: int|
            0 <= k < l < moves_from(pits, i).len() ==> moves_from(pits, i)[k] < moves_from(
                pits,
                i,
            )[l],
    decreases 6 - i,
{
    if i < 0 || i >= 6 {
        assert forall|x: usize| #[trigger]
            moves_from(pits, i).contains(x) <==> (i <= x < 6 && pits[x as int] != 0) by {
            if moves_from(pits, i).contains(x) {
                let j = choose|j: int| 0 <= j < moves_from(pits, i).len() && moves_from(
                    pits,
                    i,
                )[j] == x;
            }
        }
    } else {
        lemma_moves_from_props(pits, i + 1);
        let rest = moves_from(pits, i + 1);
        if pits[i] != 0 {
            let whole = seq![i as usize] + rest;
            assert(moves_from(pits, i) == whole);
            assert forall|x: usize| #[trigger]
                whole.contains(x) <==> (i <= x < 6 && pits[x as int] != 0) by {
                if whole.contains(x) {
                    let j = choose|j: int| 0 <= j < whole.len() && whole[j] == x;
                    if j > 0 {
                        assert(rest[j - 1] == x);
                        assert(rest.contains(x));
                    }
                } else {
                    if i <= x < 6 && pits[x as int] != 0 {
                        if x == i {
                            assert(whole[0] == x);
                        } else {
                            assert(rest.contains(x));
                            let j = choose|j: int| 0 <= j < rest.len() && rest[j] == x;
                            assert(whole[j + 1] == x);
                        }
                        assert(whole.contains(x));
                    }
                }
            }
            assert forall|k: int, l: int|
                0 <= k < l < whole.len() implies whole[k] < whole[l] by {
                if k == 0 {
                    assert(rest[l - 1] == whole[l]);
                    assert(rest.contains(rest[l - 1]));
                } else {
                    assert(whole[k] == rest[k - 1] && whole[l] == rest[l - 1]);
                }
            }
        } else {
            assert(moves_from(pits, i) == rest);
            assert forall|x: usize| #[trigger]
                moves_from(pits, i).contains(x) <==> (i <= x < 6 && pits[x as int] != 0) by {
                assert(rest.contains(x) <==> (i + 1 <= x < 6 && pits[x as int] != 0));
                if i <= x < 6 && pits[x as int] != 0 {
                    assert(x != i);
                }
            }
        }
    }
}

/// The move enumerator in prose: a position's legal moves are exactly
/// the indices of the active player's nonempty pits, strictly
/// ascending, and a finished game has none.
pub proof fn lemma_legal_moves(m: StateModel)
    ensures
        forall|x: usize|
            #[trigger] legal_moves_spec(m).contains(x) <==> (m.mode != GameMode::GameOver && x
                < 6 && active_side(m).pits[x as int] != 0),
        forall|k: int, l: int|
            0 <= k < l < legal_moves_spec(m).len() ==> legal_moves_spec(m)[k]
                < legal_moves_spec(m)[l],
        m.mode == GameMode::GameOver ==> legal_moves_spec(m) == Seq::<usize>::empty(),
{
    lemma_moves_from_props(active_side(m).pits, 0);
}

/// Capture correctness: when the final stone lands in one of the active
/// player's own pits that was empty, that pit stays empty (the stone is
/// not placed in it), the directly opposite pit is emptied, and the
/// active player's score grows by one plus the opposite pit's contents.
/// No other pit changes and no free turn is granted.
pub proof fn lemma_capture_correctness(st: SowState, slot: int)
    requires
        st.active.pits.len() == 6,
        st.inactive.pits.len() == 6,
        0 <= slot < 6,
        st.active.pits[slot] == 0,
    ensures
        place_all(st, slot, 1).active.pits == st.active.pits,
        place_all(st, slot, 1).active.pits[slot] == 0,
        place_all(st, slot, 1).active.score == st.active.score + st.inactive.pits[5 - slot]
            + 1,
        place_all(st, slot, 1).inactive.pits[5 - slot] == 0,
        forall|k: int|
            0 <= k < 6 && k != 5 - slot ==> place_all(st, slot, 1).inactive.pits[k]
                == st.inactive.pits[k],
        place_all(st, slot, 1).inactive.score == st.inactive.score,
        !place_all(st, slot, 1).last_in_score,
{
}

} // verus!
