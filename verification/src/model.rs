//! Mathematical model of the game.
//!
//! The executable types in [`crate::engine`] are abstracted to ghost
//! structs over `Seq<int>` and `int`, and the whole move-application
//! algorithm is restated here as the recursive spec function
//! [`place_all`], which places the stones in hand one at a time along the
//! board's 13-slot circular path (the active player's six pits, the
//! active player's score slot, then the inactive player's six pits).
//! [`apply_spec`] is the complete successor-position function; the
//! executable `get_next_state` is proved equal to it.

use vstd::prelude::*;
use crate::engine::GameMode;

verus! {

/// One player's side of the board: six pit counts and a banked score.
#[verifier::ext_equal]
pub ghost struct SideModel {
    pub pits: Seq<int>,
    pub score: int,
}

/// A full position: whose turn it is (or game over) and both sides.
#[verifier::ext_equal]
pub ghost struct StateModel {
    pub mode: GameMode,
    pub white: SideModel,
    pub black: SideModel,
}

/// Mid-sow state: the mover's side, the opponent's side, and whether the
/// most recently placed stone was the final one and fell in the score slot.
#[verifier::ext_equal]
pub ghost struct SowState {
    pub active: SideModel,
    pub inactive: SideModel,
    pub last_in_score: bool,
}

/// Sum of the six pit counts of one row.
pub open spec fn sum6(pits: Seq<int>) -> int {
    pits[0] + pits[1] + pits[2] + pits[3] + pits[4] + pits[5]
}

/// Every stone on the board or banked, both sides together.
pub open spec fn total_stones(m: StateModel) -> int {
    sum6(m.white.pits) + m.white.score + sum6(m.black.pits) + m.black.score
}

/// Replacing one entry of a six-entry row changes its sum by the
/// difference at that entry.
pub proof fn lemma_sum6_update(p: Seq<int>, j: int, v: int)
    requires
        p.len() == 6,
        0 <= j < 6,
    ensures
        sum6(p.update(j, v)) == sum6(p) - p[j] + v,
{
}

/// In a row of six non-negative entries, each entry is at most the sum.
pub proof fn lemma_elem_le_sum6(p: Seq<int>, j: int)
    requires
        p.len() == 6,
        0 <= j < 6,
        forall|k: int| 0 <= k < 6 ==> p[k] >= 0,
    ensures
        0 <= p[j] <= sum6(p),
{
}

impl SideModel {
    /// Structural validity: exactly six pits, nothing negative.
    pub open spec fn wf(self) -> bool {
        &&& self.pits.len() == 6
        &&& forall|i: int| 0 <= i < 6 ==> self.pits[i] >= 0
        &&& self.score >= 0
    }

    /// All six pits empty: the condition that ends the game.
    pub open spec fn all_empty(self) -> bool {
        forall|i: int| 0 <= i < 6 ==> self.pits[i] == 0
    }
}

impl StateModel {
    /// Structural validity, plus the machine bound that lets the
    /// executable engine sow without overflow: the total stone count
    /// fits in a `u64`.
    pub open spec fn wf(self) -> bool {
        &&& self.white.wf()
        &&& self.black.wf()
        &&& total_stones(self) <= u64::MAX
    }
}

/// The other player's turn marker.
pub open spec fn flip(mode: GameMode) -> GameMode {
    if mode == GameMode::WhiteTurn {
        GameMode::BlackTurn
    } else {
        GameMode::WhiteTurn
    }
}

/// Place `n` stones, one per slot, starting at `slot` on the 13-slot
/// circular path.  Slots 0..=5 are the active player's pits, slot 6 is
/// the active player's score slot, slots 7..=12 are the inactive
/// player's pits (the inactive score slot is skipped).
///
/// The final stone is special: landing in the active player's score slot
/// records a free turn (`last_in_score`), and landing in an empty active
/// pit captures — the landing pit stays empty and the stone plus the
/// entire directly opposite inactive pit (local index `5 - slot`) are
/// banked in the active player's score.
pub open spec fn place_all(st: SowState, slot: int, n: nat) -> SowState
    decreases n,
{
    if n == 0 {
        st
    } else if slot < 6 {
        if n == 1 && st.active.pits[slot] == 0 {
            SowState {
                active: SideModel {
                    pits: st.active.pits,
                    score: st.active.score + st.inactive.pits[5 - slot] + 1,
                },
                inactive: SideModel {
                    pits: st.inactive.pits.update(5 - slot, 0),
                    score: st.inactive.score,
                },
                last_in_score: false,
            }
        } else {
            let st2 = SowState {
                active: SideModel {
                    pits: st.active.pits.update(slot, st.active.pits[slot] + 1),
                    score: st.active.score,
                },
                inactive: st.inactive,
                last_in_score: st.last_in_score,
            };
            place_all(st2, slot + 1, (n - 1) as nat)
        }
    } else if slot == 6 {
        let st2 = SowState {
            active: SideModel { pits: st.active.pits, score: st.active.score + 1 },
            inactive: st.inactive,
            last_in_score: n == 1,
        };
        place_all(st2, 7, (n - 1) as nat)
    } else {
        let st2 = SowState {
            active: st.active,
            inactive: SideModel {
                pits: st.inactive.pits.update(slot - 7, st.inactive.pits[slot - 7] + 1),
                score: st.inactive.score,
            },
            last_in_score: st.last_in_score,
        };
        place_all(st2, if slot == 12 { 0 } else { slot + 1 }, (n - 1) as nat)
    }
}

/// The side of the player to move (White's in a finished game, which
/// [`apply_spec`] never consults).
pub open spec fn active_side(m: StateModel) -> SideModel {
    if m.mode == GameMode::BlackTurn {
        m.black
    } else {
        m.white
    }
}

/// The side of the player not moving.
pub open spec fn inactive_side(m: StateModel) -> SideModel {
    if m.mode == GameMode::BlackTurn {
        m.white
    } else {
        m.black
    }
}

/// The mover's and opponent's sides after sowing pit `i`, together with
/// the free-turn flag.  The chosen pit is emptied and its stones are
/// placed starting at the next slot.
pub open spec fn sow_outcome(m: StateModel, i: int) -> SowState {
    let a = active_side(m);
    let start = SowState {
        active: SideModel { pits: a.pits.update(i, 0), score: a.score },
        inactive: inactive_side(m),
        last_in_score: false,
    };
    place_all(start, i + 1, a.pits[i] as nat)
}

/// The successor position: identity when the game is over; otherwise the
/// sown sides are put back in white/black order and the next mode is
/// chosen — game over if the mover's row emptied (this takes priority
/// over the free turn), the same player on a free turn, else the other
/// player.
pub open spec fn apply_spec(m: StateModel, i: int) -> StateModel {
    if m.mode == GameMode::GameOver {
        m
    } else {
        let o = sow_outcome(m, i);
        let mode = if o.active.all_empty() {
            GameMode::GameOver
        } else if o.last_in_score {
            m.mode
        } else {
            flip(m.mode)
        };
        if m.mode == GameMode::WhiteTurn {
            StateModel { mode, white: o.active, black: o.inactive }
        } else {
            StateModel { mode, white: o.inactive, black: o.active }
        }
    }
}

/// The ascending indices of the nonempty pits of `pits`, from `i` up.
pub open spec fn moves_from(pits: Seq<int>, i: int) -> Seq<usize>
    decreases 6 - i,
{
    if i < 0 || i >= 6 {
        Seq::empty()
    } else if pits[i] != 0 {
        seq![i as usize] + moves_from(pits, i + 1)
    } else {
        moves_from(pits, i + 1)
    }
}

/// The legal moves of a position: none when the game is over, otherwise
/// the ascending indices of the active player's nonempty pits.
pub open spec fn legal_moves_spec(m: StateModel) -> Seq<usize> {
    if m.mode == GameMode::GameOver {
        Seq::empty()
    } else if m.mode == GameMode::WhiteTurn {
        moves_from(m.white.pits, 0)
    } else {
        moves_from(m.black.pits, 0)
    }
}

/// The position after playing a whole sequence of moves, first to last.
pub open spec fn apply_moves(m: StateModel, moves: Seq<int>) -> StateModel
    decreases moves.len(),
{
    if moves.len() == 0 {
        m
    } else {
        apply_moves(apply_spec(m, moves[0]), moves.drop_first())
    }
}

/// The standard starting position: four stones in each pit, empty
/// scores, White to move.
pub open spec fn initial_model() -> StateModel {
    StateModel {
        mode: GameMode::WhiteTurn,
        white: SideModel { pits: seq![4, 4, 4, 4, 4, 4], score: 0 },
        black: SideModel { pits: seq![4, 4, 4, 4, 4, 4], score: 0 },
    }
}

} // verus!
