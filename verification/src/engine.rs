//! Executable game types and the move engine.
//!
//! Every function's contract is stated against the ghost model in
//! [`crate::model`]; in particular `get_next_state` is proved to return
//! exactly [`apply_spec`] of its input.

use vstd::prelude::*;
use crate::model::{
    SideModel, StateModel, SowState, apply_spec, initial_model, legal_moves_spec,
    lemma_elem_le_sum6, lemma_sum6_update, moves_from, place_all, sow_outcome, sum6,
    total_stones,
};

verus! {

/// Whose turn it is, or that the game has ended.
#[derive(Copy, Clone, PartialEq, Eq, Structural, Debug)]
pub enum GameMode {
    WhiteTurn,
    BlackTurn,
    GameOver,
}

/// One player's side: six pit counts and the banked score.
#[derive(PartialEq, Eq, Debug)]
pub struct Player {
    pub pits: Vec<u64>,
    pub score: u64,
}

impl View for Player {
    type V = SideModel;

    open spec fn view(&self) -> SideModel {
        SideModel {
            pits: self.pits@.map_values(|x: u64| x as int),
            score: self.score as int,
        }
    }
}

/// A full game position.
#[derive(PartialEq, Eq, Debug)]
pub struct GameState {
    pub mode: GameMode,
    pub white: Player,
    pub black: Player,
}

impl View for GameState {
    type V = StateModel;

    open spec fn view(&self) -> StateModel {
        StateModel { mode: self.mode, white: self.white@, black: self.black@ }
    }
}

/// A raw two-row board layout for building positions: each array is one
/// visual row of eight slots, holding a score slot, six pit counts and a
/// turn-indicator flag (see [`GameState::from`] for the exact mapping).
pub struct GameSkeuomorph {
    pub b: [u8; 8],
    pub w: [u8; 8],
}

/// The model a raw layout denotes.  White's pits are `w[1..=6]` with
/// score `w[7]`; Black's pits are `b[6]` down to `b[1]` with score
/// `b[0]`; `b[7]` is Black's turn flag and `w[0]` distinguishes White's
/// turn from a finished game.
pub open spec fn skeuomorph_model(s: GameSkeuomorph) -> StateModel {
    StateModel {
        mode: if s.b[7] == 0 {
            if s.w[0] == 0 {
                GameMode::GameOver
            } else {
                GameMode::WhiteTurn
            }
        } else {
            GameMode::BlackTurn
        },
        white: SideModel {
            pits: seq![
                s.w[1] as int,
                s.w[2] as int,
                s.w[3] as int,
                s.w[4] as int,
                s.w[5] as int,
                s.w[6] as int,
            ],
            score: s.w[7] as int,
        },
        black: SideModel {
            pits: seq![
                s.b[6] as int,
                s.b[5] as int,
                s.b[4] as int,
                s.b[3] as int,
                s.b[2] as int,
                s.b[1] as int,
            ],
            score: s.b[0] as int,
        },
    }
}

/// The model of a side built from `u64` counts has no negative pit.
proof fn lemma_pits_nonneg(p: &Player)
    requires
        p.pits@.len() == 6,
    ensures
        forall|k: int| 0 <= k < 6 ==> #[trigger] p@.pits[k] >= 0,
{
    assert forall|k: int| 0 <= k < 6 implies #[trigger] p@.pits[k] >= 0 by {
        assert(p@.pits[k] == p.pits@[k] as int);
    }
}

/// Builds a six-entry pit row from the given counts.
fn pits6(a: u64, b: u64, c: u64, d: u64, e: u64, f: u64) -> (r: Vec<u64>)
    ensures
        r@ == seq![a, b, c, d, e, f],
{
    let mut v: Vec<u64> = Vec::new();
    v.push(a);
    v.push(b);
    v.push(c);
    v.push(d);
    v.push(e);
    v.push(f);
    proof {
        assert(v@ =~= seq![a, b, c, d, e, f]);
    }
    v
}

impl Clone for Player {
    /// Copies the side; the copy denotes the same model.
    fn clone(&self) -> (r: Self)
        ensures
            r@ == self@,
    {
        let mut pits: Vec<u64> = Vec::new();
        let mut j: usize = 0;
        while j < self.pits.len()
            invariant
                0 <= j <= self.pits@.len(),
                pits@ == self.pits@.take(j as int),
            decreases self.pits@.len() - j,
        {
            pits.push(self.pits[j]);
            proof {
                assert(pits@ =~= self.pits@.take(j as int + 1));
            }
            j = j + 1;
        }
        proof {
            assert(pits@ =~= self.pits@);
        }
        let r = Player { pits, score: self.score };
        proof {
            assert(r@.pits =~= self@.pits);
            assert(r@ =~= self@);
        }
        r
    }
}

impl Player {
    /// Replaces one pit count.
    fn set_pit(&mut self, i: usize, v: u64)
        requires
            i < old(self).pits@.len(),
        ensures
            final(self)@.pits == old(self)@.pits.update(i as int, v as int),
            final(self)@.score == old(self)@.score,
            final(self).pits@.len() == old(self).pits@.len(),
    {
        self.pits.set(i, v);
        proof {
            assert(self@.pits =~= old(self)@.pits.update(i as int, v as int));
        }
    }

    /// The indices of this side's nonempty pits, in ascending order.
    pub fn get_moves(&self) -> (r: Vec<usize>)
        requires
            self.pits@.len() == 6,
        ensures
            r@ == moves_from(self@.pits, 0),
    {
        let mut r: Vec<usize> = Vec::new();
        let mut i: usize = 0;
        while i < 6
            invariant
                0 <= i <= 6,
                self.pits@.len() == 6,
                moves_from(self@.pits, 0) == r@ + moves_from(self@.pits, i as int),
            decreases 6 - i,
        {
            if self.pits[i] != 0 {
                r.push(i);
                proof {
                    assert(moves_from(self@.pits, i as int) == seq![i] + moves_from(
                        self@.pits,
                        i as int + 1,
                    ));
                    assert(r@ + moves_from(self@.pits, i as int + 1) =~= (r@.drop_last() + (
                    seq![i] + moves_from(self@.pits, i as int + 1))));
                }
            }
            i = i + 1;
        }
        proof {
            assert(r@ + moves_from(self@.pits, 6) =~= r@);
        }
        r
    }
}

impl GameState {
    /// Builds the position a raw two-row layout denotes.  Every position
    /// built this way is well formed: the fourteen `u8` slots cannot sum
    /// past `u64::MAX`.
    pub fn from(s: GameSkeuomorph) -> (r: GameState)
        ensures
            r@ == skeuomorph_model(s),
            r@.wf(),
    {
        let mode = if s.b[7] == 0 {
            if s.w[0] == 0 {
                GameMode::GameOver
            } else {
                GameMode::WhiteTurn
            }
        } else {
            GameMode::BlackTurn
        };
        let r = GameState {
            mode,
            white: Player {
                pits: pits6(
                    s.w[1] as u64,
                    s.w[2] as u64,
                    s.w[3] as u64,
                    s.w[4] as u64,
                    s.w[5] as u64,
                    s.w[6] as u64,
                ),
                score: s.w[7] as u64,
            },
            black: Player {
                pits: pits6(
                    s.b[6] as u64,
                    s.b[5] as u64,
                    s.b[4] as u64,
                    s.b[3] as u64,
                    s.b[2] as u64,
                    s.b[1] as u64,
                ),
                score: s.b[0] as u64,
            },
        };
        proof {
            assert(r@.white.pits =~= skeuomorph_model(s).white.pits);
            assert(r@.black.pits =~= skeuomorph_model(s).black.pits);
            assert(r@ =~= skeuomorph_model(s));
        }
        r
    }

    /// The standard starting position: four stones in each of the six
    /// pits per side, empty scores, White to move.
    pub fn new() -> (r: GameState)
        ensures
            r@ == initial_model(),
            r@.wf(),
    {
        let r = GameState::from(
            GameSkeuomorph { b: [0, 4, 4, 4, 4, 4, 4, 0], w: [1, 4, 4, 4, 4, 4, 4, 0] },
        );
        proof {
            assert(r@.white.pits =~= initial_model().white.pits);
            assert(r@.black.pits =~= initial_model().black.pits);
            assert(r@ =~= initial_model());
        }
        r
    }

    /// Applies one move: the successor position of `apply_spec`, built
    /// by sowing the chosen pit's stones along the 13-slot circular
    /// path and applying the capture, free-turn and end-of-game rules.
    /// In a finished game the position is returned unchanged.  Choosing
    /// an empty pit sows zero stones: the pit stays empty, nothing else
    /// moves, and the turn passes (or the game ends if the whole active
    /// row is empty).
    pub fn get_next_state(&self, pit_index: usize) -> (r: GameState)
        requires
            pit_index < 6,
            self@.wf(),
        ensures
            r@ == apply_spec(self@, pit_index as int),
            r@.wf(),
    {
        let ghost m = self@;
        let ghost gi = pit_index as int;
        let game_over = match self.mode {
            GameMode::GameOver => true,
            _ => false,
        };
        if game_over {
            let r = GameState {
                mode: self.mode,
                white: self.white.clone(),
                black: self.black.clone(),
            };
            proof {
                assert(r@ =~= m);
            }
            return r;
        }

        let white_turn = match self.mode {
            GameMode::WhiteTurn => true,
            _ => false,
        };
        let (mut active, mut inactive) = if white_turn {
            (self.white.clone(), self.black.clone())
        } else {
            (self.black.clone(), self.white.clone())
        };
        let ghost s0 = total_stones(m);

        let mut n: u64 = active.pits[pit_index];
        active.set_pit(pit_index, 0);
        let mut slot: usize = pit_index + 1;
        let mut last_in_score = false;

        proof {
            let cur = SowState { active: active@, inactive: inactive@, last_in_score };
            let a = if m.mode == GameMode::WhiteTurn {
                m.white
            } else {
                m.black
            };
            assert(cur.active.pits =~= a.pits.update(gi, 0));
            assert(cur =~= (SowState {
                active: SideModel { pits: a.pits.update(gi, 0), score: a.score },
                inactive: if m.mode == GameMode::WhiteTurn {
                    m.black
                } else {
                    m.white
                },
                last_in_score: false,
            }));
            assert(sum6(cur.active.pits) == sum6(a.pits) - a.pits[gi]) by {
                lemma_sum6_update(a.pits, gi, 0);
            }
        }

        while n > 0
            invariant
                active.pits@.len() == 6,
                inactive.pits@.len() == 6,
                0 <= slot <= 12,
                m.wf(),
                s0 == total_stones(m),
                sum6(active@.pits) + active@.score + sum6(inactive@.pits) + inactive@.score + n
                    == s0,
                last_in_score ==> n == 0,
                place_all(
                    SowState { active: active@, inactive: inactive@, last_in_score },
                    slot as int,
                    n as nat,
                ) == sow_outcome(m, gi),
            decreases n,
        {
            let ghost pre = SowState { active: active@, inactive: inactive@, last_in_score };
            proof {
                lemma_pits_nonneg(&active);
                lemma_pits_nonneg(&inactive);
            }
            if slot < 6 {
                if n == 1 && active.pits[slot] == 0 {
                    let opposite: usize = 5 - slot;
                    proof {
                        lemma_elem_le_sum6(inactive@.pits, opposite as int);
                    }
                    let stolen = inactive.pits[opposite];
                    inactive.set_pit(opposite, 0);
                    active.score = active.score + stolen + 1;
                    n = 0;
                    proof {
                        let post = SowState {
                            active: active@,
                            inactive: inactive@,
                            last_in_score,
                        };
                        assert(post.inactive.pits =~= pre.inactive.pits.update(
                            5 - slot as int,
                            0,
                        ));
                        assert(post =~= place_all(pre, slot as int, 1));
                        assert(sum6(post.inactive.pits) == sum6(pre.inactive.pits)
                            - pre.inactive.pits[5 - slot as int]) by {
                            lemma_sum6_update(pre.inactive.pits, 5 - slot as int, 0);
                        }
                    }
                } else {
                    proof {
                        lemma_elem_le_sum6(active@.pits, slot as int);
                    }
                    let bumped = active.pits[slot] + 1;
                    active.set_pit(slot, bumped);
                    n = n - 1;
                    slot = slot + 1;
                    proof {
                        let post = SowState {
                            active: active@,
                            inactive: inactive@,
                            last_in_score,
                        };
                        assert(post.active.pits =~= pre.active.pits.update(
                            slot as int - 1,
                            pre.active.pits[slot as int - 1] + 1,
                        ));
                        assert(sum6(post.active.pits) == sum6(pre.active.pits) + 1) by {
                            lemma_sum6_update(
                                pre.active.pits,
                                slot as int - 1,
                                pre.active.pits[slot as int - 1] + 1,
                            );
                        }
                        assert(place_all(post, slot as int, n as nat) == place_all(
                            pre,
                            slot as int - 1,
                            (n + 1) as nat,
                        ));
                    }
                }
            } else if slot == 6 {
                active.score = active.score + 1;
                n = n - 1;
                last_in_score = n == 0;
                slot = 7;
                proof {
                    let post = SowState { active: active@, inactive: inactive@, last_in_score };
                    assert(place_all(post, 7, n as nat) == place_all(pre, 6, (n + 1) as nat));
                }
            } else {
                let local: usize = slot - 7;
                proof {
                    lemma_elem_le_sum6(inactive@.pits, local as int);
                }
                let bumped = inactive.pits[local] + 1;
                inactive.set_pit(local, bumped);
                n = n - 1;
                let ghost old_slot = slot as int;
                slot = if slot == 12 {
                    0
                } else {
                    slot + 1
                };
                proof {
                    let post = SowState { active: active@, inactive: inactive@, last_in_score };
                    assert(post.inactive.pits =~= pre.inactive.pits.update(
                        old_slot - 7,
                        pre.inactive.pits[old_slot - 7] + 1,
                    ));
                    assert(sum6(post.inactive.pits) == sum6(pre.inactive.pits) + 1) by {
                        lemma_sum6_update(
                            pre.inactive.pits,
                            old_slot - 7,
                            pre.inactive.pits[old_slot - 7] + 1,
                        );
                    }
                    assert(place_all(post, slot as int, n as nat) == place_all(
                        pre,
                        old_slot,
                        (n + 1) as nat,
                    ));
                }
            }
        }

        let ghost outcome = sow_outcome(m, gi);
        proof {
            assert(SowState { active: active@, inactive: inactive@, last_in_score } == outcome);
        }

        let is_over = active.pits[0] == 0 && active.pits[1] == 0 && active.pits[2] == 0
            && active.pits[3] == 0 && active.pits[4] == 0 && active.pits[5] == 0;
        proof {
            if is_over {
                assert forall|k: int| 0 <= k < 6 implies outcome.active.pits[k] == 0 by {
                    assert(active@.pits[k] == active.pits@.map_values(|x: u64| x as int)[k]);
                }
            }
            assert(is_over == outcome.active.all_empty());
        }

        let mode = if is_over {
            GameMode::GameOver
        } else if last_in_score {
            self.mode
        } else if white_turn {
            GameMode::BlackTurn
        } else {
            GameMode::WhiteTurn
        };

        let r = if white_turn {
            GameState { mode, white: active, black: inactive }
        } else {
            GameState { mode, white: inactive, black: active }
        };
        proof {
            assert(r@ =~= apply_spec(m, gi));
        }
        r
    }

    /// The pits the player to move may choose: the ascending indices of
    /// the active player's nonempty pits, and none once the game is over.
    pub fn get_valid_moves(&self) -> (r: Vec<usize>)
        requires
            self@.white.pits.len() == 6,
            self@.black.pits.len() == 6,
        ensures
            r@ == legal_moves_spec(self@),
    {
        match self.mode {
            GameMode::WhiteTurn => self.white.get_moves(),
            GameMode::BlackTurn => self.black.get_moves(),
            GameMode::GameOver => Vec::new(),
        }
    }
}

} // verus!
