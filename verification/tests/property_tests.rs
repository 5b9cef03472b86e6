use mancala::{GameMode, GameSkeuomorph, GameState};

fn stones(g: &GameState) -> u64 {
    let mut total: u64 = g.white.score + g.black.score;
    for i in 0..6 {
        total += g.white.pits[i] + g.black.pits[i];
    }
    total
}

#[test]
fn stones_conserved_over_a_game() {
    let mut g = GameState::new();
    assert_eq!(stones(&g), 48);
    // Play the lowest legal move until the game ends (or long enough).
    for _ in 0..200 {
        let moves = g.get_valid_moves();
        if moves.is_empty() {
            break;
        }
        g = g.get_next_state(moves[0]);
        assert_eq!(stones(&g), 48);
    }
}

#[test]
fn turn_alternates_on_plain_move() {
    let g = GameState::new();
    assert_eq!(g.mode, GameMode::WhiteTurn);
    let g2 = g.get_next_state(0);
    assert_eq!(g2.mode, GameMode::BlackTurn);
    let g3 = g2.get_next_state(0);
    assert_eq!(g3.mode, GameMode::WhiteTurn);
}

#[test]
fn free_turn_keeps_mover() {
    // The third pit's four stones end exactly in White's score slot.
    let g = GameState::new().get_next_state(2);
    assert_eq!(g.mode, GameMode::WhiteTurn);
    assert_eq!(g.white.score, 1);
}

#[test]
fn capture_empties_both_pits_and_banks() {
    // White's pit 1 holds 4 stones; the last lands in empty pit 5 and
    // steals Black's opposite pit 0 (4 stones): score gains 4 + 1.
    let before = GameState::from(GameSkeuomorph {
        b: [0, 4, 4, 4, 4, 4, 4, 0],
        w: [1, 8, 4, 4, 4, 4, 0, 0],
    });
    let after = before.get_next_state(1);
    assert_eq!(after.white.pits[5], 0);
    assert_eq!(after.black.pits[0], 0);
    assert_eq!(after.white.score, before.white.score + before.black.pits[0] + 1);
}

#[test]
fn long_sow_wraps_without_second_banking() {
    // Eight stones from White's pit 1: four into pits 2..=5, one into
    // White's score, three into Black's row; the last stone lands in
    // Black's pit 2, so no capture and the turn passes.
    let g = GameState::from(GameSkeuomorph {
        b: [0, 4, 4, 4, 4, 4, 4, 0],
        w: [1, 0, 8, 0, 0, 0, 0, 0],
    })
    .get_next_state(1);
    assert_eq!(
        g,
        GameState::from(GameSkeuomorph {
            b: [0, 4, 4, 4, 5, 5, 5, 1],
            w: [0, 0, 0, 1, 1, 1, 1, 1],
        })
    );
}

#[test]
fn empty_pit_sows_nothing_and_passes_turn() {
    // Choosing an empty pit moves no stones; the turn still passes.
    let before = GameState::from(GameSkeuomorph {
        b: [0, 4, 4, 4, 4, 4, 4, 0],
        w: [1, 0, 4, 4, 4, 4, 4, 2],
    });
    let after = before.get_next_state(0);
    assert_eq!(after.mode, GameMode::BlackTurn);
    assert_eq!(after.white, before.white);
    assert_eq!(after.black, before.black);
}

#[test]
fn valid_moves_initial_position() {
    let g = GameState::new();
    assert_eq!(g.get_valid_moves(), vec![0, 1, 2, 3, 4, 5]);
}

#[test]
fn valid_moves_skip_empty_pits() {
    let g = GameState::from(GameSkeuomorph {
        b: [0, 4, 4, 4, 4, 4, 4, 0],
        w: [1, 0, 3, 0, 7, 0, 2, 0],
    });
    assert_eq!(g.get_valid_moves(), vec![1, 3, 5]);
}

#[test]
fn valid_moves_for_black_side() {
    // Black to move: the enumerator reads Black's row.
    let g = GameState::from(GameSkeuomorph {
        b: [0, 5, 0, 0, 2, 0, 1, 1],
        w: [1, 4, 4, 4, 4, 4, 4, 0],
    });
    // Black's pits 0..=5 are b[6] down to b[1]: [1, 0, 2, 0, 0, 5].
    assert_eq!(g.get_valid_moves(), vec![0, 2, 5]);
}

#[test]
fn no_valid_moves_after_game_over() {
    let g = GameState::from(GameSkeuomorph {
        b: [0, 4, 4, 4, 4, 4, 4, 0],
        w: [0, 4, 4, 4, 4, 4, 4, 0],
    });
    assert_eq!(g.get_valid_moves(), Vec::<usize>::new());
}

#[test]
fn game_over_beats_free_turn() {
    // White's only stone lands in the score slot, which would grant a
    // free turn, but White's row is now empty: the game ends instead.
    let g = GameState::from(GameSkeuomorph {
        b: [0, 4, 4, 4, 4, 4, 4, 0],
        w: [1, 0, 0, 0, 0, 0, 1, 0],
    })
    .get_next_state(5);
    assert_eq!(g.mode, GameMode::GameOver);
    assert_eq!(g.white.score, 1);
}

#[test]
fn render_initial_position() {
    let expected = "   | 4| 4| 4| 4| 4| 4|   \n 0 |--WHITE TO MOVE--| 0\n   | 4| 4| 4| 4| 4| 4|   \n";
    assert_eq!(GameState::new().render(), expected);
}

#[test]
fn render_black_turn_and_wide_scores() {
    let g = GameState::from(GameSkeuomorph {
        b: [12, 1, 2, 3, 4, 5, 6, 1],
        w: [0, 9, 10, 11, 0, 1, 2, 48],
    });
    let expected = "   | 1| 2| 3| 4| 5| 6|   \n12 |--BLACK TO MOVE--| 48\n   | 9|10|11| 0| 1| 2|   \n";
    assert_eq!(g.render(), expected);
}

#[test]
fn render_game_over_label() {
    let g = GameState::from(GameSkeuomorph {
        b: [20, 0, 0, 0, 0, 0, 0, 0],
        w: [0, 0, 0, 0, 0, 0, 0, 28],
    });
    let expected = "   | 0| 0| 0| 0| 0| 0|   \n20 |----GAME OVER----| 28\n   | 0| 0| 0| 0| 0| 0|   \n";
    assert_eq!(g.render(), expected);
}
