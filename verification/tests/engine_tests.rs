use mancala::{GameSkeuomorph, GameState};

#[test]
fn game_over_is_permanent() {
    let game_over = GameState::from(GameSkeuomorph {
        b: [0, 4, 4, 4, 4, 4, 4, 0],
        w: [0, 4, 4, 4, 4, 4, 4, 0],
    });

    assert_eq!(game_over.get_next_state(0), game_over);
}

#[test]
fn white_basic_move() {
    assert_eq!(
        GameState::new().get_next_state(0),
        GameState::from(GameSkeuomorph {
            b: [0, 4, 4, 4, 4, 4, 4, 1],
            w: [0, 0, 5, 5, 5, 5, 4, 0],
        })
    );
}

#[test]
fn black_basic_move() {
    assert_eq!(
        GameState::new().get_next_state(0).get_next_state(0),
        GameState::from(GameSkeuomorph {
            b: [0, 4, 5, 5, 5, 5, 0, 0],
            w: [1, 0, 5, 5, 5, 5, 4, 0],
        })
    );
}

#[test]
fn white_overflow_move() {
    assert_eq!(
        GameState::new().get_next_state(5),
        GameState::from(GameSkeuomorph {
            b: [0, 4, 4, 4, 5, 5, 5, 1],
            w: [0, 4, 4, 4, 4, 4, 0, 1],
        })
    );
}

#[test]
fn black_overflow_move() {
    assert_eq!(
        GameState::from(GameSkeuomorph {
            b: [0, 4, 4, 4, 5, 5, 5, 1],
            w: [0, 4, 4, 4, 4, 4, 0, 1],
        })
        .get_next_state(5),
        GameState::from(GameSkeuomorph {
            b: [1, 0, 4, 4, 5, 5, 5, 0],
            w: [1, 5, 5, 5, 4, 4, 0, 1],
        })
    );
}

#[test]
fn white_free_turn() {
    assert_eq!(
        GameState::new().get_next_state(2),
        GameState::from(GameSkeuomorph {
            b: [0, 4, 4, 4, 4, 4, 4, 0],
            w: [1, 4, 4, 0, 5, 5, 5, 1],
        })
    );
}

#[test]
fn black_free_turn() {
    assert_eq!(
        GameState::new().get_next_state(0).get_next_state(2),
        GameState::from(GameSkeuomorph {
            b: [1, 5, 5, 5, 0, 4, 4, 1],
            w: [0, 0, 5, 5, 5, 5, 4, 0],
        })
    );
}

#[test]
fn white_long_wrap() {
    assert_eq!(
        GameState::from(GameSkeuomorph {
            b: [0, 0, 0, 0, 0, 0, 0, 0],
            w: [1, 0, 0, 0, 0, 0, 48, 0],
        })
        .get_next_state(5),
        GameState::from(GameSkeuomorph {
            b: [0, 4, 4, 4, 4, 4, 4, 1],
            w: [0, 4, 4, 3, 3, 3, 3, 4],
        })
    );
}

#[test]
fn black_long_wrap() {
    assert_eq!(
        GameState::from(GameSkeuomorph {
            b: [0, 48, 0, 0, 0, 0, 0, 1],
            w: [0, 0, 0, 0, 0, 0, 0, 0],
        })
        .get_next_state(5),
        GameState::from(GameSkeuomorph {
            b: [4, 3, 3, 3, 3, 4, 4, 0],
            w: [1, 4, 4, 4, 4, 4, 4, 0],
        })
    );
}

#[test]
fn white_steal() {
    assert_eq!(
        GameState::from(GameSkeuomorph {
            b: [0, 4, 4, 4, 4, 4, 4, 0],
            w: [1, 8, 4, 4, 4, 4, 0, 0],
        })
        .get_next_state(1),
        GameState::from(GameSkeuomorph {
            b: [0, 4, 4, 4, 4, 4, 0, 1],
            w: [0, 8, 0, 5, 5, 5, 0, 5],
        })
    );
}

#[test]
fn black_steal() {
    assert_eq!(
        GameState::from(GameSkeuomorph {
            b: [0, 0, 4, 4, 4, 4, 8, 1],
            w: [0, 4, 4, 4, 4, 4, 4, 0],
        })
        .get_next_state(1),
        GameState::from(GameSkeuomorph {
            b: [5, 0, 5, 5, 5, 0, 8, 0],
            w: [1, 0, 4, 4, 4, 4, 4, 0],
        })
    );
}

#[test]
fn game_over_if_white_empty() {
    assert_eq!(
        GameState::from(GameSkeuomorph {
            b: [0, 8, 8, 8, 8, 8, 6, 0],
            w: [1, 0, 0, 0, 0, 0, 2, 0],
        })
        .get_next_state(5),
        GameState::from(GameSkeuomorph {
            b: [0, 8, 8, 8, 8, 8, 7, 0],
            w: [0, 0, 0, 0, 0, 0, 0, 1],
        })
    );
}

#[test]
fn game_over_if_black_empty() {
    assert_eq!(
        GameState::from(GameSkeuomorph {
            b: [0, 2, 0, 0, 0, 0, 0, 1],
            w: [0, 6, 8, 8, 8, 8, 8, 0],
        })
        .get_next_state(5),
        GameState::from(GameSkeuomorph {
            b: [1, 0, 0, 0, 0, 0, 0, 0],
            w: [0, 7, 8, 8, 8, 8, 8, 0],
        })
    );
}
