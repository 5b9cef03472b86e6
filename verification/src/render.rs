//! Board rendering: a position drawn as a two-row board with both
//! scores and a status label.  Black's row is shown reversed so the
//! picture matches the physical board (White's pits run left to right,
//! Black's right to left).  The output is pinned down exactly by
//! [`render_spec`].

use vstd::prelude::*;
use crate::engine::{GameMode, GameState, Player};
use crate::model::{SideModel, StateModel};

verus! {

/// The character of one decimal digit.
pub open spec fn digit_seq(d: int) -> Seq<char> {
    if d == 0 {
        "0"@
    } else if d == 1 {
        "1"@
    } else if d == 2 {
        "2"@
    } else if d == 3 {
        "3"@
    } else if d == 4 {
        "4"@
    } else if d == 5 {
        "5"@
    } else if d == 6 {
        "6"@
    } else if d == 7 {
        "7"@
    } else if d == 8 {
        "8"@
    } else {
        "9"@
    }
}

/// The decimal numeral of `n`, most significant digit first.
pub open spec fn dec_seq(n: nat) -> Seq<char>
    decreases n,
{
    if n < 10 {
        digit_seq(n as int)
    } else {
        dec_seq(n / 10) + digit_seq((n % 10) as int)
    }
}

/// `n` right-aligned in a field of width at least two: a one-digit
/// numeral gets one leading space, anything longer is unchanged.
pub open spec fn pad2(n: nat) -> Seq<char> {
    if n < 10 {
        " "@ + dec_seq(n)
    } else {
        dec_seq(n)
    }
}

/// The status label drawn between the two scores.
pub open spec fn mode_label(mode: GameMode) -> Seq<char> {
    if mode == GameMode::WhiteTurn {
        "WHITE TO MOVE"@
    } else if mode == GameMode::BlackTurn {
        "BLACK TO MOVE"@
    } else {
        "--GAME OVER--"@
    }
}

/// The top row: Black's pits in reverse order.
pub open spec fn top_row_spec(black: SideModel) -> Seq<char> {
    "   |"@ + pad2(black.pits[5] as nat) + "|"@ + pad2(black.pits[4] as nat) + "|"@ + pad2(
        black.pits[3] as nat,
    ) + "|"@ + pad2(black.pits[2] as nat) + "|"@ + pad2(black.pits[1] as nat) + "|"@ + pad2(
        black.pits[0] as nat,
    ) + "|   \n"@
}

/// The middle row: Black's score, the status label, White's score.
pub open spec fn mid_row_spec(mode: GameMode, black_score: nat, white_score: nat) -> Seq<char> {
    pad2(black_score) + " |--"@ + mode_label(mode) + "--| "@ + dec_seq(white_score) + "\n"@
}

/// The bottom row: White's pits in board order.
pub open spec fn bottom_row_spec(white: SideModel) -> Seq<char> {
    "   |"@ + pad2(white.pits[0] as nat) + "|"@ + pad2(white.pits[1] as nat) + "|"@ + pad2(
        white.pits[2] as nat,
    ) + "|"@ + pad2(white.pits[3] as nat) + "|"@ + pad2(white.pits[4] as nat) + "|"@ + pad2(
        white.pits[5] as nat,
    ) + "|   \n"@
}

/// The whole picture: Black's row, the score/status row, White's row.
pub open spec fn render_spec(m: StateModel) -> Seq<char> {
    top_row_spec(m.black) + mid_row_spec(m.mode, m.black.score as nat, m.white.score as nat)
        + bottom_row_spec(m.white)
}

/// Appends one decimal digit.
fn append_digit(s: &mut String, d: u64)
    requires
        d < 10,
    ensures
        final(s)@ == old(s)@ + digit_seq(d as int),
{
    if d == 0 {
        s.append("0");
    } else if d == 1 {
        s.append("1");
    } else if d == 2 {
        s.append("2");
    } else if d == 3 {
        s.append("3");
    } else if d == 4 {
        s.append("4");
    } else if d == 5 {
        s.append("5");
    } else if d == 6 {
        s.append("6");
    } else if d == 7 {
        s.append("7");
    } else if d == 8 {
        s.append("8");
    } else {
        s.append("9");
    }
}

/// Appends the decimal numeral of `n`.
fn append_dec(s: &mut String, n: u64)
    ensures
        final(s)@ == old(s)@ + dec_seq(n as nat),
    decreases n,
{
    if n >= 10 {
        proof {
            assert(n / 10 < n) by (nonlinear_arith)
                requires
                    n >= 10,
            ;
        }
        append_dec(s, n / 10);
        append_digit(s, n % 10);
        proof {
            assert(old(s)@ + dec_seq((n / 10) as nat) + digit_seq((n % 10) as int) =~= old(s)@
                + dec_seq(n as nat));
        }
    } else {
        append_digit(s, n);
    }
}

/// Appends `n` right-aligned in a field of width at least two.
fn append_pad2(s: &mut String, n: u64)
    ensures
        final(s)@ == old(s)@ + pad2(n as nat),
{
    if n < 10 {
        s.append(" ");
        append_dec(s, n);
        proof {
            assert(old(s)@ + " "@ + dec_seq(n as nat) =~= old(s)@ + pad2(n as nat));
        }
    } else {
        append_dec(s, n);
    }
}

/// Appends the top row: Black's pits in reverse order.
fn append_top_row(s: &mut String, black: &Player)
    requires
        black.pits@.len() == 6,
    ensures
        final(s)@ == old(s)@ + top_row_spec(black@),
{
    s.append("   |");
    append_pad2(s, black.pits[5]);
    s.append("|");
    append_pad2(s, black.pits[4]);
    s.append("|");
    append_pad2(s, black.pits[3]);
    s.append("|");
    append_pad2(s, black.pits[2]);
    s.append("|");
    append_pad2(s, black.pits[1]);
    s.append("|");
    append_pad2(s, black.pits[0]);
    s.append("|   \n");
    proof {
        assert(s@ =~= old(s)@ + top_row_spec(black@));
    }
}

/// Appends the middle row: Black's score, the status label, White's
/// score.
fn append_mid_row(s: &mut String, mode: GameMode, black_score: u64, white_score: u64)
    ensures
        final(s)@ == old(s)@ + mid_row_spec(mode, black_score as nat, white_score as nat),
{
    append_pad2(s, black_score);
    s.append(" |--");
    match mode {
        GameMode::WhiteTurn => s.append("WHITE TO MOVE"),
        GameMode::BlackTurn => s.append("BLACK TO MOVE"),
        GameMode::GameOver => s.append("--GAME OVER--"),
    }
    s.append("--| ");
    append_dec(s, white_score);
    s.append("\n");
    proof {
        assert(s@ =~= old(s)@ + mid_row_spec(mode, black_score as nat, white_score as nat));
    }
}

/// Appends the bottom row: White's pits in board order.
fn append_bottom_row(s: &mut String, white: &Player)
    requires
        white.pits@.len() == 6,
    ensures
        final(s)@ == old(s)@ + bottom_row_spec(white@),
{
    s.append("   |");
    append_pad2(s, white.pits[0]);
    s.append("|");
    append_pad2(s, white.pits[1]);
    s.append("|");
    append_pad2(s, white.pits[2]);
    s.append("|");
    append_pad2(s, white.pits[3]);
    s.append("|");
    append_pad2(s, white.pits[4]);
    s.append("|");
    append_pad2(s, white.pits[5]);
    s.append("|   \n");
    proof {
        assert(s@ =~= old(s)@ + bottom_row_spec(white@));
    }
}

impl GameState {
    /// Draws the position: Black's row reversed on top, both scores and
    /// the status label in the middle, White's row on the bottom.
    pub fn render(&self) -> (r: String)
        requires
            self.white.pits@.len() == 6,
            self.black.pits@.len() == 6,
        ensures
            r@ == render_spec(self@),
    {
        let mut s = String::new();
        append_top_row(&mut s, &self.black);
        append_mid_row(&mut s, self.mode, self.black.score, self.white.score);
        append_bottom_row(&mut s, &self.white);
        proof {
            assert(s@ =~= render_spec(self@));
        }
        s
    }
}

} // verus!
