use vstd::prelude::*;
use crate::{GameError, Owner};
use crate::board::{board_full, column_full, grid_set, is_landing_row, rectangular, Board};
use crate::win::{check_winner, has_win, lemma_detector_exact, spec_winner};
use vstd::arithmetic::div_mod::{
    lemma_fundamental_div_mod, lemma_fundamental_div_mod_converse_mod, lemma_small_mod,
};

verus! {

/// One abstract input command per engine iteration. `Ignored` covers any
/// raw input event with no game meaning; it causes no state transition.
#[derive(Clone, Copy, Debug, PartialEq, Eq, Structural)]
pub enum Command {
    MoveLeft,
    MoveRight,
    Drop,
    Quit,
    Ignored,
}

/// What the engine tells its caller after a command: keep pulling input, or
/// tear down and exit. Quitting propagates here instead of exiting the
/// process from inside the engine.
#[derive(Clone, Copy, Debug, PartialEq, Eq, Structural)]
pub enum Signal {
    Continue,
    Quit,
}

/// The status line shown when a drop hits a full column.
pub open spec fn column_full_notice() -> Seq<char> {
    "This column is full. Try again."@
}

/// One completed turn moves the roster position forward by one, wrapping
/// at the roster's end.
pub open spec fn next_turn_index(i: int, k: int) -> int {
    if i + 1 == k {
        0
    } else {
        i + 1
    }
}

/// The roster position reached after `n` completed turns starting from
/// position `start`, with `k` players.
pub open spec fn index_after_turns(start: int, k: int, n: nat) -> int
    decreases n,
{
    if n == 0 {
        start
    } else {
        next_turn_index(index_after_turns(start, k, (n - 1) as nat), k)
    }
}

/// Law: player rotation is a fixed cyclic permutation. After `n` completed
/// turns with `k` players, the roster position — and with it the current
/// player — is the one `n` places past the starting position, modulo `k`.
pub proof fn lemma_player_rotation(start: int, k: int, n: nat)
    requires
        1 <= k,
        0 <= start < k,
    ensures
        index_after_turns(start, k, n) == (start + n) % k,
        0 <= index_after_turns(start, k, n) < k,
    decreases n,
{
    if n == 0 {
        lemma_small_mod(start as nat, k as nat);
    } else {
        lemma_player_rotation(start, k, (n - 1) as nat);
        let prev = index_after_turns(start, k, (n - 1) as nat);
        let a = start + n - 1;
        lemma_fundamental_div_mod(a, k);
        if prev + 1 == k {
            assert(a + 1 == (a / k + 1) * k + 0) by (nonlinear_arith)
                requires
                    a == k * (a / k) + prev,
                    prev + 1 == k,
            ;
            lemma_fundamental_div_mod_converse_mod(a + 1, k, a / k + 1, 0);
        } else {
            assert(a + 1 == (a / k) * k + (prev + 1)) by (nonlinear_arith)
                requires
                    a == k * (a / k) + prev,
            ;
            lemma_fundamental_div_mod_converse_mod(a + 1, k, a / k, prev + 1);
        }
    }
}

/// The whole engine state is as it was: commands with no effect.
pub open spec fn engine_unchanged(pre: TurnEngine, post: TurnEngine) -> bool {
    &&& post.board == pre.board
    &&& post.roster == pre.roster
    &&& post.turn_index == pre.turn_index
    &&& post.selection_column == pre.selection_column
    &&& post.winner == pre.winner
    &&& post.over == pre.over
    &&& post.status@ == pre.status@
}

/// The selection cursor sits at `sel` and everything else is as it was:
/// the effect of a cursor move.
pub open spec fn cursor_moved(pre: TurnEngine, post: TurnEngine, sel: int) -> bool {
    &&& post.selection_column == sel
    &&& post.board == pre.board
    &&& post.roster == pre.roster
    &&& post.turn_index == pre.turn_index
    &&& post.winner == pre.winner
    &&& post.over == pre.over
    &&& post.status@ == pre.status@
}

/// The effect of a successful drop that landed on row `row`: the current
/// player's marker fills the landing cell of the selected column, the
/// status line is cleared, and then either the detector finds a winner
/// (game over with that winner), the board is full (game over with no
/// winner: a draw), or the turn completes and the roster position advances
/// by one.
pub open spec fn placed_outcome(pre: TurnEngine, post: TurnEngine, row: int) -> bool {
    let col = pre.selection_column as int;
    let mover = pre.roster[pre.turn_index as int];
    let g2 = grid_set(pre.board@, row, col, mover);
    &&& is_landing_row(pre.board@, col, row)
    &&& post.board@ == g2
    &&& post.board.width == pre.board.width
    &&& post.board.height == pre.board.height
    &&& post.roster == pre.roster
    &&& post.selection_column == pre.selection_column
    &&& post.status@ == Seq::<char>::empty()
    &&& match spec_winner(g2) {
        Some(o) => post.winner == o && post.over && post.turn_index == pre.turn_index,
        None => {
            &&& post.winner == Owner::Empty
            &&& if board_full(g2) {
                post.over && post.turn_index == pre.turn_index
            } else {
                &&& !post.over
                &&& post.turn_index == next_turn_index(
                    pre.turn_index as int,
                    pre.roster.len() as int,
                )
            }
        },
    }
}

/// The effect of a `Drop` command: a full column changes nothing but the
/// status line; otherwise the marker lands on the column's landing row and
/// `placed_outcome` describes the rest.
pub open spec fn drop_effect(pre: TurnEngine, post: TurnEngine) -> bool {
    if column_full(pre.board@, pre.selection_column as int) {
        &&& post.board@ == pre.board@
        &&& post.board.width == pre.board.width
        &&& post.board.height == pre.board.height
        &&& post.roster == pre.roster
        &&& post.turn_index == pre.turn_index
        &&& post.selection_column == pre.selection_column
        &&& post.winner == pre.winner
        &&& post.over == pre.over
        &&& post.status@ == column_full_notice()
    } else {
        exists|row: int| #[trigger] placed_outcome(pre, post, row)
    }
}

/// Turn order, current-player tracking, the selection cursor, and the
/// per-turn input state machine, composed over a `Board` and the win
/// detector. The caller pulls one command at a time from its input source
/// and hands it to `accept_input`; the engine owns no rendering or polling.
pub struct TurnEngine {
    pub board: Board,
    /// The fixed, circular roster of players; never empty, never `Empty`.
    pub roster: Vec<Owner>,
    /// Position of the current player in the roster.
    pub turn_index: usize,
    /// The column the next drop goes into; always within the board.
    pub selection_column: usize,
    /// `Empty` until a winner is decided.
    pub winner: Owner,
    /// True once the game has ended, by a win or by a draw.
    pub over: bool,
    /// Free-form feedback for the user, e.g. the full-column notice.
    pub status: String,
}

impl TurnEngine {
    /// The engine's invariant: the board is well formed, the roster is a
    /// non-empty list of real players, the cursor and roster position are
    /// in range, a decided winner really holds a four-in-a-row and ends the
    /// game, a game over without a winner is a draw on a full board, and a
    /// full board without a winner has ended the game.
    pub open spec fn wf(&self) -> bool {
        &&& self.board.wf()
        &&& self.roster.len() >= 1
        &&& forall|i: int| 0 <= i < self.roster.len() ==> self.roster[i] != Owner::Empty
        &&& self.turn_index < self.roster.len()
        &&& self.selection_column < self.board.width
        &&& (self.winner != Owner::Empty ==> self.over && has_win(self.board@, self.winner))
        &&& (self.over && self.winner == Owner::Empty ==> board_full(self.board@))
        &&& (board_full(self.board@) && self.winner == Owner::Empty ==> self.over)
    }

    /// The player whose turn it is.
    pub open spec fn spec_current_player(&self) -> Owner {
        self.roster[self.turn_index as int]
    }

    /// A fresh game on an empty `width` x `height` board, the given players
    /// taking turns in roster order, the cursor on column 0. Zero
    /// dimensions are rejected first, then a roster that is empty or
    /// contains the `Empty` sentinel.
    pub fn new(width: usize, height: usize, roster: Vec<Owner>) -> (r: Result<
        TurnEngine,
        GameError,
    >)
        requires
            width * height <= usize::MAX,
        ensures
            match r {
                Ok(e) => {
                    &&& e.wf()
                    &&& e.board.width == width
                    &&& e.board.height == height
                    &&& forall|rr: int, cc: int|
                        0 <= rr < height && 0 <= cc < width ==> #[trigger] e.board@[rr][cc]
                            == Owner::Empty
                    &&& e.roster == roster
                    &&& e.turn_index == 0
                    &&& e.selection_column == 0
                    &&& e.winner == Owner::Empty
                    &&& !e.over
                    &&& e.status@ == Seq::<char>::empty()
                },
                Err(e) => match e {
                    GameError::InvalidDimensions => width == 0 || height == 0,
                    GameError::InvalidRoster => {
                        &&& width >= 1 && height >= 1
                        &&& roster.len() == 0 || exists|i: int|
                            0 <= i < roster.len() && roster[i] == Owner::Empty
                    },
                    _ => false,
                },
            },
    {
        let board = match Board::new(width, height) {
            Ok(b) => b,
            Err(e) => {
                return Err(e);
            },
        };
        if roster.len() == 0 {
            return Err(GameError::InvalidRoster);
        }
        let mut i: usize = 0;
        while i < roster.len()
            invariant
                width >= 1,
                height >= 1,
                i <= roster.len(),
                forall|j: int| 0 <= j < i ==> roster[j] != Owner::Empty,
            decreases roster.len() - i,
        {
            if matches!(roster[i], Owner::Empty) {
                return Err(GameError::InvalidRoster);
            }
            i = i + 1;
        }
        proof {
            assert(board@[0][0] == Owner::Empty);
            assert(!board_full(board@));
        }
        Ok(
            TurnEngine {
                board,
                roster,
                turn_index: 0,
                selection_column: 0,
                winner: Owner::Empty,
                over: false,
                status: String::new(),
            },
        )
    }

    /// The standard game: a 7x6 board, two players, first player to move.
    pub fn new_standard() -> (r: TurnEngine)
        ensures
            r.wf(),
            r.board.width == 7,
            r.board.height == 6,
            forall|rr: int, cc: int|
                0 <= rr < 6 && 0 <= cc < 7 ==> #[trigger] r.board@[rr][cc] == Owner::Empty,
            r.roster@.len() == 2,
            r.roster@[0] == Owner::PlayerOne,
            r.roster@[1] == Owner::PlayerTwo,
            r.turn_index == 0,
            r.selection_column == 0,
            r.winner == Owner::Empty,
            !r.over,
            r.status@ == Seq::<char>::empty(),
    {
        let mut roster: Vec<Owner> = Vec::new();
        roster.push(Owner::PlayerOne);
        roster.push(Owner::PlayerTwo);
        match Self::new(7, 6, roster) {
            Ok(e) => e,
            Err(_) => {
                proof {
                    assert(false);
                }
                unreached()
            },
        }
    }

    /// Gravity drop of the current player's marker into the selected
    /// column: the `Drop` transition of the state machine. A full column is
    /// an expected game condition, reported on the status line with no
    /// other change; a successful drop fills the landing cell, then ends
    /// the game (win or draw) or completes the turn and rotates to the next
    /// player.
    pub fn drop_puck(&mut self)
        requires
            old(self).wf(),
            !old(self).over,
        ensures
            final(self).wf(),
            drop_effect(*old(self), *final(self)),
    {
        let col = self.selection_column;
        let mover = self.roster[self.turn_index];
        match self.board.place(col, mover) {
            Err(_) => {
                self.status = String::from_str("This column is full. Try again.");
            },
            Ok(row) => {
                self.status = String::new();
                match check_winner(&self.board) {
                    Some(o) => {
                        self.winner = o;
                        self.over = true;
                    },
                    None => {
                        if self.board.is_full() {
                            self.over = true;
                        } else {
                            self.turn_index = if self.turn_index + 1 == self.roster.len() {
                                0
                            } else {
                                self.turn_index + 1
                            };
                        }
                    },
                }
                proof {
                    assert(rectangular(self.board@));
                    lemma_detector_exact(self.board@);
                    assert(old(self).board@[row as int][col as int] == Owner::Empty);
                    assert(!column_full(old(self).board@, col as int));
                    assert(placed_outcome(*old(self), *self, row as int));
                }
            },
        }
    }

    /// Apply one abstract input command: the engine's state machine.
    /// Cursor moves saturate at the board's edges, `Drop` behaves as
    /// `drop_puck`, `Quit` asks the caller to terminate without touching
    /// the game, and `Ignored` does nothing.
    pub fn accept_input(&mut self, cmd: Command) -> (r: Signal)
        requires
            old(self).wf(),
            !old(self).over,
        ensures
            final(self).wf(),
            r == (if cmd == Command::Quit {
                Signal::Quit
            } else {
                Signal::Continue
            }),
            match cmd {
                Command::MoveLeft => cursor_moved(
                    *old(self),
                    *final(self),
                    if old(self).selection_column > 0 {
                        old(self).selection_column - 1
                    } else {
                        0
                    },
                ),
                Command::MoveRight => cursor_moved(
                    *old(self),
                    *final(self),
                    if old(self).selection_column + 1 < old(self).board.width {
                        old(self).selection_column + 1
                    } else {
                        old(self).selection_column as int
                    },
                ),
                Command::Drop => drop_effect(*old(self), *final(self)),
                Command::Quit => engine_unchanged(*old(self), *final(self)),
                Command::Ignored => engine_unchanged(*old(self), *final(self)),
            },
    {
        match cmd {
            Command::MoveLeft => {
                if self.selection_column > 0 {
                    self.selection_column = self.selection_column - 1;
                }
                Signal::Continue
            },
            Command::MoveRight => {
                if self.selection_column + 1 < self.board.width {
                    self.selection_column = self.selection_column + 1;
                }
                Signal::Continue
            },
            Command::Drop => {
                self.drop_puck();
                Signal::Continue
            },
            Command::Quit => Signal::Quit,
            Command::Ignored => Signal::Continue,
        }
    }

    /// True iff the game has ended, by a win or by a draw.
    pub fn is_game_over(&self) -> (r: bool)
        ensures
            r == self.over,
    {
        self.over
    }

    /// The decided winner, or `None` while the game is running — and also
    /// `None` once a full board without a winner has ended the game in a
    /// draw.
    pub fn who_wins(&self) -> (r: Option<Owner>)
        ensures
            r == (if self.winner == Owner::Empty {
                None::<Owner>
            } else {
                Some(self.winner)
            }),
    {
        if matches!(self.winner, Owner::Empty) {
            None
        } else {
            Some(self.winner)
        }
    }

    /// The player whose turn it is.
    pub fn current_player(&self) -> (r: Owner)
        requires
            self.wf(),
        ensures
            r == self.spec_current_player(),
    {
        self.roster[self.turn_index]
    }
}

/// Law: on a well-formed engine the game is over exactly when a winner was
/// decided, or the board is full with no winner — the draw the engine must
/// detect on its own, since the detector reports `None` there.
pub proof fn lemma_game_over_iff(e: TurnEngine)
    requires
        e.wf(),
    ensures
        e.over <==> (e.winner != Owner::Empty || board_full(e.board@)),
{
}

} // verus!
