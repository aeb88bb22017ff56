use connect_four::board::Board;
use connect_four::engine::{Command, Signal, TurnEngine};
use connect_four::win::check_winner;
use connect_four::{GameError, Owner};

fn standard_board() -> Board {
    Board::new(7, 6).expect("7x6 board")
}

#[test]
fn new_board_is_empty() {
    let b = standard_board();
    for row in 0..6 {
        for col in 0..7 {
            assert_eq!(b.cell(row, col), Ok(Owner::Empty));
        }
    }
    assert!(!b.is_full());
    assert_eq!(check_winner(&b), None);
}

#[test]
fn zero_dimensions_rejected() {
    assert_eq!(Board::new(0, 6).err().unwrap(), GameError::InvalidDimensions);
    assert_eq!(Board::new(7, 0).err().unwrap(), GameError::InvalidDimensions);
    assert_eq!(Board::new(0, 0).err().unwrap(), GameError::InvalidDimensions);
}

#[test]
fn out_of_range_column_rejected() {
    let mut b = standard_board();
    assert_eq!(b.landing_row(7), Err(GameError::InvalidColumn));
    assert_eq!(b.place(9, Owner::PlayerOne), Err(GameError::InvalidColumn));
}

#[test]
fn out_of_bounds_cell_rejected() {
    let b = standard_board();
    assert_eq!(b.cell(6, 0), Err(GameError::OutOfBounds));
    assert_eq!(b.cell(0, 7), Err(GameError::OutOfBounds));
}

#[test]
fn empty_sentinel_cannot_be_placed() {
    let mut b = standard_board();
    assert_eq!(b.place(3, Owner::Empty), Err(GameError::InvalidOwner));
    assert_eq!(b.cell(5, 3), Ok(Owner::Empty));
}

// Scenario: on an empty 7x6 board a marker dropped into column 3 lands on
// row 5, the bottom row.
#[test]
fn first_drop_lands_on_bottom_row() {
    let mut b = standard_board();
    assert_eq!(b.landing_row(3), Ok(5));
    assert_eq!(b.place(3, Owner::PlayerOne), Ok(5));
    assert_eq!(b.cell(5, 3), Ok(Owner::PlayerOne));
    assert_eq!(b.cell(4, 3), Ok(Owner::Empty));
}

// Gravity: each successful placement strictly lowers the column's landing
// row (numerically: the landing row index strictly decreases) until the
// column is full.
#[test]
fn landing_row_strictly_decreases() {
    let mut b = standard_board();
    let mut last: usize = 6;
    for turn in 0..6 {
        let owner = if turn % 2 == 0 { Owner::PlayerOne } else { Owner::PlayerTwo };
        let row = b.place(2, owner).expect("column not yet full");
        assert!(row < last);
        last = row;
    }
    assert_eq!(b.landing_row(2), Err(GameError::ColumnFull));
}

// Scenario: column 3 filled bottom-to-top with alternating owners six
// times; the seventh drop fails with ColumnFull and mutates nothing.
#[test]
fn seventh_drop_into_full_column_fails() {
    let mut b = standard_board();
    for turn in 0..6 {
        let owner = if turn % 2 == 0 { Owner::PlayerOne } else { Owner::PlayerTwo };
        assert_eq!(b.place(3, owner), Ok(5 - turn));
    }
    let before: Vec<Owner> = (0..6).map(|r| b.cell(r, 3).unwrap()).collect();
    assert_eq!(b.place(3, Owner::PlayerOne), Err(GameError::ColumnFull));
    let after: Vec<Owner> = (0..6).map(|r| b.cell(r, 3).unwrap()).collect();
    assert_eq!(before, after);
}

// Scenario: cells (5,0), (5,1), (5,2), (5,3) all PlayerOne: a row win.
#[test]
fn four_in_a_row_horizontal() {
    let mut b = standard_board();
    for col in 0..3 {
        assert_eq!(b.place(col, Owner::PlayerOne), Ok(5));
        // fewer than four in a line is never reported as a win
        assert_eq!(check_winner(&b), None);
    }
    assert_eq!(b.place(3, Owner::PlayerOne), Ok(5));
    assert_eq!(check_winner(&b), Some(Owner::PlayerOne));
}

#[test]
fn four_in_a_row_vertical() {
    let mut b = standard_board();
    for _ in 0..3 {
        b.place(4, Owner::PlayerTwo).unwrap();
        assert_eq!(check_winner(&b), None);
    }
    b.place(4, Owner::PlayerTwo).unwrap();
    assert_eq!(check_winner(&b), Some(Owner::PlayerTwo));
}

#[test]
fn four_in_a_row_down_right_diagonal() {
    let mut b = standard_board();
    // PlayerOne on (2,0), (3,1), (4,2), (5,3); PlayerTwo fills below.
    b.place(3, Owner::PlayerOne).unwrap();
    b.place(2, Owner::PlayerTwo).unwrap();
    b.place(2, Owner::PlayerOne).unwrap();
    b.place(1, Owner::PlayerTwo).unwrap();
    b.place(1, Owner::PlayerTwo).unwrap();
    b.place(1, Owner::PlayerOne).unwrap();
    b.place(0, Owner::PlayerTwo).unwrap();
    b.place(0, Owner::PlayerTwo).unwrap();
    b.place(0, Owner::PlayerTwo).unwrap();
    assert_eq!(check_winner(&b), None);
    b.place(0, Owner::PlayerOne).unwrap();
    assert_eq!(check_winner(&b), Some(Owner::PlayerOne));
}

// Scenario: the diagonal (5,0), (4,1), (3,2), (2,3) all PlayerTwo: a win
// found by the down-left diagonal family.
#[test]
fn four_in_a_row_down_left_diagonal() {
    let mut b = standard_board();
    assert_eq!(b.place(0, Owner::PlayerTwo), Ok(5));
    b.place(1, Owner::PlayerOne).unwrap();
    assert_eq!(b.place(1, Owner::PlayerTwo), Ok(4));
    b.place(2, Owner::PlayerOne).unwrap();
    b.place(2, Owner::PlayerOne).unwrap();
    assert_eq!(b.place(2, Owner::PlayerTwo), Ok(3));
    b.place(3, Owner::PlayerOne).unwrap();
    b.place(3, Owner::PlayerOne).unwrap();
    b.place(3, Owner::PlayerOne).unwrap();
    assert_eq!(check_winner(&b), None);
    assert_eq!(b.place(3, Owner::PlayerTwo), Ok(2));
    assert_eq!(check_winner(&b), Some(Owner::PlayerTwo));
}

// Scenario: a full board with no four-in-a-row anywhere is a draw: the
// detector returns None while the board reports full.
#[test]
fn full_board_without_winner_is_a_draw() {
    let mut b = standard_board();
    // Column patterns bottom-to-top; columns 2 and 5 are phase-shifted so
    // that no row, column or diagonal ever aligns four.
    let one = Owner::PlayerOne;
    let two = Owner::PlayerTwo;
    for col in 0..7 {
        let first = if col == 2 || col == 5 { two } else { one };
        let second = if col == 2 || col == 5 { one } else { two };
        for level in 0..6 {
            let owner = if level % 2 == 0 { first } else { second };
            b.place(col, owner).unwrap();
        }
    }
    assert!(b.is_full());
    assert_eq!(check_winner(&b), None);
}

// Scan order decides between simultaneous four-in-a-rows: the row family
// is consulted before the column family, and rows are walked top to
// bottom. (Such boards cannot arise through the engine, which stops at the
// first win, but the board API allows building them.)
#[test]
fn scan_order_decides_between_simultaneous_wins() {
    // PlayerTwo's four on the bottom row, PlayerOne's four in column 0:
    // the row family is scanned first, so PlayerTwo wins the tie.
    let mut b = standard_board();
    for _ in 0..4 {
        b.place(0, Owner::PlayerOne).unwrap();
    }
    for col in 1..5 {
        b.place(col, Owner::PlayerTwo).unwrap();
    }
    assert_eq!(check_winner(&b), Some(Owner::PlayerTwo));

    // Two row fours: PlayerOne's on row 5, PlayerTwo's stacked on row 4.
    // Rows are walked from the top, so the upper one is found first.
    let mut b2 = standard_board();
    for col in 0..4 {
        b2.place(col, Owner::PlayerOne).unwrap();
        b2.place(col, Owner::PlayerTwo).unwrap();
    }
    assert_eq!(check_winner(&b2), Some(Owner::PlayerTwo));
}

#[test]
fn owners_carry_display_labels() {
    assert_eq!(Owner::PlayerOne.label(), "Player 1");
    assert_eq!(Owner::PlayerTwo.label(), "Player 2");
    assert_eq!(Owner::Computer.label(), "Computer");
    assert_eq!(Owner::Empty.label(), "No one");
}

// Idempotence: the detector's verdict on an unchanged board never varies.
#[test]
fn detector_is_idempotent() {
    let mut b = standard_board();
    assert_eq!(check_winner(&b), check_winner(&b));
    for col in 0..4 {
        b.place(col, Owner::PlayerOne).unwrap();
    }
    assert_eq!(check_winner(&b), Some(Owner::PlayerOne));
    assert_eq!(check_winner(&b), Some(Owner::PlayerOne));
}

#[test]
fn engine_rejects_bad_setup() {
    assert_eq!(
        TurnEngine::new(0, 6, vec![Owner::PlayerOne]).err().unwrap(),
        GameError::InvalidDimensions
    );
    assert_eq!(TurnEngine::new(7, 6, vec![]).err().unwrap(), GameError::InvalidRoster);
    assert_eq!(
        TurnEngine::new(7, 6, vec![Owner::PlayerOne, Owner::Empty]).err().unwrap(),
        GameError::InvalidRoster
    );
}

#[test]
fn cursor_saturates_at_board_edges() {
    let mut e = TurnEngine::new_standard();
    assert_eq!(e.selection_column, 0);
    assert_eq!(e.accept_input(Command::MoveLeft), Signal::Continue);
    assert_eq!(e.selection_column, 0);
    for _ in 0..10 {
        e.accept_input(Command::MoveRight);
    }
    assert_eq!(e.selection_column, 6);
    e.accept_input(Command::MoveLeft);
    assert_eq!(e.selection_column, 5);
}

#[test]
fn quit_and_ignored_leave_the_game_alone() {
    let mut e = TurnEngine::new_standard();
    e.accept_input(Command::MoveRight);
    let sel = e.selection_column;
    let player = e.current_player();
    assert_eq!(e.accept_input(Command::Ignored), Signal::Continue);
    assert_eq!(e.accept_input(Command::Quit), Signal::Quit);
    assert_eq!(e.selection_column, sel);
    assert_eq!(e.current_player(), player);
    assert!(!e.is_game_over());
    assert_eq!(e.board.cell(5, sel), Ok(Owner::Empty));
}

// Player rotation: after N completed turns with k players the current
// player is the one at position N mod k of the original roster.
#[test]
fn rotation_cycles_through_the_roster() {
    let roster = vec![Owner::PlayerOne, Owner::PlayerTwo, Owner::Computer];
    let mut e = TurnEngine::new(7, 6, roster.clone()).unwrap();
    assert_eq!(e.current_player(), Owner::PlayerOne);
    for n in 1..=7 {
        e.accept_input(Command::Drop);
        e.accept_input(Command::MoveRight);
        assert_eq!(e.current_player(), roster[n % 3]);
    }
}

#[test]
fn full_column_sets_the_notice_and_changes_nothing_else() {
    let mut e = TurnEngine::new_standard();
    for _ in 0..6 {
        e.accept_input(Command::Drop);
    }
    let player = e.current_player();
    assert_eq!(e.accept_input(Command::Drop), Signal::Continue);
    assert_eq!(e.status.as_str(), "This column is full. Try again.");
    assert_eq!(e.current_player(), player);
    assert!(!e.is_game_over());
    assert_eq!(e.board.cell(0, 0), Ok(Owner::PlayerTwo));
}

#[test]
fn winning_drop_ends_the_game() {
    let mut e = TurnEngine::new_standard();
    // PlayerOne builds the bottom row left to right; PlayerTwo stacks on
    // top of each PlayerOne marker, one column behind.
    for _ in 0..3 {
        e.accept_input(Command::Drop);  // PlayerOne, bottom
        e.accept_input(Command::Drop);  // PlayerTwo, on top
        e.accept_input(Command::MoveRight);
        assert!(!e.is_game_over());
        assert_eq!(e.who_wins(), None);
    }
    e.accept_input(Command::Drop);  // PlayerOne completes row 5, columns 0..=3
    assert!(e.is_game_over());
    assert_eq!(e.who_wins(), Some(Owner::PlayerOne));
    // the winning turn does not rotate: the winner is still current
    assert_eq!(e.current_player(), Owner::PlayerOne);
}

// Engine-level draw: a board too small for any four-in-a-row fills up and
// the game ends with no winner.
#[test]
fn filling_the_board_without_a_win_ends_in_a_draw() {
    let mut e = TurnEngine::new(2, 2, vec![Owner::PlayerOne, Owner::PlayerTwo]).unwrap();
    e.accept_input(Command::Drop);
    e.accept_input(Command::MoveRight);
    e.accept_input(Command::Drop);
    e.accept_input(Command::MoveLeft);
    e.accept_input(Command::Drop);
    assert!(!e.is_game_over());
    e.accept_input(Command::MoveRight);
    e.accept_input(Command::Drop);
    assert!(e.is_game_over());
    assert_eq!(e.who_wins(), None);
    assert!(e.board.is_full());
}

#[test]
fn who_wins_reports_nothing_while_running() {
    let mut e = TurnEngine::new_standard();
    assert_eq!(e.who_wins(), None);
    assert!(!e.is_game_over());
    e.accept_input(Command::Drop);
    assert_eq!(e.who_wins(), None);
}

#[test]
fn successful_drop_clears_the_status_line() {
    let mut e = TurnEngine::new_standard();
    for _ in 0..6 {
        e.accept_input(Command::Drop);
    }
    e.accept_input(Command::Drop);
    assert_eq!(e.status.as_str(), "This column is full. Try again.");
    e.accept_input(Command::MoveRight);
    assert_eq!(e.status.as_str(), "This column is full. Try again.");
    e.accept_input(Command::Drop);
    assert_eq!(e.status.as_str(), "");
    assert_eq!(e.selection_column, 1);
}
