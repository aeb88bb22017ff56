use vstd::prelude::*;

pub mod board;
pub mod engine;
pub mod grid;
pub mod win;

verus! {

/// Identity occupying a board cell or holding a turn.
/// `Empty` is a sentinel: it marks an unoccupied cell and is never a
/// valid turn-holder.
#[derive(Clone, Copy, Debug, PartialEq, Eq, Structural)]
pub enum Owner {
    PlayerOne,
    PlayerTwo,
    Computer,
    Empty,
}

impl Owner {
    /// The display name of each identity.
    pub open spec fn spec_label(&self) -> Seq<char> {
        match self {
            Owner::PlayerOne => "Player 1"@,
            Owner::PlayerTwo => "Player 2"@,
            Owner::Computer => "Computer"@,
            Owner::Empty => "No one"@,
        }
    }

    /// The display name of this identity, for status lines and render
    /// snapshots.
    pub fn label(&self) -> (r: String)
        ensures
            r@ == self.spec_label(),
    {
        match self {
            Owner::PlayerOne => String::from_str("Player 1"),
            Owner::PlayerTwo => String::from_str("Player 2"),
            Owner::Computer => String::from_str("Computer"),
            Owner::Empty => String::from_str("No one"),
        }
    }
}

/// How an engine or board operation can fail. All variants but `ColumnFull`
/// are contract violations (caller bugs); `ColumnFull` is the one expected
/// game condition reported through a `Result`.
#[derive(Clone, Copy, Debug, PartialEq, Eq, Structural)]
pub enum GameError {
    /// A board was requested with a zero width or height.
    InvalidDimensions,
    /// A column index at or beyond the board's width.
    InvalidColumn,
    /// A cell coordinate outside the grid.
    OutOfBounds,
    /// The `Empty` sentinel was offered as a marker to place.
    InvalidOwner,
    /// A turn roster that is empty or contains the `Empty` sentinel.
    InvalidRoster,
    /// The chosen column has no empty cell left.
    ColumnFull,
}

} // verus!
