use vstd::prelude::*;

verus! {

/// A tile on the wire.
#[derive(Debug, Clone, Copy, PartialEq, Eq, Structural)]
pub struct Piece {
    pub up: i32,
    pub down: i32,
}

/// A seat's starting hand and number.
#[derive(Debug, PartialEq)]
pub struct Init {
    pub hand: Vec<Piece>,
    pub number: i32,
}

/// The seat is to play.
#[derive(Debug, Clone, Copy, PartialEq, Eq, Structural)]
pub struct YourTurn {}

/// A seat passed.
#[derive(Debug, Clone, Copy, PartialEq, Eq, Structural)]
pub struct Skip {}

/// A tile placed on one end of the board.
#[derive(Debug, Clone, Copy, PartialEq, Eq, Structural)]
pub struct Update {
    pub piece: Option<Piece>,
    pub position: i32,
    pub turn: i32,
}

/// A move sent by a player.
#[derive(Debug, Clone, Copy, PartialEq, Eq, Structural)]
pub struct Move {
    pub side: i32,
    pub piece_position: i32,
    pub player_number: i32,
}

/// The payload of a message.
#[derive(Debug, PartialEq)]
pub enum Content {
    Init(Init),
    YouTurn(YourTurn),
    Update(Update),
    Skip(Skip),
    Move(Move),
}

/// One message of the streaming transport, in either direction.
#[derive(Debug, PartialEq)]
pub struct Message {
    pub content: Option<Content>,
}

} // verus!
