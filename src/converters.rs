use crate::concurrent;
use crate::dominoes;
use crate::dominoes::{Content, Piece};
use crate::game;
use crate::game::Domino;
use vstd::prelude::*;

verus! {

/// The wire code of the left end.
pub const LEFT: i32 = 0;

/// The wire code of the right end.
pub const RIGHT: i32 = 1;

pub open spec fn piece_of(d: Domino) -> Piece {
    Piece { up: d.0, down: d.1 }
}

pub open spec fn pieces_of(hand: Seq<Domino>) -> Seq<Piece> {
    hand.map_values(|d: Domino| piece_of(d))
}

/// The wire message announcing tile `d` placed at the end coded `position`.
pub open spec fn update_message(d: Domino, position: i32) -> dominoes::Message {
    dominoes::Message {
        content: Some(
            Content::Update(dominoes::Update { piece: Some(piece_of(d)), position, turn: 0 }),
        ),
    }
}

fn to_init_msg(pieces: &Vec<Domino>, number: usize) -> (r: dominoes::Message)
    ensures
        r.content matches Some(Content::Init(init)) && init.hand@ == pieces_of(pieces@)
            && init.number == number as i32,
{
    let mut hand: Vec<Piece> = Vec::new();
    let mut i: usize = 0;
    while i < pieces.len()
        invariant
            i <= pieces@.len(),
            hand@ == pieces_of(pieces@.subrange(0, i as int)),
        decreases pieces@.len() - i,
    {
        let d = pieces[i];
        hand.push(Piece { up: d.0, down: d.1 });
        assert(hand@ =~= pieces_of(pieces@.subrange(0, i + 1)));
        i = i + 1;
    }
    assert(pieces@.subrange(0, pieces@.len() as int) == pieces@);
    dominoes::Message {
        content: Some(Content::Init(dominoes::Init { hand, number: number as i32 })),
    }
}

fn to_update_msg(domino: &Domino, position: i32) -> (r: dominoes::Message)
    ensures
        r == update_message(*domino, position),
{
    dominoes::Message {
        content: Some(
            Content::Update(
                dominoes::Update {
                    piece: Some(Piece { up: domino.0, down: domino.1 }),
                    position,
                    turn: 0,
                },
            ),
        ),
    }
}

/// The wire form of a message for a player.
pub fn to_proto(msg: &concurrent::Message) -> (r: dominoes::Message)
    ensures
        match *msg {
            concurrent::Message::Init(pieces, number) => r.content matches Some(
                Content::Init(init),
            ) && init.hand@ == pieces_of(pieces@) && init.number == number as i32,
            concurrent::Message::YourTurn => r == (dominoes::Message {
                content: Some(Content::YouTurn(dominoes::YourTurn {  })),
            }),
            concurrent::Message::Update(game::Update::Left(d)) => r == update_message(d, LEFT),
            concurrent::Message::Update(game::Update::Right(d)) => r == update_message(d, RIGHT),
            concurrent::Message::Update(game::Update::Skip) => r == (dominoes::Message {
                content: Some(Content::Skip(dominoes::Skip {  })),
            }),
        },
{
    match msg {
        concurrent::Message::Init(pieces, number) => to_init_msg(pieces, *number),
        concurrent::Message::YourTurn => dominoes::Message {
            content: Some(Content::YouTurn(dominoes::YourTurn {  })),
        },
        concurrent::Message::Update(game::Update::Left(domino)) => to_update_msg(domino, LEFT),
        concurrent::Message::Update(game::Update::Right(domino)) => to_update_msg(domino, RIGHT),
        concurrent::Message::Update(game::Update::Skip) => dominoes::Message {
            content: Some(Content::Skip(dominoes::Skip {  })),
        },
    }
}

/// The wire message carrying move `m`.
pub open spec fn move_message(m: game::Move) -> dominoes::Message {
    dominoes::Message {
        content: Some(
            Content::Move(
                dominoes::Move {
                    side: if m is Left { LEFT } else { RIGHT },
                    piece_position: m.position() as i32,
                    player_number: m.seat() as i32,
                },
            ),
        ),
    }
}

/// The wire form of a move.
pub fn move_to_proto(move_: &game::Move) -> (r: dominoes::Message)
    ensures
        r == move_message(*move_),
{
    let (side, player_number, piece_position) = match move_ {
        game::Move::Left(player, piece) => (LEFT, *player as i32, *piece as i32),
        game::Move::Right(player, piece) => (RIGHT, *player as i32, *piece as i32),
    };
    dominoes::Message {
        content: Some(Content::Move(dominoes::Move { side, piece_position, player_number })),
    }
}

/// The wire message for a move typed as a line of text in the two-word form, for the
/// given seat; `None` when the line is no such move.
pub fn line_to_proto(line: &str, player: usize) -> (r: Option<dominoes::Message>)
    ensures
        match game::Move::spec_parse_move(line@, player) {
            Some(m) => r == Some(move_message(m)),
            None => r is None,
        },
{
    match game::Move::parse_move(line, player) {
        Some(move_) => Some(move_to_proto(&move_)),
        None => None,
    }
}

/// The move that a wire message carries, if it carries one; any side code but the left's
/// means the right end.
pub fn to_move(msg: &dominoes::Message) -> (r: Option<game::Move>)
    ensures
        match msg.content {
            Some(Content::Move(m)) => r == Some(
                game::Move::on_side(
                    m.side == LEFT,
                    m.player_number as usize,
                    m.piece_position as usize,
                ),
            ),
            _ => r is None,
        },
{
    if let Some(Content::Move(move_)) = &msg.content {
        let player_pos = move_.player_number as usize;
        let piece_num = move_.piece_position as usize;
        return if move_.side == LEFT {
            Some(game::Move::Left(player_pos, piece_num))
        } else {
            Some(game::Move::Right(player_pos, piece_num))
        };
    }
    None
}

} // verus!
