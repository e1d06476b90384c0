use crate::game::{deal, Domino, Game, Move, Update, SEATS};
use vstd::prelude::*;

verus! {

/// What the match sends to a seat.
#[derive(Debug, PartialEq)]
pub enum Message {
    /// The seat's starting hand and its seat number.
    Init(Vec<Domino>, usize),
    /// The seat is to play now.
    YourTurn,
    /// Another seat's accepted move.
    Update(Update),
}

/// The seats in `0..n` other than `mover`, in increasing order.
pub open spec fn others(n: int, mover: int) -> Seq<usize> {
    Seq::new((n - 1) as nat, |k: int| if k < mover { k as usize } else { (k + 1) as usize })
}

/// The opening messages of a match: for each seat in play, its hand and its number.
pub fn init_messages(game: &Game) -> (r: Vec<Message>)
    requires
        game.wf(),
    ensures
        r@.len() == game.n_players,
        forall|i: int|
            0 <= i < r@.len() ==> (match #[trigger] r@[i] {
                Message::Init(hand, seat) => hand@ == game.hand(i) && seat == i,
                _ => false,
            }),
{
    let n = game.n_players as usize;
    let mut msgs: Vec<Message> = Vec::new();
    let mut i: usize = 0;
    while i < n
        invariant
            n == game.n_players,
            n <= SEATS,
            i <= n,
            msgs@.len() == i,
            forall|j: int|
                0 <= j < i ==> (match #[trigger] msgs@[j] {
                    Message::Init(hand, seat) => hand@ == game.hand(j) && seat == j,
                    _ => false,
                }),
        decreases n - i,
    {
        let len = game.players[i].len();
        let hand = deal(&game.players[i], 0, len);
        assert(game.hand(i as int).subrange(0, len as int) == game.hand(i as int));
        msgs.push(Message::Init(hand, i));
        i = i + 1;
    }
    msgs
}

/// One step of the match: the seat whose turn it is submitted `move_`.
/// If the move is accepted, returns the outcome and the seats that are to be told of it,
/// every seat in play but the mover; the turn passes on. If it is refused, returns `None`,
/// nothing changes, and the same seat is asked again.
pub fn take_turn(game: &mut Game, move_: &Move) -> (r: Option<(Update, Vec<usize>)>)
    requires
        old(game).wf(),
    ensures
        final(game).wf(),
        match old(game).placed(*move_) {
            Some(t) => {
                &&& r matches Some((u, to)) && u == old(game).update_for(*move_, t) && to@ == others(
                    old(game).n_players as int,
                    old(game).next as int,
                )
                &&& old(game).placed_into(*final(game), *move_, t)
                &&& final(game).next == (old(game).next + 1) % (old(game).n_players as int)
            },
            None => r is None && *final(game) == *old(game),
        },
{
    let mover = game.next as usize;
    let n = game.n_players as usize;
    match game.play(move_) {
        Ok(update) => {
            let mut to: Vec<usize> = Vec::new();
            let mut i: usize = 0;
            while i < n
                invariant
                    mover < n <= SEATS,
                    i <= n,
                    to@ == others(i as int + (if i <= mover { 1int } else { 0 }), mover as int),
                decreases n - i,
            {
                if i != mover {
                    to.push(i);
                }
                assert(to@ =~= others((i + 1) as int + (if i + 1 <= mover { 1int } else { 0 }), mover as int));
                i = i + 1;
            }
            Some((update, to))
        },
        Err(_) => None,
    }
}

/// Seat assignment for a match that is forming: arrivals take seats in order until all
/// are taken, and later arrivals are turned away.
pub struct Lobby {
    seats: usize,
    filled: usize,
}

impl Lobby {
    pub closed spec fn capacity(&self) -> nat {
        self.seats as nat
    }

    pub closed spec fn taken(&self) -> nat {
        self.filled as nat
    }

    pub open spec fn wf(&self) -> bool {
        self.taken() <= self.capacity()
    }

    pub fn new(seats: usize) -> (l: Lobby)
        ensures
            l.wf(),
            l.capacity() == seats,
            l.taken() == 0,
    {
        Lobby { seats, filled: 0 }
    }

    /// The seat given to the next arrival, or `None` when every seat is taken.
    pub fn register(&mut self) -> (r: Option<usize>)
        requires
            old(self).wf(),
        ensures
            final(self).wf(),
            final(self).capacity() == old(self).capacity(),
            old(self).taken() < old(self).capacity() ==> r == Some(old(self).taken() as usize)
                && final(self).taken() == old(self).taken() + 1,
            old(self).taken() == old(self).capacity() ==> r is None && final(self).taken()
                == old(self).taken(),
    {
        if self.filled < self.seats {
            let seat = self.filled;
            self.filled = self.filled + 1;
            Some(seat)
        } else {
            None
        }
    }

    pub fn is_full(&self) -> (r: bool)
        ensures
            r == (self.taken() == self.capacity()),
    {
        self.filled == self.seats
    }
}

} // verus!
