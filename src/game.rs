use crate::text::{decimal, parse_decimal, split_words, word_views, words};
use rand::seq::SliceRandom;
use vstd::prelude::*;

verus! {

/// A domino tile: two pip values, left and right.
#[derive(Debug, Clone, Copy, PartialEq, Eq, Structural)]
pub struct Domino(pub i32, pub i32);

impl Domino {
    /// The same tile with its two sides swapped.
    pub open spec fn reversed(self) -> Domino {
        Domino(self.1, self.0)
    }

    /// The tile oriented for the right end of a board whose right open value is `n`.
    pub open spec fn spec_match_right(self, n: i32) -> Option<Domino> {
        if self.0 == n {
            Some(self)
        } else if self.1 == n {
            Some(self.reversed())
        } else {
            None
        }
    }

    /// The tile oriented for the left end of a board whose left open value is `n`.
    pub open spec fn spec_match_left(self, n: i32) -> Option<Domino> {
        if self.0 == n {
            Some(self.reversed())
        } else if self.1 == n {
            Some(self)
        } else {
            None
        }
    }

    pub fn match_right(&self, number: i32) -> (r: Option<Domino>)
        ensures
            r == self.spec_match_right(number),
    {
        if self.0 == number {
            Some(*self)
        } else if self.1 == number {
            Some(self.reverse())
        } else {
            None
        }
    }

    pub fn match_left(&self, number: i32) -> (r: Option<Domino>)
        ensures
            r == self.spec_match_left(number),
    {
        if self.0 == number {
            Some(self.reverse())
        } else if self.1 == number {
            Some(*self)
        } else {
            None
        }
    }

    pub fn reverse(&self) -> (r: Domino)
        ensures
            r == self.reversed(),
    {
        Domino(self.1, self.0)
    }
}

/// A request to play the tile at a hand position of a seat onto one end of the board:
/// `Left(seat, position)` or `Right(seat, position)`.
#[derive(Debug, Clone, Copy, PartialEq, Eq, Structural)]
pub enum Move {
    Left(usize, usize),
    Right(usize, usize),
}

/// The outcome of an accepted move: the end that grew and the tile placed there.
#[derive(Debug, Clone, Copy, PartialEq, Eq, Structural)]
pub enum Update {
    Skip,
    Left(Domino),
    Right(Domino),
}

/// Why a move was refused.
#[derive(Debug, Clone, Copy, PartialEq, Eq, Structural)]
pub enum GameError {
    /// The tile does not match the named end, or the seat or position is out of range.
    InvalidMove,
}

pub open spec fn left_word() -> Seq<char> {
    seq!['l', 'e', 'f', 't']
}

pub open spec fn right_word() -> Seq<char> {
    seq!['r', 'i', 'g', 'h', 't']
}

pub open spec fn is_side_word(w: Seq<char>) -> bool {
    w == left_word() || w == right_word()
}

fn is_left(w: &Vec<char>) -> (r: bool)
    ensures
        r == (w@ == left_word()),
{
    let r = w.len() == 4 && w[0] == 'l' && w[1] == 'e' && w[2] == 'f' && w[3] == 't';
    if r {
        assert(w@ =~= left_word());
    }
    r
}

fn is_right(w: &Vec<char>) -> (r: bool)
    ensures
        r == (w@ == right_word()),
{
    let r = w.len() == 5 && w[0] == 'r' && w[1] == 'i' && w[2] == 'g' && w[3] == 'h' && w[4] == 't';
    if r {
        assert(w@ =~= right_word());
    }
    r
}

impl Move {
    pub open spec fn seat(self) -> usize {
        match self {
            Move::Left(s, _) => s,
            Move::Right(s, _) => s,
        }
    }

    pub open spec fn position(self) -> usize {
        match self {
            Move::Left(_, p) => p,
            Move::Right(_, p) => p,
        }
    }

    /// The move on the named side for `seat` and `position`.
    pub open spec fn on_side(left: bool, seat: usize, position: usize) -> Move {
        if left {
            Move::Left(seat, position)
        } else {
            Move::Right(seat, position)
        }
    }

    /// The two-word form `("left" | "right") position`, for the given seat.
    pub open spec fn spec_parse_move(s: Seq<char>, player: usize) -> Option<Move> {
        let w = words(s);
        if w.len() == 2 && is_side_word(w[0]) && decimal(w[1]) is Some {
            Some(Move::on_side(w[0] == left_word(), player, decimal(w[1]).unwrap()))
        } else {
            None
        }
    }

    /// The three-word form `("left" | "right") seat position`.
    pub open spec fn spec_parse(s: Seq<char>) -> Option<Move> {
        let w = words(s);
        if w.len() == 3 && is_side_word(w[0]) && decimal(w[1]) is Some && decimal(w[2]) is Some {
            Some(Move::on_side(w[0] == left_word(), decimal(w[1]).unwrap(), decimal(w[2]).unwrap()))
        } else {
            None
        }
    }

    /// Reads a move in the two-word form; the seat is the one given.
    pub fn parse_move(string: &str, player: usize) -> (r: Option<Move>)
        ensures
            r == Move::spec_parse_move(string@, player),
    {
        let parts = split_words(string);
        proof {
            assert(word_views(parts@).len() == parts@.len());
        }
        if parts.len() != 2 {
            return None;
        }
        assert(word_views(parts@)[0] == parts@[0]@ && word_views(parts@)[1] == parts@[1]@);
        let left = is_left(&parts[0]);
        if !left && !is_right(&parts[0]) {
            return None;
        }
        match parse_decimal(&parts[1]) {
            Some(pos) => {
                if left {
                    Some(Move::Left(player, pos))
                } else {
                    Some(Move::Right(player, pos))
                }
            },
            None => None,
        }
    }

    /// Reads a move in the three-word form.
    pub fn parse(string: &str) -> (r: Option<Move>)
        ensures
            r == Move::spec_parse(string@),
    {
        let parts = split_words(string);
        proof {
            assert(word_views(parts@).len() == parts@.len());
        }
        if parts.len() != 3 {
            return None;
        }
        assert(word_views(parts@)[0] == parts@[0]@ && word_views(parts@)[1] == parts@[1]@
            && word_views(parts@)[2] == parts@[2]@);
        let left = is_left(&parts[0]);
        if !left && !is_right(&parts[0]) {
            return None;
        }
        let player = match parse_decimal(&parts[1]) {
            Some(v) => v,
            None => return None,
        };
        match parse_decimal(&parts[2]) {
            Some(pos) => {
                if left {
                    Some(Move::Left(player, pos))
                } else {
                    Some(Move::Right(player, pos))
                }
            },
            None => None,
        }
    }

    fn unpack(&self) -> (r: (usize, usize))
        ensures
            r == (self.seat(), self.position()),
    {
        match *self {
            Move::Left(x, y) => (x, y),
            Move::Right(x, y) => (x, y),
        }
    }
}

/// The highest pip value of the set.
pub const MAX_PIP: i32 = 6;

/// The number of tiles in a double-six set.
pub const SET_SIZE: usize = 28;

/// A tile of the double-six set written in canonical form: larger pip first.
pub open spec fn is_set_tile(d: Domino) -> bool {
    0 <= d.1 <= d.0 <= MAX_PIP
}

/// A set tile with first pip below `i`, or equal to `i` with second pip below `j`.
pub open spec fn tiles_before(i: int, j: int, d: Domino) -> bool {
    is_set_tile(d) && (d.0 < i || (d.0 == i && d.1 < j))
}

/// The full double-six set in canonical form, each tile once, in a fixed order.
pub fn full_set() -> (r: Vec<Domino>)
    ensures
        r@.len() == SET_SIZE,
        r@.no_duplicates(),
        forall|d: Domino| r@.contains(d) <==> is_set_tile(d),
{
    let mut pieces: Vec<Domino> = Vec::new();
    let mut i: i32 = 0;
    while i <= MAX_PIP
        invariant
            0 <= i <= MAX_PIP + 1,
            pieces@.len() == i * (i + 1) / 2,
            pieces@.no_duplicates(),
            forall|d: Domino| pieces@.contains(d) <==> tiles_before(i as int, 0, d),
        decreases MAX_PIP + 1 - i,
    {
        let mut j: i32 = 0;
        while j <= i
            invariant
                0 <= i <= MAX_PIP,
                0 <= j <= i + 1,
                pieces@.len() == i * (i + 1) / 2 + j,
                pieces@.no_duplicates(),
                forall|d: Domino| pieces@.contains(d) <==> tiles_before(i as int, j as int, d),
            decreases i + 1 - j,
        {
            let ghost before = pieces@;
            assert(!before.contains(Domino(i, j)));
            pieces.push(Domino(i, j));
            assert(pieces@ == before.push(Domino(i, j)));
            assert forall|d: Domino| pieces@.contains(d) <==> tiles_before(i as int, j + 1, d) by {
                if pieces@.contains(d) && d != Domino(i, j) {
                    let k = choose|k: int| 0 <= k < pieces@.len() && pieces@[k] == d;
                    assert(before[k] == d);
                    assert(before.contains(d));
                }
                if tiles_before(i as int, j + 1, d) && d != Domino(i, j) {
                    assert(before.contains(d));
                    let k = choose|k: int| 0 <= k < before.len() && before[k] == d;
                    assert(pieces@[k] == d);
                }
                if d == Domino(i, j) {
                    assert(pieces@[pieces@.len() - 1] == d);
                }
            }
            j = j + 1;
        }
        assert((i + 1) * (i + 2) / 2 == i * (i + 1) / 2 + i + 1) by (nonlinear_arith);
        i = i + 1;
    }
    pieces
}

/// Relies on rand's `SliceRandom::shuffle` with the thread-local generator:
/// it permutes the slice in place by swaps, so the same tiles remain.
#[verifier::external_body]
fn shuffle_tiles(pieces: &mut Vec<Domino>)
    ensures
        final(pieces)@.to_multiset() == old(pieces)@.to_multiset(),
{
    pieces.shuffle(&mut rand::thread_rng());
}

/// A copy of `pieces[start..end]`.
pub fn deal(pieces: &Vec<Domino>, start: usize, end: usize) -> (r: Vec<Domino>)
    requires
        start <= end <= pieces@.len(),
    ensures
        r@ == pieces@.subrange(start as int, end as int),
{
    let mut hand: Vec<Domino> = Vec::new();
    let mut k: usize = start;
    while k < end
        invariant
            start <= k <= end <= pieces@.len(),
            hand@ == pieces@.subrange(start as int, k as int),
        decreases end - k,
    {
        hand.push(pieces[k]);
        assert(hand@ =~= pieces@.subrange(start as int, k + 1));
        k = k + 1;
    }
    hand
}

/// The number of seats at a table.
pub const SEATS: usize = 4;

/// The game state: one hand per seat, the board chain, and whose turn it is.
#[derive(Debug, PartialEq)]
pub struct Game {
    pub players: [Vec<Domino>; 4],
    pub board: Vec<Domino>,
    pub next: i32,
    pub n_players: i32,
}

/// How many tiles a seat holds after the deal, for `n` seats in play.
pub open spec fn hand_size(n: int, seat: int) -> int {
    if seat >= n {
        0
    } else if n == 2 {
        14
    } else if n == 3 {
        9
    } else {
        7
    }
}

impl Game {
    /// Seat count between two and four, turn pointer on one of the seats in play.
    pub open spec fn wf(self) -> bool {
        2 <= self.n_players <= 4 && 0 <= self.next < self.n_players
    }

    pub open spec fn hand(self, seat: int) -> Seq<Domino> {
        self.players@[seat]@
    }

    /// All hands one after the other, seat 0 first.
    pub open spec fn dealt(self) -> Seq<Domino> {
        self.hand(0) + self.hand(1) + self.hand(2) + self.hand(3)
    }

    /// Tiles held in hands and on the board together.
    pub open spec fn tile_count(self) -> nat {
        self.hand(0).len() + self.hand(1).len() + self.hand(2).len() + self.hand(3).len()
            + self.board@.len()
    }

    /// The tile that `m` places, oriented as it lands, or `None` when the move is refused.
    pub open spec fn placed(self, m: Move) -> Option<Domino> {
        let s = m.seat() as int;
        let p = m.position() as int;
        if s >= SEATS || p >= self.hand(s).len() {
            None
        } else if self.board@.len() == 0 {
            Some(self.hand(s)[p])
        } else {
            match m {
                Move::Left(_, _) => self.hand(s)[p].spec_match_left(self.board@[0].0),
                Move::Right(_, _) => self.hand(s)[p].spec_match_right(self.board@.last().1),
            }
        }
    }

    /// The outcome reported when `m` places tile `t`; a first tile is reported on the left.
    pub open spec fn update_for(self, m: Move, t: Domino) -> Update {
        if self.board@.len() == 0 || m is Left {
            Update::Left(t)
        } else {
            Update::Right(t)
        }
    }

    /// The board after `m` places tile `t`.
    pub open spec fn board_with(self, m: Move, t: Domino) -> Seq<Domino> {
        if self.board@.len() == 0 {
            seq![t]
        } else if m is Left {
            seq![t] + self.board@
        } else {
            self.board@.push(t)
        }
    }

    /// `after` is `self` with tile `t` of move `m` taken from the hand and put on the board;
    /// the turn pointer aside, nothing else differs.
    pub open spec fn placed_into(self, after: Game, m: Move, t: Domino) -> bool {
        let s = m.seat() as int;
        &&& after.board@ == self.board_with(m, t)
        &&& after.hand(s) == self.hand(s).remove(m.position() as int)
        &&& forall|i: int| 0 <= i < SEATS && i != s ==> after.hand(i) == self.hand(i)
        &&& after.n_players == self.n_players
    }

    /// The double-six set in random order.
    fn shuffled_pieces() -> (r: Vec<Domino>)
        ensures
            r@.len() == SET_SIZE,
            r@.no_duplicates(),
            forall|d: Domino| r@.contains(d) <==> is_set_tile(d),
    {
        let mut pieces = full_set();
        let ghost ordered = pieces@;
        shuffle_tiles(&mut pieces);
        proof {
            broadcast use vstd::seq_lib::group_to_multiset_ensures;
            ordered.lemma_multiset_has_no_duplicates();
            assert(pieces@.len() == pieces@.to_multiset().len());
            assert(ordered.len() == ordered.to_multiset().len());
            pieces@.lemma_multiset_has_no_duplicates_conv();
            assert forall|d: Domino| pieces@.contains(d) <==> is_set_tile(d) by {
                assert(pieces@.to_multiset().count(d) == ordered.to_multiset().count(d));
            }
        }
        pieces
    }

    /// Deals a shuffled set to `n_players` seats: fourteen tiles each for two, nine each for
    /// three (one tile stays out), seven each for four. Seat 0 plays first.
    pub fn new(n_players: i32) -> (g: Game)
        requires
            2 <= n_players <= 4,
        ensures
            g.wf(),
            g.n_players == n_players,
            g.next == 0,
            g.board@.len() == 0,
            forall|s: int| 0 <= s < SEATS ==> g.hand(s).len() == hand_size(n_players as int, s),
            g.dealt().no_duplicates(),
            forall|d: Domino| g.dealt().contains(d) ==> is_set_tile(d),
            n_players != 3 ==> forall|d: Domino| is_set_tile(d) ==> g.dealt().contains(d),
            g.tile_count() == if n_players == 3 { SET_SIZE - 1 } else { SET_SIZE as int },
    {
        let pieces = Game::shuffled_pieces();
        let players: [Vec<Domino>; 4] = if n_players == 2 {
            [deal(&pieces, 0, 14), deal(&pieces, 14, 28), Vec::new(), Vec::new()]
        } else if n_players == 3 {
            [deal(&pieces, 0, 9), deal(&pieces, 9, 18), deal(&pieces, 18, 27), Vec::new()]
        } else {
            [deal(&pieces, 0, 7), deal(&pieces, 7, 14), deal(&pieces, 14, 21), deal(&pieces, 21, 28)]
        };
        let g = Game { players, board: Vec::new(), next: 0, n_players };
        proof {
            let total: int = if n_players == 3 { 27 } else { 28 };
            assert(g.dealt() =~= pieces@.subrange(0, total));
            assert forall|d: Domino| g.dealt().contains(d) implies is_set_tile(d) by {
                let k = choose|k: int| 0 <= k < g.dealt().len() && g.dealt()[k] == d;
                assert(pieces@[k] == d);
            }
            if n_players != 3 {
                assert(g.dealt() =~= pieces@);
            }
        }
        g
    }

    /// Applies `m`: on success the turn passes to the next seat in play.
    /// A refused move changes nothing.
    pub fn play(&mut self, move_: &Move) -> (r: Result<Update, GameError>)
        requires
            old(self).wf(),
        ensures
            final(self).wf(),
            match old(self).placed(*move_) {
                Some(t) => {
                    &&& r == Ok::<Update, GameError>(old(self).update_for(*move_, t))
                    &&& old(self).placed_into(*final(self), *move_, t)
                    &&& final(self).next == (old(self).next + 1) % (old(self).n_players as int)
                },
                None => {
                    &&& r == Err::<Update, GameError>(GameError::InvalidMove)
                    &&& *final(self) == *old(self)
                },
            },
    {
        let update = self.make_move(move_)?;
        self.incr_player();
        Ok(update)
    }

    fn incr_player(&mut self)
        requires
            old(self).wf(),
        ensures
            final(self).wf(),
            final(self).next == (old(self).next + 1) % (old(self).n_players as int),
            final(self).players == old(self).players,
            final(self).board == old(self).board,
            final(self).n_players == old(self).n_players,
    {
        let ghost n = self.n_players as int;
        let ghost k = self.next as int + 1;
        proof {
            if k < n {
                assert(k % n == k) by (nonlinear_arith)
                    requires
                        0 <= k < n,
                ;
            } else {
                assert(k % n == 0) by (nonlinear_arith)
                    requires
                        k == n,
                        n > 0,
                ;
            }
        }
        self.next = self.next + 1;
        if self.next == self.n_players {
            self.next = 0;
        }
    }

    /// Takes the tile at `pos` out of the hand of `seat`.
    fn remove_tile(&mut self, seat: usize, pos: usize)
        requires
            seat < SEATS,
            pos < old(self).hand(seat as int).len(),
        ensures
            final(self).hand(seat as int) == old(self).hand(seat as int).remove(pos as int),
            forall|i: int| 0 <= i < SEATS && i != seat ==> final(self).hand(i) == old(self).hand(i),
            final(self).board == old(self).board,
            final(self).next == old(self).next,
            final(self).n_players == old(self).n_players,
    {
        let len = self.players[seat].len();
        let mut hand = deal(&self.players[seat], 0, len);
        hand.remove(pos);
        self.players[seat] = hand;
        assert(old(self).hand(seat as int).subrange(0, len as int) == old(self).hand(seat as int));
    }

    /// Places the tile that `m` names, without moving the turn pointer.
    pub fn make_move(&mut self, move_: &Move) -> (r: Result<Update, GameError>)
        ensures
            match old(self).placed(*move_) {
                Some(t) => {
                    &&& r == Ok::<Update, GameError>(old(self).update_for(*move_, t))
                    &&& old(self).placed_into(*final(self), *move_, t)
                    &&& final(self).next == old(self).next
                },
                None => {
                    &&& r == Err::<Update, GameError>(GameError::InvalidMove)
                    &&& *final(self) == *old(self)
                },
            },
    {
        let (player_num, piece_pos) = move_.unpack();
        if player_num >= SEATS || piece_pos >= self.players[player_num].len() {
            return Err(GameError::InvalidMove);
        }
        if self.board.len() == 0 {
            let piece = self.players[player_num][piece_pos];
            self.remove_tile(player_num, piece_pos);
            self.board.push(piece);
            assert(self.board@ =~= seq![piece]);
            return Ok(Update::Left(piece));
        }
        match *move_ {
            Move::Left(player_num, piece_pos) => self.play_left(player_num, piece_pos),
            Move::Right(player_num, piece_pos) => self.play_right(player_num, piece_pos),
        }
    }

    fn play_left(&mut self, player_num: usize, piece_pos: usize) -> (r: Result<Update, GameError>)
        requires
            player_num < SEATS,
            piece_pos < old(self).hand(player_num as int).len(),
            old(self).board@.len() > 0,
        ensures
            match old(self).placed(Move::Left(player_num, piece_pos)) {
                Some(t) => {
                    &&& r == Ok::<Update, GameError>(Update::Left(t))
                    &&& old(self).placed_into(*final(self), Move::Left(player_num, piece_pos), t)
                    &&& final(self).next == old(self).next
                },
                None => {
                    &&& r == Err::<Update, GameError>(GameError::InvalidMove)
                    &&& *final(self) == *old(self)
                },
            },
    {
        let piece_from_board = self.board[0];
        let piece_to_play = self.players[player_num][piece_pos];
        if let Some(piece) = piece_to_play.match_left(piece_from_board.0) {
            self.board.insert(0, piece);
            self.remove_tile(player_num, piece_pos);
            assert(self.board@ =~= seq![piece] + old(self).board@);
            return Ok(Update::Left(piece));
        }
        Err(GameError::InvalidMove)
    }

    fn play_right(&mut self, player_num: usize, piece_pos: usize) -> (r: Result<Update, GameError>)
        requires
            player_num < SEATS,
            piece_pos < old(self).hand(player_num as int).len(),
            old(self).board@.len() > 0,
        ensures
            match old(self).placed(Move::Right(player_num, piece_pos)) {
                Some(t) => {
                    &&& r == Ok::<Update, GameError>(Update::Right(t))
                    &&& old(self).placed_into(*final(self), Move::Right(player_num, piece_pos), t)
                    &&& final(self).next == old(self).next
                },
                None => {
                    &&& r == Err::<Update, GameError>(GameError::InvalidMove)
                    &&& *final(self) == *old(self)
                },
            },
    {
        let piece_from_board = self.board[self.board.len() - 1];
        let piece_to_play = self.players[player_num][piece_pos];
        if let Some(piece) = piece_to_play.match_right(piece_from_board.1) {
            self.board.push(piece);
            self.remove_tile(player_num, piece_pos);
            return Ok(Update::Right(piece));
        }
        Err(GameError::InvalidMove)
    }
}

/// Matching is symmetric: a tile meets the left end with its right pip and the right end
/// with its left pip, turned around when needed, and matches no value that it lacks.
pub proof fn lemma_match_orientation(d: Domino, n: i32)
    ensures
        d.spec_match_left(d.1) == Some(d),
        d.spec_match_right(d.0) == Some(d),
        d.spec_match_left(d.0) == Some(d.reversed()),
        d.spec_match_right(d.1) == Some(d.reversed()),
        n != d.0 && n != d.1 ==> d.spec_match_left(n) is None && d.spec_match_right(n) is None,
{
}

/// A move whose seat or hand position is out of range is refused, and `play` then leaves
/// the game unchanged.
pub proof fn lemma_out_of_range_refused(g: Game, m: Move)
    requires
        m.seat() >= SEATS || m.position() >= g.hand(m.seat() as int).len(),
    ensures
        g.placed(m) is None,
{
}

/// An accepted move only moves a tile from a hand to the board: the number of tiles in
/// hands and on the board together stays the same.
pub proof fn lemma_tile_count_kept(g: Game, after: Game, m: Move, t: Domino)
    requires
        g.placed(m) == Some(t),
        g.placed_into(after, m, t),
    ensures
        after.tile_count() == g.tile_count(),
{
    let s = m.seat() as int;
    assert(0 <= s < SEATS);
    assert(after.hand(s).len() == g.hand(s).len() - 1);
    if s == 0 {
        assert(after.hand(1) == g.hand(1) && after.hand(2) == g.hand(2) && after.hand(3) == g.hand(3));
    } else if s == 1 {
        assert(after.hand(0) == g.hand(0) && after.hand(2) == g.hand(2) && after.hand(3) == g.hand(3));
    } else if s == 2 {
        assert(after.hand(0) == g.hand(0) && after.hand(1) == g.hand(1) && after.hand(3) == g.hand(3));
    } else {
        assert(after.hand(0) == g.hand(0) && after.hand(1) == g.hand(1) && after.hand(2) == g.hand(2));
    }
}

/// The turn pointer counts accepted moves modulo the seat count: `new` leaves it at 0, and
/// if it stands at `k % n` after `k` accepted moves, the next accepted move (which `play`
/// advances by one seat) leaves it at `(k + 1) % n`.
pub proof fn lemma_turn_counts_moves(g: Game, after: Game, k: int)
    requires
        g.wf(),
        k >= 0,
        g.next == k % (g.n_players as int),
        after.next == (g.next + 1) % (g.n_players as int),
    ensures
        after.next == (k + 1) % (g.n_players as int),
{
    let n = g.n_players as int;
    vstd::arithmetic::div_mod::lemma_fundamental_div_mod(k, n);
    vstd::arithmetic::div_mod::lemma_mod_multiples_vanish(k / n, k % n + 1, n);
    assert(n * (k / n) + (k % n + 1) == k + 1);
}

} // verus!
