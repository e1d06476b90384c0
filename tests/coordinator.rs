use rustominoes::concurrent::{init_messages, take_turn, Lobby, Message};
use rustominoes::game::{Domino, Game, Move, Update};

fn game() -> Game {
    Game {
        players: [
            vec![Domino(1, 2), Domino(6, 4)],
            vec![Domino(2, 5)],
            vec![Domino(0, 0)],
            vec![],
        ],
        board: vec![Domino(3, 4), Domino(4, 2)],
        next: 1,
        n_players: 3,
    }
}

#[test]
fn opening_messages_give_each_seat_its_hand() {
    let g = game();
    let msgs = init_messages(&g);
    assert_eq!(
        msgs,
        vec![
            Message::Init(vec![Domino(1, 2), Domino(6, 4)], 0),
            Message::Init(vec![Domino(2, 5)], 1),
            Message::Init(vec![Domino(0, 0)], 2),
        ]
    );
}

#[test]
fn accepted_move_goes_to_every_other_seat() {
    let mut g = game();
    let step = take_turn(&mut g, &Move::Right(1, 0));
    assert_eq!(step, Some((Update::Right(Domino(2, 5)), vec![0, 2])));
    assert_eq!(g.next, 2);
    assert_eq!(g.board, vec![Domino(3, 4), Domino(4, 2), Domino(2, 5)]);
}

#[test]
fn refused_move_asks_the_same_seat_again() {
    let mut g = game();
    assert_eq!(take_turn(&mut g, &Move::Left(1, 0)), None);
    assert_eq!(g, game());
}

#[test]
fn lobby_seats_in_arrival_order() {
    let mut lobby = Lobby::new(4);
    assert!(!lobby.is_full());
    assert_eq!(lobby.register(), Some(0));
    assert_eq!(lobby.register(), Some(1));
    assert_eq!(lobby.register(), Some(2));
    assert!(!lobby.is_full());
    assert_eq!(lobby.register(), Some(3));
    assert!(lobby.is_full());
    assert_eq!(lobby.register(), None);
    assert_eq!(lobby.register(), None);
}
