use rustominoes::game::{full_set, Domino, Game, GameError, Move, Update};

fn table() -> Game {
    Game {
        players: [
            vec![Domino(1, 2), Domino(2, 2), Domino(3, 1), Domino(6, 4)],
            vec![Domino(5, 5), Domino(6, 6), Domino(1, 4)],
            vec![Domino(1, 2), Domino(2, 2), Domino(3, 1)],
            vec![Domino(3, 3), Domino(5, 6), Domino(2, 5), Domino(1, 1)],
        ],
        board: vec![Domino(3, 4), Domino(4, 2)],
        next: 0,
        n_players: 4,
    }
}

fn tile_count(g: &Game) -> usize {
    g.players.iter().map(|h| h.len()).sum::<usize>() + g.board.len()
}

fn canonical(d: Domino) -> (i32, i32) {
    if d.0 >= d.1 { (d.0, d.1) } else { (d.1, d.0) }
}

#[test]
fn matching_orients_each_side() {
    for d in full_set() {
        let r = Domino(d.1, d.0);
        assert_eq!(d.match_left(d.1), Some(d));
        assert_eq!(d.match_right(d.0), Some(d));
        assert_eq!(d.match_left(d.0), Some(r));
        assert_eq!(d.match_right(d.1), Some(r));
        for n in 0..7 {
            if n != d.0 && n != d.1 {
                assert_eq!(d.match_left(n), None);
                assert_eq!(d.match_right(n), None);
            }
        }
    }
    assert_eq!(Domino(3, 1).match_left(3), Some(Domino(1, 3)));
    assert_eq!(Domino(4, 6).reverse(), Domino(6, 4));
}

#[test]
fn out_of_range_position_is_refused_without_change() {
    let mut game = table();
    assert_eq!(game.play(&Move::Left(0, 4)), Err(GameError::InvalidMove));
    assert_eq!(game.play(&Move::Right(1, 99)), Err(GameError::InvalidMove));
    assert_eq!(game.play(&Move::Right(7, 0)), Err(GameError::InvalidMove));
    assert_eq!(game, table());

    let mut empty = Game {
        players: [vec![Domino(1, 1)], vec![], vec![], vec![]],
        board: vec![],
        next: 0,
        n_players: 4,
    };
    assert_eq!(empty.play(&Move::Left(0, 1)), Err(GameError::InvalidMove));
    assert_eq!(empty.board, vec![]);
    assert_eq!(empty.next, 0);
}

#[test]
fn first_tile_is_placed_verbatim_and_turn_advances() {
    let mut game = Game {
        players: [
            vec![Domino(1, 2), Domino(2, 2), Domino(3, 1), Domino(6, 4)],
            vec![],
            vec![],
            vec![],
        ],
        board: vec![],
        next: 0,
        n_players: 4,
    };
    assert_eq!(game.play(&Move::Right(0, 2)), Ok(Update::Left(Domino(3, 1))));
    assert_eq!(game.board, vec![Domino(3, 1)]);
    assert_eq!(game.players[0], vec![Domino(1, 2), Domino(2, 2), Domino(6, 4)]);
    assert_eq!(game.next, 1);
}

#[test]
fn left_play_reverses_to_touch_the_left_end() {
    let mut game = table();
    assert_eq!(game.play(&Move::Left(0, 2)), Ok(Update::Left(Domino(1, 3))));
    assert_eq!(game.board, vec![Domino(1, 3), Domino(3, 4), Domino(4, 2)]);
    assert_eq!(game.next, 1);
}

#[test]
fn mismatch_on_the_right_is_refused_without_change() {
    let mut game = table();
    game.players[0] = vec![Domino(5, 6), Domino(2, 2)];
    let before_hand = game.players[0].clone();
    assert_eq!(game.play(&Move::Right(0, 0)), Err(GameError::InvalidMove));
    assert_eq!(game.board, vec![Domino(3, 4), Domino(4, 2)]);
    assert_eq!(game.players[0], before_hand);
    assert_eq!(game.next, 0);
    assert_eq!(game.play(&Move::Right(0, 1)), Ok(Update::Right(Domino(2, 2))));
    assert_eq!(game.next, 1);
}

#[test]
fn tile_count_stays_at_the_full_set() {
    let mut game = Game::new(4);
    assert_eq!(tile_count(&game), 28);
    let first = game.next as usize;
    assert!(game.play(&Move::Left(first, 0)).is_ok());
    assert_eq!(tile_count(&game), 28);
    for seat in 0..4usize {
        for pos in 0..7usize {
            let _ = game.play(&Move::Left(seat, pos));
            let _ = game.play(&Move::Right(seat, pos));
            assert_eq!(tile_count(&game), 28);
        }
    }
}

#[test]
fn turn_pointer_counts_accepted_moves() {
    for n in 2..=4i32 {
        let mut game = Game {
            players: [
                vec![Domino(1, 1); 6],
                vec![Domino(1, 1); 6],
                vec![Domino(1, 1); 6],
                vec![Domino(1, 1); 6],
            ],
            board: vec![],
            next: 0,
            n_players: n,
        };
        let mut accepted = 0i32;
        for k in 0..10usize {
            assert_eq!(game.next, accepted % n);
            let seat = game.next as usize;
            let _ = game.play(&Move::Right(seat, 99));
            assert_eq!(game.next, accepted % n);
            if game.play(&Move::Right(seat, 0)).is_ok() {
                accepted += 1;
            }
            assert_eq!(game.next, accepted % n, "after {} rounds", k);
        }
        assert_eq!(accepted, 10);
    }
}

#[test]
fn four_seat_deal_partitions_the_set() {
    let game = Game::new(4);
    assert_eq!(game.next, 0);
    assert!(game.board.is_empty());
    let mut seen = Vec::new();
    for hand in game.players.iter() {
        assert_eq!(hand.len(), 7);
        for d in hand {
            assert!(0 <= d.1 && d.1 <= d.0 && d.0 <= 6);
            assert!(!seen.contains(&canonical(*d)));
            seen.push(canonical(*d));
        }
    }
    assert_eq!(seen.len(), 28);
}

#[test]
fn two_and_three_seat_deals() {
    let two = Game::new(2);
    assert_eq!(two.players[0].len(), 14);
    assert_eq!(two.players[1].len(), 14);
    assert!(two.players[2].is_empty() && two.players[3].is_empty());
    let three = Game::new(3);
    for s in 0..3 {
        assert_eq!(three.players[s].len(), 9);
    }
    assert!(three.players[3].is_empty());
    assert_eq!(three.n_players, 3);
}

#[test]
fn deals_are_shuffled() {
    let ordered = full_set();
    let mut differs = false;
    for _ in 0..5 {
        let game = Game::new(4);
        let dealt: Vec<Domino> = game.players.iter().flatten().copied().collect();
        if dealt != ordered {
            differs = true;
        }
    }
    assert!(differs);
}

#[test]
fn full_set_has_every_tile_once() {
    let set = full_set();
    assert_eq!(set.len(), 28);
    for i in 0..7 {
        for j in 0..=i {
            assert_eq!(set.iter().filter(|d| **d == Domino(i, j)).count(), 1);
        }
    }
}

#[test]
fn three_seats_wrap_after_seat_two() {
    let mut game = Game {
        players: [vec![Domino(0, 0)], vec![Domino(0, 1)], vec![Domino(1, 1)], vec![]],
        board: vec![],
        next: 0,
        n_players: 3,
    };
    assert!(game.play(&Move::Left(0, 0)).is_ok());
    assert!(game.play(&Move::Right(1, 0)).is_ok());
    assert_eq!(game.board, vec![Domino(0, 0), Domino(0, 1)]);
    assert!(game.play(&Move::Right(2, 0)).is_ok());
    assert_eq!(game.board, vec![Domino(0, 0), Domino(0, 1), Domino(1, 1)]);
    assert_eq!(game.next, 0);
}
