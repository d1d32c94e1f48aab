use unicorns::{
    Action, ActionType, BasicUnicorn, Board, Card, GameState, LogicError, Neigh, PhaseType,
    QueryCards, SuperNeigh, UnicornPhoenix, UnicornPoison,
};

fn state_of(board: &Board) -> GameState {
    GameState::new(board, &PhaseType::Play)
}

fn action(card: Card, atype: ActionType, board: &Board) -> Action {
    Action { card, atype, board: board.clone() }
}

#[test]
fn neigh_counters_any_non_super_neigh() {
    let mut board = Board::new_base_game(2);
    board.discard = vec![Card::Neigh];
    let history = vec![action(Card::BasicUnicorn, ActionType::Place, &board)];
    let r = Neigh {}.react(1, &state_of(&Board::new_base_game(2)), &history).unwrap();
    assert_eq!(r.len(), 1);
    let act = &r[0].effect_action;
    assert_eq!(act.card, Card::Neigh);
    assert_eq!(act.atype, ActionType::Instant);
    // parented on the board of the action it counters
    assert_eq!(act.board.discard, vec![Card::Neigh, Card::Neigh]);
    assert!(r[0].follow_up.is_none());
    assert!(r[0].response.is_empty());
}

#[test]
fn neigh_vetoed_by_super_neigh_and_silent_without_history() {
    let board = Board::new_base_game(2);
    let history = vec![action(Card::SuperNeigh, ActionType::Instant, &board)];
    assert!(Card::Neigh.react(0, &state_of(&board), &history).unwrap().is_empty());
    assert!(Card::Neigh.react(0, &state_of(&board), &vec![]).unwrap().is_empty());
    // only the latest action counts
    let history = vec![
        action(Card::SuperNeigh, ActionType::Instant, &board),
        action(Card::Neigh, ActionType::Instant, &board),
    ];
    assert_eq!(Card::Neigh.react(0, &state_of(&board), &history).unwrap().len(), 1);
    // other cards have no reaction
    assert!(Card::SuperNeigh.react(0, &state_of(&board), &history).unwrap().is_empty());
}

#[test]
fn unicorns_are_placed_in_stable() {
    let board = Board::new_base_game(2);
    let r = BasicUnicorn {}.play(1, &state_of(&board), &vec![]).unwrap();
    assert_eq!(r.len(), 1);
    assert_eq!(r[0].effect_action.atype, ActionType::Place);
    assert_eq!(r[0].effect_action.board.players[1].stable, vec![Card::BasicUnicorn]);
    assert!(r[0].effect_action.board.players[0].stable.is_empty());
    let r = Card::UnicornPhoenix.play(0, &state_of(&board), &vec![]).unwrap();
    assert_eq!(r[0].effect_action.board.players[0].stable, vec![Card::UnicornPhoenix]);
    let r = Card::BabyUnicorn.play(0, &state_of(&board), &vec![]).unwrap();
    assert_eq!(r[0].effect_action.board.players[0].stable, vec![Card::BabyUnicorn]);
}

#[test]
fn super_neigh_goes_to_discard() {
    let board = Board::new_base_game(2);
    let r = SuperNeigh {}.play(0, &state_of(&board), &vec![]).unwrap();
    assert_eq!(r.len(), 1);
    assert_eq!(r[0].effect_action.atype, ActionType::Instant);
    assert_eq!(r[0].effect_action.board.discard, vec![Card::SuperNeigh]);
    assert!(Card::Neigh.play(0, &state_of(&board), &vec![]).unwrap().is_empty());
}

#[test]
fn poison_offers_to_destroy_the_single_unicorn() {
    let mut board = Board::new_base_game(2);
    board.players[0].stable = vec![Card::Neigh, Card::UnicornPhoenix];
    board.players[0].hand = vec![Card::Neigh, Card::BasicUnicorn];
    board.players[1].stable = vec![Card::SuperNeigh];
    let r = UnicornPoison {}.play(1, &state_of(&board), &vec![]).unwrap();
    assert_eq!(r.len(), 1);
    let ra = &r[0];
    assert_eq!(ra.effect_action.card, Card::UnicornPoison);
    assert_eq!(ra.effect_action.atype, ActionType::Discard);
    assert_eq!(ra.effect_action.board.discard, vec![Card::UnicornPoison]);
    let follow = ra.follow_up.as_ref().unwrap();
    assert_eq!(follow.card, Card::UnicornPhoenix);
    assert_eq!(follow.atype, ActionType::Destroy);
    assert_eq!(follow.board.players[0].stable, vec![Card::Neigh]);
    assert_eq!(follow.board.discard, vec![Card::UnicornPoison, Card::UnicornPhoenix]);
    assert_eq!(ra.response, vec![0]);

    // The Phoenix answers its destruction with one branch per card in seat 0's hand.
    let destroyed = GameState::new(&follow.board, &PhaseType::Effect);
    let revivals = UnicornPhoenix {}.effect(0, &destroyed, &vec![follow.clone()]).unwrap();
    assert_eq!(revivals.len(), 2);
    for (k, rv) in revivals.iter().enumerate() {
        assert_eq!(rv.effect_action.atype, ActionType::Revive);
        assert_eq!(rv.effect_action.board.players[0].stable, vec![Card::Neigh, Card::UnicornPhoenix]);
        assert_eq!(rv.effect_action.board.discard, vec![Card::UnicornPoison]);
        let discard = rv.follow_up.as_ref().unwrap();
        assert_eq!(discard.atype, ActionType::Discard);
        assert_eq!(discard.card, board.players[0].hand[k]);
        assert_eq!(discard.board.players[0].hand.len(), 1);
        assert_eq!(discard.board.discard.last(), Some(&board.players[0].hand[k]));
    }

    // An empty hand gives no branch, and no failure.
    let mut bare = follow.board.clone();
    bare.players[0].hand.clear();
    let destroyed = GameState::new(&bare, &PhaseType::Effect);
    let mut history_action = follow.clone();
    history_action.board = bare.clone();
    let revivals = UnicornPhoenix {}.effect(0, &destroyed, &vec![history_action]).unwrap();
    assert!(revivals.is_empty());
}

#[test]
fn poison_offers_one_choice_per_unicorn_seat_by_seat() {
    let mut board = Board::new_base_game(2);
    board.players[0].stable = vec![Card::BabyUnicorn, Card::Neigh, Card::BasicUnicorn];
    board.players[1].stable = vec![Card::UnicornPhoenix];
    let r = Card::UnicornPoison.play(0, &state_of(&board), &vec![]).unwrap();
    let victims: Vec<(Card, usize)> = r
        .iter()
        .map(|ra| (ra.follow_up.as_ref().unwrap().card, ra.response[0]))
        .collect();
    assert_eq!(
        victims,
        vec![(Card::BabyUnicorn, 0), (Card::BasicUnicorn, 0), (Card::UnicornPhoenix, 1)]
    );
    let empty = Board::new_base_game(2);
    assert!(Card::UnicornPoison.play(0, &state_of(&empty), &vec![]).unwrap().is_empty());
}

#[test]
fn phoenix_ignores_other_events() {
    let mut board = Board::new_base_game(2);
    board.players[0].hand = vec![Card::Neigh];
    board.discard = vec![Card::UnicornPhoenix];
    let st = state_of(&board);
    let placed = vec![action(Card::UnicornPhoenix, ActionType::Place, &board)];
    assert!(UnicornPhoenix {}.effect(0, &st, &placed).unwrap().is_empty());
    let other = vec![action(Card::BasicUnicorn, ActionType::Destroy, &board)];
    assert!(UnicornPhoenix {}.effect(0, &st, &other).unwrap().is_empty());
    assert!(UnicornPhoenix {}.effect(0, &st, &vec![]).unwrap().is_empty());
    let sacrificed = vec![action(Card::UnicornPhoenix, ActionType::Sacrifice, &board)];
    assert_eq!(UnicornPhoenix {}.effect(0, &st, &sacrificed).unwrap().len(), 1);
    // other cards have no effect
    assert!(Card::Neigh.effect(0, &st, &sacrificed).unwrap().is_empty());
    assert!(Card::Neigh.destroy(0, &st, &sacrificed).unwrap().is_empty());
    assert!(Card::Neigh.steal(0, &st, &sacrificed).unwrap().is_empty());
}

#[test]
fn phoenix_missing_from_discard_is_unknown() {
    let mut board = Board::new_base_game(2);
    board.players[0].hand = vec![Card::Neigh];
    board.discard = vec![Card::Neigh];
    let destroyed = vec![action(Card::UnicornPhoenix, ActionType::Destroy, &board)];
    assert!(matches!(
        UnicornPhoenix {}.effect(0, &state_of(&board), &destroyed),
        Err(LogicError::Unknown)
    ));
    board.discard.clear();
    assert!(matches!(
        Card::UnicornPhoenix.effect(0, &state_of(&board), &destroyed),
        Err(LogicError::Unknown)
    ));
}

#[test]
fn reaction_metadata_follows_follow_up() {
    let board = Board::new_base_game(2);
    let plain = unicorns::ReactAction::from(&action(Card::Neigh, ActionType::Instant, &board));
    assert!(plain.metadata().is_none());
    let mut b = board.clone();
    b.players[1].stable = vec![Card::BasicUnicorn];
    let r = Card::UnicornPoison.play(0, &state_of(&b), &vec![]).unwrap();
    let md = r[0].metadata().unwrap();
    assert_eq!(md.follow_up.atype, ActionType::Destroy);
    assert_eq!(md.response, vec![1]);
    assert!(b.players[1].stable.has_card::<BasicUnicorn>());
}
