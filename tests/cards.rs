use unicorns::{
    Action, ActionType, BabyUnicorn, BasicUnicorn, Board, Card, CardType, GameState, Neigh,
    PhaseType, QueryCards, SuperNeigh, UnicornPhoenix, UnicornPoison,
};

fn default_board() -> Board {
    Board::new_base_game(2)
}

#[test]
fn test_has_card() {
    let board = default_board();
    assert!(board.deck.has_card::<Neigh>(), "Should contain Neigh");
    assert!(board.deck.has_card::<SuperNeigh>(), "Should contain SuperNeigh");
}

#[test]
fn test_count_card() {
    let board = default_board();
    assert!(board.deck.count_card::<Neigh>() == 3, "Should contain Neigh");
    assert_eq!(board.deck.count_card::<BasicUnicorn>(), 2);
    assert_eq!(board.deck.count_card::<UnicornPoison>(), 3);
    assert_eq!(board.deck.count_card::<BabyUnicorn>(), 0);
    assert_eq!(board.nursery.count_card::<BabyUnicorn>(), 3);
}

#[test]
fn test_neigh_neigh() {
    let board = default_board();
    let neigh_action = Action {
        card: board.draw_specific_card::<Neigh>().unwrap().unwrap().card,
        atype: ActionType::Instant,
        board: board.clone(),
    };

    let game_state = GameState { board, phase: PhaseType::Play, react_metadata: None };

    // Force a neigh on the neigh
    let forced_neigh = Neigh {};
    let option = forced_neigh.react(0, &game_state, &vec![neigh_action]).unwrap();
    assert!(option.len() == 1);
    let option = &option[0];

    assert!(option.effect_action.card.is::<Neigh>());
    assert!(option.effect_action.board.discard.len() == 1);
    assert!(option.effect_action.board.discard.has_card::<Neigh>());
}

#[test]
fn test_neigh_super_neigh() {
    let board = default_board();
    let neigh_action = Action {
        card: board.draw_specific_card::<SuperNeigh>().unwrap().unwrap().card,
        atype: ActionType::Instant,
        board: board.clone(),
    };

    let game_state = GameState { board, phase: PhaseType::Play, react_metadata: None };

    // Force a neigh on the neigh
    let forced_neigh = Neigh {};
    let option = forced_neigh.react(0, &game_state, &vec![neigh_action]);
    assert!(option.unwrap().len() == 0, "Cannot neigh a super neigh.");
}

#[test]
fn test_is_unicorn() {
    assert!(CardType::BasicUnicorn.is_unicorn() == true);
    assert!(CardType::MagicUnicorn.is_unicorn() == true);
    assert!(CardType::BabyUnicorn.is_unicorn() == true);
    assert!(CardType::Magic.is_unicorn() == false);
    assert!(CardType::Instant.is_unicorn() == false);
    assert!(CardType::Downgrade.is_unicorn() == false);
    assert!(CardType::Upgrade.is_unicorn() == false);
}

#[test]
fn test_board_draw() {
    let drawn_card = Board::new_base_game(2)
        .draw_specific_card::<Neigh>()
        .unwrap()
        .unwrap()
        .card;
    assert!(drawn_card.name() == "Neigh", "Drawn deck should match.")
}

#[test]
fn card_names_and_types() {
    assert_eq!(Card::BasicUnicorn.name(), "Basic Unicorn");
    assert_eq!(Card::UnicornPhoenix.name(), "Unicorn Phoenix");
    assert_eq!(Card::BabyUnicorn.name(), "Baby Unicorn");
    assert_eq!(Card::SuperNeigh.name(), "Super Neigh");
    assert_eq!(Card::UnicornPoison.name(), "Unicorn Poison");
    assert_eq!(Card::UnicornPhoenix.ctype(), CardType::MagicUnicorn);
    assert_eq!(Card::UnicornPoison.ctype(), CardType::Magic);
    assert_eq!(Card::Neigh.ctype(), CardType::Instant);
    assert!(Card::Neigh.is::<Neigh>());
    assert!(!Card::Neigh.is::<SuperNeigh>());
}

#[test]
fn instants_cannot_be_played_in_play_phase() {
    assert_eq!(
        Card::Neigh.phase_playable(),
        vec![PhaseType::Draw, PhaseType::Effect, PhaseType::React]
    );
    assert_eq!(
        Card::BasicUnicorn.phase_playable(),
        vec![PhaseType::Draw, PhaseType::Effect, PhaseType::Play, PhaseType::React]
    );
    assert!(!Card::SuperNeigh.playable_in(PhaseType::Play));
    assert!(Card::UnicornPoison.playable_in(PhaseType::Play));
    assert!(Card::SuperNeigh.playable_in(PhaseType::React));
}

#[test]
fn remove_takes_first_of_kind_and_keeps_order() {
    let zone = vec![Card::Neigh, Card::BasicUnicorn, Card::SuperNeigh, Card::BasicUnicorn];
    let (c, rest) = zone.remove_one_card_with_type::<BasicUnicorn>().unwrap();
    assert_eq!(c, Card::BasicUnicorn);
    assert_eq!(rest, vec![Card::Neigh, Card::SuperNeigh, Card::BasicUnicorn]);
    assert!(zone.remove_one_card_with_type::<UnicornPhoenix>().is_none());
    let empty: Vec<Card> = Vec::new();
    assert!(!empty.has_card::<Neigh>());
    assert_eq!(empty.count_card::<Neigh>(), 0);
}
