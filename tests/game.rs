use petgraph::graph::NodeIndex;
use petgraph::visit::Bfs;
use petgraph::Incoming;

use unicorns::{
    ActionType, BabyUnicorn, BasicUnicorn, Board, Card, Game, GameState, LogicError, Neigh,
    PhaseType, QueryCards, UnicornPhoenix, UnicornPoison,
};

fn total_cards(b: &Board) -> usize {
    b.players.iter().map(|p| p.hand.len() + p.stable.len()).sum::<usize>()
        + b.deck.len()
        + b.nursery.len()
        + b.discard.len()
}

#[test]
fn test_effect_phase() {
    let mut board = Board::new_base_game(2);

    // We grab a unicorn phoenix and put it into the stable first.
    let (phoenix_card, new_deck) = board.deck.remove_one_card_with_type::<UnicornPhoenix>().unwrap();
    let (unicorn_poison, new_deck) = new_deck.remove_one_card_with_type::<UnicornPoison>().unwrap();
    let (neigh, new_deck) = new_deck.remove_one_card_with_type::<Neigh>().unwrap();

    board.deck = new_deck;
    board.players[0].stable.push(phoenix_card);
    board.players[0].hand.push(neigh);
    board.players[1].hand.push(unicorn_poison);

    // first we play the phoenix card
    let mut game = Game::new(&board, true, None);

    // Start with playing poison.
    game.play_phase(1, 0).unwrap();
    assert!(game.graph.node_count() == 4);

    let mut save_edge = None;
    let mut save_node = None;
    let mut bfs = Bfs::new(&game.graph, NodeIndex::new(0));
    let mut skip_first = true;
    while let Some(nx) = bfs.next(&game.graph) {
        if skip_first {
            skip_first = false;
            continue;
        }

        let weight = game.graph.node_weight(nx).unwrap();
        assert!(weight.phase == PhaseType::React);
        let follow_up = &weight.react_metadata.as_ref().unwrap().follow_up;
        // Find the card that we care about.
        if follow_up.atype == ActionType::Destroy {
            let mut edges = game.graph.neighbors_directed(nx, Incoming).detach();
            while let Some(edge) = edges.next_edge(&game.graph) {
                save_node = Some(nx);
                save_edge = Some(edge);
            }
        }
    }

    assert!(save_edge.is_some());
    let save_edge = save_edge.unwrap();
    let save_node = save_node.unwrap();

    // Try to destroy our unicorn card.
    game.effect_phase(0, save_edge.index()).unwrap();

    // Verify the generated payload.
    let edge_count: Vec<_> = game.graph.edges(save_node).collect();
    assert!(edge_count.len() == 1);
}

#[test]
fn test_play_phase() {
    // We only test the code in the phase and not per-card logic.
    let mut board = Board::new_base_game(2);

    // Put a basic unicorn in hand to allow for playing in calculation.
    let (card, new_deck) = board.deck.remove_one_card_with_type::<BasicUnicorn>().unwrap();
    board.deck = new_deck;
    board.players[0].hand.push(card);

    let mut game = Game::new(&board, true, None);

    // We play which should have one neigh card to play.
    game.play_phase(0, 0).unwrap();

    // Two nodes, one start node, and one neigh play node.
    assert!(game.graph.node_count() >= 2);
    let gs: &GameState = game.graph.node_weight(NodeIndex::from(1)).unwrap();
    assert!(gs.board.discard.len() == 2);
    assert!(gs.board.players[0].stable.count_card::<BasicUnicorn>() == 1);
    assert!(gs.board.players[0].stable.count_card::<BabyUnicorn>() == 1);
}

#[test]
fn test_draw_phase() {
    let board = Board::new_base_game(2);
    let mut game = Game::new(&board, false, None);
    let deck_count = board.deck.len();

    game.draw_phase(0, 0).unwrap();
    assert!(game.graph.node_count() >= 2);

    for out_going in &game.graph.raw_nodes()[1..] {
        assert!(deck_count - out_going.weight.board.deck.len() == 1, "Should have only drawn one card.");
        assert!(out_going.weight.board.players[0].hand.len() == 1, "Should have one card in hand.");
    }

    for edge in game.graph.raw_edges() {
        assert!(edge.weight.atype == ActionType::Draw, "Should be draw.");
    }
}

#[test]
fn setup_gives_babies_and_discards_two() {
    let board = Board::new_base_game(3);
    let game = Game::new(&board, true, None);
    assert_eq!(game.node_count(), 1);
    let root = game.node_at(0);
    assert_eq!(root.phase, PhaseType::GameStart);
    assert!(root.react_metadata.is_none());
    for p in &root.board.players {
        assert_eq!(p.stable, vec![Card::BabyUnicorn]);
    }
    assert!(root.board.nursery.is_empty());
    assert_eq!(root.board.discard, vec![Card::UnicornPoison, Card::UnicornPoison]);
    assert_eq!(root.board.deck.len(), 8);
    assert_eq!(total_cards(&root.board), total_cards(&board));
}

#[test]
fn play_phase_scenario_basic_unicorn() {
    let mut board = Board::new_base_game(2);
    let (card, new_deck) = board.deck.remove_one_card_with_type::<BasicUnicorn>().unwrap();
    board.deck = new_deck;
    board.players[0].hand.push(card);
    let mut game = Game::new(&board, true, None);
    let start_discard = board.discard.len();
    game.play_phase(0, 0).unwrap();
    assert_eq!(game.node_count(), 2);
    let child = game.node_at(1);
    assert_eq!(child.phase, PhaseType::React);
    assert_eq!(child.board.discard.len(), start_discard + 2);
    assert_eq!(child.board.players[0].stable.count_card::<BasicUnicorn>(), 1);
    assert_eq!(child.board.players[0].stable.count_card::<BabyUnicorn>(), 1);
    // the card left the hand as it entered the stable
    assert!(child.board.players[0].hand.is_empty());
    assert_eq!(total_cards(&child.board), total_cards(&board));
    let out = game.edges_from(0);
    assert_eq!(out.len(), 1);
    assert_eq!(out[0].0, 1);
    assert_eq!(out[0].1.card, Card::BasicUnicorn);
    assert_eq!(out[0].1.atype, ActionType::Place);
}

#[test]
fn play_phase_skips_instants_and_keeps_follow_up() {
    let mut board = Board::new_base_game(2);
    board.players[0].hand = vec![Card::Neigh, Card::UnicornPoison, Card::SuperNeigh];
    board.players[1].stable = vec![Card::BasicUnicorn, Card::UnicornPhoenix];
    let mut game = Game::new(&board, false, None);
    game.play_phase(0, 0).unwrap();
    // one child per unicorn the poison can destroy, nothing for the instants
    assert_eq!(game.node_count(), 3);
    for i in 1..3 {
        let st = game.node_at(i);
        assert_eq!(st.board.players[0].hand, vec![Card::Neigh, Card::SuperNeigh]);
        assert_eq!(st.board.discard, vec![Card::UnicornPoison]);
        let md = st.react_metadata.as_ref().unwrap();
        assert_eq!(md.follow_up.atype, ActionType::Destroy);
        assert_eq!(md.response, vec![1]);
        assert_eq!(total_cards(&st.board), total_cards(&board));
    }
    assert_eq!(game.node_at(1).react_metadata.as_ref().unwrap().follow_up.card, Card::BasicUnicorn);
    assert_eq!(game.node_at(2).react_metadata.as_ref().unwrap().follow_up.card, Card::UnicornPhoenix);
}

#[test]
fn effect_phase_after_draw_adds_only_noop() {
    let mut board = Board::new_base_game(2);
    board.players[0].hand = vec![Card::Neigh, Card::BasicUnicorn];
    board.players[1].stable = vec![Card::UnicornPhoenix];
    board.discard = vec![Card::UnicornPhoenix];
    let mut game = Game::new(&board, false, None);
    game.draw_phase(0, 0).unwrap();
    // edge 0 is a Draw, not a destruction: the Phoenix does not revive
    game.effect_phase(0, 0).unwrap();
    assert_eq!(game.node_count(), 3);
    let out = game.edges_from(1);
    assert_eq!(out.len(), 1);
    assert_eq!(out[0].0, 2);
    assert_eq!(out[0].1.atype, ActionType::NoOp);
    assert_eq!(out[0].1.card, Card::UnicornPoison);
    let noop = game.node_at(2);
    assert_eq!(noop.phase, PhaseType::React);
    assert_eq!(noop.board.players[0].hand, game.node_at(1).board.players[0].hand);
}

#[test]
fn effect_phase_after_poison_adds_only_noop() {
    let mut board = Board::new_base_game(2);
    board.players[0].stable = vec![Card::UnicornPhoenix];
    board.players[0].hand = vec![Card::UnicornPoison];
    let mut game = Game::new(&board, false, None);
    game.play_phase(0, 0).unwrap();
    assert_eq!(game.node_count(), 2);
    let before_nodes = game.node_count();
    // The effect pass over node 1 sees a Poison discard: nothing fails, only the NoOp child.
    game.effect_phase(0, 0).unwrap();
    assert_eq!(game.node_count(), before_nodes + 1);
    let out = game.edges_from(1);
    assert_eq!(out.len(), 1);
    assert_eq!(out[0].1.atype, ActionType::NoOp);
    assert_eq!(out[0].1.card, Card::UnicornPoison);
}

#[test]
fn draw_phase_on_empty_deck_adds_nothing() {
    let mut board = Board::new_base_game(2);
    board.deck.clear();
    let mut game = Game::new(&board, false, None);
    assert!(matches!(game.draw_phase(0, 0), Err(LogicError::DeckEmpty)));
    assert_eq!(game.node_count(), 1);
    assert!(game.edges_from(0).is_empty());
}

#[test]
fn draw_phase_moves_top_card_to_hand() {
    let board = Board::new_base_game(2);
    let mut game = Game::new(&board, false, None);
    game.draw_phase(1, 0).unwrap();
    let child = game.node_at(1);
    assert_eq!(child.board.players[1].hand, vec![Card::UnicornPoison]);
    assert_eq!(child.phase, PhaseType::React);
    assert_eq!(game.edges_from(0)[0].1.card, Card::UnicornPoison);
    assert_eq!(total_cards(&child.board), total_cards(&board));
}

#[test]
fn same_seed_same_draws() {
    let board = Board::new_base_game(2);
    let seed = [7u8; 32];
    let mut a = Game::new(&board, true, Some(seed));
    let mut b = Game::new(&board, true, Some(seed));
    for step in 0..5 {
        a.draw_phase(step % 2, step).unwrap();
        b.draw_phase(step % 2, step).unwrap();
    }
    let ca: Vec<Card> = a.graph.raw_edges().iter().map(|e| e.weight.card).collect();
    let cb: Vec<Card> = b.graph.raw_edges().iter().map(|e| e.weight.card).collect();
    assert_eq!(ca, cb);
    assert_eq!(a.node_at(0).board.deck, b.node_at(0).board.deck);
    assert_eq!(a.node_at(0).board.nursery, b.node_at(0).board.nursery);
}

#[test]
fn seed_shuffles_deck_keeping_its_cards() {
    let board = Board::new_base_game(2);
    let mut differs = false;
    for s in 0u8..4 {
        let game = Game::new(&board, false, Some([s; 32]));
        let deck = &game.node_at(0).board.deck;
        let mut sorted_new: Vec<String> = deck.iter().map(|c| c.name().to_string()).collect();
        let mut sorted_old: Vec<String> = board.deck.iter().map(|c| c.name().to_string()).collect();
        sorted_new.sort();
        sorted_old.sort();
        assert_eq!(sorted_new, sorted_old);
        if deck != &board.deck {
            differs = true;
        }
    }
    assert!(differs);
    let plain = Game::new(&board, false, None);
    assert_eq!(plain.node_at(0).board.deck, board.deck);
}

#[test]
fn card_count_kept_through_phases() {
    let mut board = Board::new_base_game(2);
    board.players[0].hand = vec![Card::UnicornPoison, Card::BasicUnicorn];
    board.players[1].stable = vec![Card::UnicornPhoenix];
    let start = total_cards(&board);
    let mut game = Game::new(&board, true, Some([3u8; 32]));
    game.draw_phase(0, 0).unwrap();
    game.play_phase(0, 1).unwrap();
    let edges = game.graph.edge_count();
    for e in 0..edges {
        game.effect_phase(1, e).unwrap();
    }
    for i in 0..game.node_count() {
        assert_eq!(total_cards(&game.node_at(i).board), start);
    }
}

#[test]
fn path_to_lists_actions_from_root() {
    let board = Board::new_base_game(2);
    let mut game = Game::new(&board, false, None);
    game.draw_phase(0, 0).unwrap();
    game.draw_phase(1, 1).unwrap();
    assert!(game.path_to(0).is_empty());
    let path = game.path_to(2);
    assert_eq!(path.len(), 2);
    assert_eq!(path[0].card, Card::UnicornPoison);
    assert_eq!(path[0].atype, ActionType::Draw);
    assert_eq!(path[0].board.players[0].hand, vec![Card::UnicornPoison]);
    assert_eq!(path[1].card, Card::UnicornPoison);
    assert_eq!(path[1].board.players[1].hand, vec![Card::UnicornPoison]);
    assert_eq!(path[1].board.deck.len(), 8);
    // a deeper effect pass still adds only the NoOp child
    game.effect_phase(0, 1).unwrap();
    assert_eq!(game.edges_from(2).len(), 1);
}
