//! The state-graph builder: one method per phase, each appending the
//! continuations of one node.

use vstd::prelude::*;

use petgraph::graph::Graph;

use crate::cards::{
    count_of, lemma_count_of_multiset, lemma_first_index, without_first, BabyUnicorn, Card,
    QueryCards,
};
use crate::graph::{
    add_action_edge, add_state, edge_at, edge_count, graph_edges, graph_nodes, new_graph,
    node_count, state_at, INDEX_END,
};
use crate::rules::{
    effect_spec, lemma_effect_total, lemma_play_total, play_spec, playable_phases,
};
use crate::shuffle::{seeded_orders, shuffle_zones};
use crate::state::{
    history_view, lemma_total_moves, reactions_view, Action, ActionType, ActionView, Board,
    BoardView, GameState, GameStateView, History, LogicError, PhaseType, PlayerView, ReactAction,
    ReactActionView,
};

verus! {

/// The label of an edge: the card at the centre of the action and what was
/// done.
#[derive(Clone, Copy, Debug, PartialEq, Eq, Structural)]
pub struct ActionEdge {
    pub card: Card,
    pub atype: ActionType,
}

impl ActionEdge {
    /// The label of `value`.
    pub fn from(value: &Action) -> (r: ActionEdge)
        ensures
            r == (ActionEdge { card: value.card, atype: value.atype }),
    {
        ActionEdge { card: value.card, atype: value.atype }
    }
}

/// The graph as a whole: node states by index, and edges as (source,
/// target, label) by index.
#[verifier::ext_equal]
pub struct GraphView {
    pub nodes: Seq<GameStateView>,
    pub edges: Seq<(nat, nat, ActionEdge)>,
}

impl GraphView {
    /// A tree grown from node 0: edge `k` leads from an older node to node
    /// `k + 1`, so no path returns to a node; and every node holds as many
    /// cards as the root.
    pub open spec fn wf(self) -> bool {
        &&& 1 <= self.nodes.len() <= INDEX_END
        &&& self.edges.len() + 1 == self.nodes.len()
        &&& forall|k: int|
            0 <= k < self.edges.len() ==> (#[trigger] self.edges[k]).1 == k + 1 && self.edges[k].0
                <= k
        &&& forall|i: int|
            0 <= i < self.nodes.len() ==> (#[trigger] self.nodes[i]).board.total_cards()
                == self.nodes[0].board.total_cards()
    }

    /// `other` keeps every node and edge of this graph, under the same index.
    pub open spec fn grows_into(self, other: GraphView) -> bool {
        &&& self.nodes.len() <= other.nodes.len()
        &&& self.edges.len() <= other.edges.len()
        &&& forall|i: int| 0 <= i < self.nodes.len() ==> other.nodes[i] == #[trigger] self.nodes[i]
        &&& forall|k: int| 0 <= k < self.edges.len() ==> other.edges[k] == #[trigger] self.edges[k]
    }

    /// A new node holding `s`, reached from `parent` by an edge labelled `e`.
    pub open spec fn with_child(self, parent: nat, s: GameStateView, e: ActionEdge) -> GraphView {
        GraphView { nodes: self.nodes.push(s), edges: self.edges.push((parent, self.nodes.len(), e)) }
    }

    /// The children `cs` of `parent`, added in order.
    pub open spec fn with_children(self, parent: nat, cs: Seq<(GameStateView, ActionEdge)>) -> GraphView
        decreases cs.len(),
    {
        if cs.len() == 0 {
            self
        } else {
            self.with_children(parent, cs.drop_last()).with_child(parent, cs.last().0, cs.last().1)
        }
    }
}

/// The child that a reaction makes: its board, in the react phase, owing
/// its follow-up; the edge carries its action.
pub open spec fn reaction_child(r: ReactActionView) -> (GameStateView, ActionEdge) {
    (
        GameStateView {
            board: r.effect_action.board,
            phase: PhaseType::React,
            react_metadata: r.metadata(),
        },
        ActionEdge { card: r.effect_action.card, atype: r.effect_action.atype },
    )
}

/// The children that reactions make, in order.
pub open spec fn reaction_children(rs: Seq<ReactActionView>) -> Seq<(GameStateView, ActionEdge)> {
    rs.map_values(|r: ReactActionView| reaction_child(r))
}

/// Children that hold as many cards as the root keep the graph well formed
/// and keep all it had; `parent` gains one edge per child, and no NoOp edge
/// unless a child's label is one.
pub(crate) proof fn lemma_with_children(g: GraphView, parent: nat, cs: Seq<(GameStateView, ActionEdge)>)
    requires
        g.wf(),
        parent < g.nodes.len(),
        g.nodes.len() + cs.len() <= INDEX_END,
        forall|j: int|
            0 <= j < cs.len() ==> (#[trigger] cs[j]).0.board.total_cards()
                == g.nodes[0].board.total_cards(),
    ensures
        g.with_children(parent, cs).wf(),
        g.grows_into(g.with_children(parent, cs)),
        g.with_children(parent, cs).nodes.len() == g.nodes.len() + cs.len(),
        out_edges(g.with_children(parent, cs).edges, parent).len() == out_edges(g.edges, parent).len()
            + cs.len(),
        (forall|j: int| 0 <= j < cs.len() ==> (#[trigger] cs[j]).1.atype != ActionType::NoOp)
            ==> noop_count(out_edges(g.with_children(parent, cs).edges, parent)) == noop_count(
            out_edges(g.edges, parent),
        ),
    decreases cs.len(),
{
    if cs.len() > 0 {
        let init = cs.drop_last();
        assert forall|j: int| 0 <= j < init.len() implies (#[trigger] init[j]).0.board.total_cards()
            == g.nodes[0].board.total_cards() by {
            assert(init[j] == cs[j]);
        }
        lemma_with_children(g, parent, init);
        let h = g.with_children(parent, init);
        let h2 = h.with_child(parent, cs.last().0, cs.last().1);
        assert(h2.edges.drop_last() =~= h.edges);
        let out = out_edges(h2.edges, parent);
        assert(out.drop_last() =~= out_edges(h.edges, parent));
        if forall|j: int| 0 <= j < cs.len() ==> (#[trigger] cs[j]).1.atype != ActionType::NoOp {
            assert forall|j: int| 0 <= j < init.len() implies (#[trigger] init[j]).1.atype
                != ActionType::NoOp by {
                assert(init[j] == cs[j]);
            }
            assert(cs[cs.len() - 1].1.atype != ActionType::NoOp);
        }
    }
}

/// The state that drawing for `player` at a node leaves: the top card of
/// the deck moved into the player's hand.
pub open spec fn drawn_board(b: BoardView, player: int) -> BoardView {
    BoardView { deck: b.deck.drop_last(), ..b }.handed(player, b.deck.last())
}

/// The graph after a draw for `player` at node `idx`.
pub open spec fn draw_step(g: GraphView, player: int, idx: nat) -> Result<GraphView, LogicError> {
    let b = g.nodes[idx as int].board;
    if b.deck.len() == 0 {
        Err(LogicError::DeckEmpty)
    } else {
        Ok(
            g.with_child(
                idx,
                GameStateView { board: drawn_board(b, player), phase: PhaseType::React, react_metadata: None },
                ActionEdge { card: b.deck.last(), atype: ActionType::Draw },
            ),
        )
    }
}

/// The reactions of playing each of the first `k` cards of `player`'s hand
/// that can be played in the play phase, each on `b` without that card.
pub open spec fn hand_plays(b: BoardView, player: int, k: nat) -> Seq<ReactActionView>
    decreases k,
{
    if k == 0 {
        Seq::empty()
    } else {
        let c = b.players[player].hand[k - 1];
        hand_plays(b, player, (k - 1) as nat) + if playable_phases(c.spec_ctype()).contains(
            PhaseType::Play,
        ) {
            play_spec(c, player, b.without_hand_card(player, k - 1))
        } else {
            Seq::empty()
        }
    }
}

/// The reactions of the whole play phase for `player` on `b`.
pub open spec fn play_reactions(b: BoardView, player: int) -> Seq<ReactActionView> {
    hand_plays(b, player, b.players[player].hand.len())
}

/// The graph after the play phase for `player` at node `idx`.
pub open spec fn play_step(g: GraphView, player: int, idx: nat) -> GraphView {
    g.with_children(idx, reaction_children(play_reactions(g.nodes[idx as int].board, player)))
}

/// Every card in the hands and stables of `ps`, seat by seat, hand first.
pub open spec fn zone_cards(ps: Seq<PlayerView>) -> Seq<Card>
    decreases ps.len(),
{
    if ps.len() == 0 {
        Seq::empty()
    } else {
        zone_cards(ps.drop_last()) + ps.last().hand + ps.last().stable
    }
}

/// What the effects of `cards`, in order, trigger; the first failure ends it.
pub open spec fn effects_of(cards: Seq<Card>, player: int, b: BoardView, h: Seq<ActionView>) -> Result<
    Seq<ReactActionView>,
    LogicError,
>
    decreases cards.len(),
{
    if cards.len() == 0 {
        Ok(Seq::empty())
    } else {
        match effect_spec(cards[0], player, b, h) {
            Err(e) => Err(e),
            Ok(first) => prepend(first, effects_of(cards.drop_first(), player, b, h)),
        }
    }
}

/// `a` in front of a result that succeeded; a failure stays as it is.
pub open spec fn prepend(a: Seq<ReactActionView>, r: Result<Seq<ReactActionView>, LogicError>) -> Result<
    Seq<ReactActionView>,
    LogicError,
> {
    match r {
        Ok(rest) => Ok(a + rest),
        Err(e) => Err(e),
    }
}

/// The actions on the path from the root to `node`, oldest first, each on
/// the board of the node it reached. In a well-formed graph edge `node - 1`
/// is the one edge into `node`, and it comes from an older node.
pub open spec fn path_history(g: GraphView, node: nat) -> Seq<ActionView>
    decreases node,
{
    if node == 0 || node > g.edges.len() {
        Seq::empty()
    } else {
        let e = g.edges[node - 1];
        if e.0 < node {
            path_history(g, e.0).push(
                ActionView { card: e.2.card, atype: e.2.atype, board: g.nodes[node as int].board },
            )
        } else {
            Seq::empty()
        }
    }
}

/// What an effect pass for `player` over the target of edge `a` triggers.
pub open spec fn effect_reactions(g: GraphView, player: int, a: int) -> Result<
    Seq<ReactActionView>,
    LogicError,
> {
    let b = g.nodes[g.edges[a].1 as int].board;
    effects_of(zone_cards(b.players), player, b, path_history(g, g.edges[a].1))
}

/// The graph after the effect phase for `player` over the target of edge
/// `a`: a child per triggered reaction, then the child where nobody reacts.
pub open spec fn effect_step(g: GraphView, player: int, a: int) -> Result<GraphView, LogicError> {
    let node = g.edges[a].1;
    let b = g.nodes[node as int].board;
    match effect_reactions(g, player, a) {
        Err(e) => Err(e),
        Ok(rs) => Ok(
            g.with_children(node, reaction_children(rs)).with_child(
                node,
                GameStateView { board: b, phase: PhaseType::React, react_metadata: None },
                ActionEdge { card: g.edges[a].2.card, atype: ActionType::NoOp },
            ),
        ),
    }
}

/// How many nodes the effect phase adds.
pub open spec fn effect_growth(g: GraphView, player: int, a: int) -> nat {
    match effect_reactions(g, player, a) {
        Ok(rs) => rs.len() + 1,
        Err(_) => 0,
    }
}

pub(crate) proof fn lemma_hand_plays_total(b: BoardView, player: int, k: nat)
    requires
        0 <= player < b.players.len(),
        k <= b.players[player].hand.len(),
    ensures
        forall|j: int|
            0 <= j < hand_plays(b, player, k).len() ==> (#[trigger] hand_plays(b, player, k)[j]).effect_action.board.total_cards()
                == b.total_cards(),
    decreases k,
{
    if k > 0 {
        lemma_hand_plays_total(b, player, (k - 1) as nat);
        let c = b.players[player].hand[k - 1];
        lemma_total_moves(b, player, k - 1, c);
        lemma_play_total(c, player, b.without_hand_card(player, k - 1));
    }
}

pub(crate) proof fn lemma_effects_total(cards: Seq<Card>, player: int, b: BoardView, h: Seq<ActionView>)
    requires
        0 <= player < b.players.len(),
    ensures
        effects_of(cards, player, b, h) matches Ok(rs) ==> forall|j: int|
            0 <= j < rs.len() ==> (#[trigger] rs[j]).effect_action.board.total_cards()
                == b.total_cards() && rs[j].effect_action.atype == ActionType::Revive,
    decreases cards.len(),
{
    if cards.len() > 0 {
        lemma_effects_total(cards.drop_first(), player, b, h);
        lemma_effect_total(cards[0], player, b, h);
    }
}

/// The seed as a sequence of bytes.
pub open spec fn seed_view(seed: Option<[u8; 32]>) -> Option<Seq<u8>> {
    match seed {
        Some(s) => Some(s@),
        None => None,
    }
}

/// The board with its deck and nursery shuffled by `seed`, if there is one.
pub open spec fn shuffled(b: BoardView, seed: Option<Seq<u8>>) -> BoardView {
    match seed {
        Some(s) => BoardView {
            deck: seeded_orders(s, b.deck, b.nursery).0,
            nursery: seeded_orders(s, b.deck, b.nursery).1,
            ..b
        },
        None => b,
    }
}

/// The first `n` seats each given the first Baby Unicorn left in the nursery.
pub open spec fn babies_given(b: BoardView, n: nat) -> BoardView
    decreases n,
{
    if n == 0 {
        b
    } else {
        let prev = babies_given(b, (n - 1) as nat);
        BoardView { nursery: without_first(prev.nursery, Card::BabyUnicorn), ..prev }.placed(
            n - 1,
            Card::BabyUnicorn,
        )
    }
}

/// The opening every game makes: a Baby Unicorn into each stable, then the
/// two top cards of the deck onto the discard pile.
pub open spec fn set_up(b: BoardView) -> BoardView {
    let g = babies_given(b, b.players.len());
    BoardView {
        deck: g.deck.drop_last().drop_last(),
        discard: g.discard.push(g.deck.last()).push(g.deck.drop_last().last()),
        ..g
    }
}

/// Whether the opening can be made: a Baby Unicorn for each seat and two
/// cards in the deck.
pub open spec fn can_set_up(b: BoardView) -> bool {
    b.deck.len() >= 2 && count_of(b.nursery, Card::BabyUnicorn) >= b.players.len()
}

pub open spec fn start_board(b: BoardView, setup: bool, seed: Option<Seq<u8>>) -> BoardView {
    if setup {
        set_up(shuffled(b, seed))
    } else {
        shuffled(b, seed)
    }
}

/// The graph a game starts with: the root alone.
pub open spec fn initial_graph(b: BoardView, setup: bool, seed: Option<Seq<u8>>) -> GraphView {
    GraphView {
        nodes: seq![
            GameStateView {
                board: start_board(b, setup, seed),
                phase: PhaseType::GameStart,
                react_metadata: None,
            },
        ],
        edges: Seq::empty(),
    }
}

/// The edges leaving `node`, in index order, as (target, label).
pub open spec fn out_edges(es: Seq<(nat, nat, ActionEdge)>, node: nat) -> Seq<(nat, ActionEdge)>
    decreases es.len(),
{
    if es.len() == 0 {
        Seq::empty()
    } else {
        out_edges(es.drop_last(), node) + if es.last().0 == node {
            seq![(es.last().1, es.last().2)]
        } else {
            Seq::empty()
        }
    }
}

/// How many of the edges leaving `node` are NoOp edges.
pub open spec fn noop_count(out: Seq<(nat, ActionEdge)>) -> nat
    decreases out.len(),
{
    if out.len() == 0 {
        0
    } else {
        noop_count(out.drop_last()) + if out.last().1.atype == ActionType::NoOp {
            1nat
        } else {
            0nat
        }
    }
}

/// The graph of every continuation explored so far.
pub struct Game {
    pub graph: Graph<GameState, ActionEdge>,
}

impl View for Game {
    type V = GraphView;

    open spec fn view(&self) -> GraphView {
        GraphView { nodes: graph_nodes(self.graph), edges: graph_edges(self.graph) }
    }
}

/// Every card in the hands and stables of the board, seat by seat, hand
/// first.
fn zone_card_list(board: &Board) -> (r: Vec<Card>)
    ensures
        r@ == zone_cards(board@.players),
{
    let mut r: Vec<Card> = Vec::new();
    let mut p: usize = 0;
    while p < board.players.len()
        invariant
            p <= board@.players.len(),
            r@ == zone_cards(board@.players.take(p as int)),
        decreases board.players.len() - p,
    {
        let mut hand = board.players[p].hand.clone();
        let mut stable = board.players[p].stable.clone();
        r.append(&mut hand);
        r.append(&mut stable);
        p = p + 1;
        assert(board@.players.take(p as int).drop_last() =~= board@.players.take(p - 1));
    }
    assert(board@.players.take(p as int) =~= board@.players);
    r
}

impl Game {
    /// Adds one child of `parent` per reaction, in order.
    fn attach(&mut self, parent: usize, reactions: &Vec<ReactAction>)
        requires
            old(self)@.wf(),
            parent < old(self)@.nodes.len(),
            old(self)@.nodes.len() + reactions@.len() <= INDEX_END,
            forall|j: int|
                0 <= j < reactions@.len() ==> (#[trigger] reactions@[j])@.effect_action.board.total_cards()
                    == old(self)@.nodes[0].board.total_cards(),
        ensures
            final(self)@ == old(self)@.with_children(
                parent as nat,
                reaction_children(reactions_view(reactions@)),
            ),
    {
        let ghost g0 = self@;
        let ghost cs = reaction_children(reactions_view(reactions@));
        let mut i: usize = 0;
        while i < reactions.len()
            invariant
                g0.wf(),
                parent < g0.nodes.len(),
                g0.nodes.len() + reactions@.len() <= INDEX_END,
                cs == reaction_children(reactions_view(reactions@)),
                forall|j: int|
                    0 <= j < reactions@.len() ==> (#[trigger] reactions@[j])@.effect_action.board.total_cards()
                        == g0.nodes[0].board.total_cards(),
                i <= reactions@.len(),
                self@ == g0.with_children(parent as nat, cs.take(i as int)),
            decreases reactions.len() - i,
        {
            proof {
                let part = cs.take(i as int);
                assert forall|j: int| 0 <= j < part.len() implies (#[trigger] part[j]).0.board.total_cards()
                    == g0.nodes[0].board.total_cards() by {
                    assert(part[j] == cs[j]);
                    assert(reactions@[j]@ == reactions_view(reactions@)[j]);
                }
                lemma_with_children(g0, parent as nat, part);
            }
            let ra = &reactions[i];
            let state = GameState {
                board: ra.effect_action.board.clone(),
                phase: PhaseType::React,
                react_metadata: ra.metadata(),
            };
            let b = add_state(&mut self.graph, state);
            add_action_edge(&mut self.graph, parent, b, ActionEdge::from(&ra.effect_action));
            i = i + 1;
            proof {
                assert(cs.take(i as int).drop_last() =~= cs.take(i - 1));
                assert(cs.take(i as int).last() == cs[i - 1]);
                assert(reactions@[i - 1]@ == reactions_view(reactions@)[i - 1]);
                assert(self@ =~= g0.with_children(parent as nat, cs.take(i as int)));
            }
        }
        assert(cs.take(i as int) =~= cs);
    }

    /// A game whose root holds `board`, its deck and nursery first shuffled
    /// by `seed` if one is given, and, with `setup`, the opening made: a Baby
    /// Unicorn from the nursery into each stable, and the two top cards of the
    /// deck onto the discard pile.
    pub fn new(board: &Board, setup: bool, seed: Option<[u8; 32]>) -> (r: Game)
        requires
            setup ==> can_set_up(board@),
        ensures
            r@ == initial_graph(board@, setup, seed_view(seed)),
            r@.wf(),
            r@.nodes[0].board.total_cards() == board@.total_cards(),
    {
        let mut new_board = board.clone();
        match seed {
            Some(s) => {
                shuffle_zones(s, &mut new_board.deck, &mut new_board.nursery);
            },
            None => {},
        }
        let ghost mixed = new_board@;
        proof {
            assert(mixed =~= shuffled(board@, seed_view(seed)));
            board@.deck.to_multiset_ensures();
            board@.nursery.to_multiset_ensures();
            mixed.deck.to_multiset_ensures();
            mixed.nursery.to_multiset_ensures();
            lemma_count_of_multiset(board@.nursery, Card::BabyUnicorn);
        }
        if setup {
            let mut idx: usize = 0;
            while idx < new_board.players.len()
                invariant
                    idx <= new_board@.players.len(),
                    new_board@.players.len() == mixed.players.len(),
                    new_board@ == babies_given(mixed, idx as nat),
                    new_board@.deck == mixed.deck,
                    new_board@.nursery.to_multiset().count(Card::BabyUnicorn) + idx
                        >= mixed.players.len(),
                    new_board@.total_cards() == board@.total_cards(),
                decreases mixed.players.len() - idx,
            {
                let ghost before = new_board@;
                proof {
                    before.nursery.to_multiset_ensures();
                }
                match new_board.nursery.remove_one_card_with_type::<BabyUnicorn>() {
                    Some((baby, rest)) => {
                        proof {
                            lemma_first_index(before.nursery, Card::BabyUnicorn);
                            let lifted = BoardView { nursery: rest@, ..before };
                            lemma_total_moves(lifted, idx as int, 0, baby);
                        }
                        new_board.nursery = rest;
                        new_board.push_stable(idx, baby);
                    },
                    None => {},
                }
                idx = idx + 1;
            }
            let one = new_board.deck.pop().unwrap();
            let two = new_board.deck.pop().unwrap();
            new_board.discard.push(one);
            new_board.discard.push(two);
            assert(new_board@ =~= set_up(mixed));
        }
        let root = GameState { board: new_board, phase: PhaseType::GameStart, react_metadata: None };
        let mut graph = new_graph();
        add_state(&mut graph, root);
        let r = Game { graph };
        assert(r@ =~= initial_graph(board@, setup, seed_view(seed)));
        r
    }

    /// Draws for `player` at node `idx`: one child whose board has the top
    /// card of the deck moved into the player's hand, reached by a Draw edge.
    /// Fails with `DeckEmpty`, adding nothing, where the deck is empty.
    pub fn draw_phase(&mut self, player: usize, idx: usize) -> (r: Result<(), LogicError>)
        requires
            old(self)@.wf(),
            idx < old(self)@.nodes.len(),
            player < old(self)@.nodes[idx as int].board.players.len(),
            old(self)@.nodes.len() < INDEX_END,
        ensures
            match draw_step(old(self)@, player as int, idx as nat) {
                Ok(g) => r is Ok && final(self)@ == g,
                Err(e) => r == Err::<(), LogicError>(e) && final(self)@ == old(self)@,
            },
            final(self)@.wf(),
            old(self)@.grows_into(final(self)@),
    {
        let ghost g0 = self@;
        let cur = state_at(&self.graph, idx);
        let drawn = cur.board.draw();
        match drawn {
            Err(e) => Err(e),
            Ok(None) => Err(LogicError::Unknown),
            Ok(Some(action)) => {
                let mut board_copy = action.board;
                board_copy.push_hand(player, action.card);
                let ghost b = g0.nodes[idx as int].board;
                proof {
                    let lifted = BoardView { deck: b.deck.drop_last(), ..b };
                    lemma_total_moves(lifted, player as int, 0, b.deck.last());
                    assert(board_copy@ == drawn_board(b, player as int));
                }
                let new_node = GameState {
                    board: board_copy,
                    phase: PhaseType::React,
                    react_metadata: None,
                };
                let b_idx = add_state(&mut self.graph, new_node);
                add_action_edge(
                    &mut self.graph,
                    idx,
                    b_idx,
                    ActionEdge { card: action.card, atype: ActionType::Draw },
                );
                assert(self@ =~= draw_step(g0, player as int, idx as nat)->Ok_0);
                Ok(())
            },
        }
    }

    /// The actions on the path from the root to node `node`, oldest first.
    pub fn path_to(&self, node: usize) -> (r: History)
        requires
            self@.wf(),
            node < self@.nodes.len(),
        ensures
            history_view(r@) == path_history(self@, node as nat),
    {
        let mut r: History = Vec::new();
        let mut cur: usize = node;
        while cur > 0
            invariant
                self@.wf(),
                cur <= node < self@.nodes.len(),
                path_history(self@, node as nat) == path_history(self@, cur as nat) + history_view(r@),
            decreases cur,
        {
            let (source, _target, label) = edge_at(&self.graph, cur - 1);
            let board = state_at(&self.graph, cur).board.clone();
            let ghost before = r@;
            r.insert(0, Action { card: label.card, atype: label.atype, board });
            proof {
                let step = ActionView { card: label.card, atype: label.atype, board: self@.nodes[cur as int].board };
                assert(history_view(r@) =~= seq![step] + history_view(before));
                assert(path_history(self@, cur as nat) == path_history(self@, source as nat).push(step));
                assert(path_history(self@, source as nat).push(step) + history_view(before)
                    =~= path_history(self@, source as nat) + history_view(r@));
            }
            cur = source;
        }
        assert(path_history(self@, 0) + history_view(r@) =~= history_view(r@));
        r
    }

    /// The play phase for `player` at node `idx`: each card of the hand
    /// that can be played in the play phase is played on a copy of the board
    /// without it, with the path from the root as the history, and each
    /// resulting reaction becomes a child in the react phase, owing the
    /// reaction's follow-up if it has one.
    pub fn play_phase(&mut self, player: usize, idx: usize) -> (r: Result<(), LogicError>)
        requires
            old(self)@.wf(),
            idx < old(self)@.nodes.len(),
            player < old(self)@.nodes[idx as int].board.players.len(),
            old(self)@.nodes.len() + play_reactions(
                old(self)@.nodes[idx as int].board,
                player as int,
            ).len() <= INDEX_END,
        ensures
            r is Ok,
            final(self)@ == play_step(old(self)@, player as int, idx as nat),
            final(self)@.wf(),
            old(self)@.grows_into(final(self)@),
    {
        let ghost g0 = self@;
        let cur = state_at(&self.graph, idx);
        let board = cur.board.clone();
        let phase = cur.phase;
        let ghost b = board@;
        let history = self.path_to(idx);
        let mut reactions: Vec<ReactAction> = Vec::new();
        let mut h_idx: usize = 0;
        while h_idx < board.players[player].hand.len()
            invariant
                b == board@,
                b == g0.nodes[idx as int].board,
                g0.wf(),
                idx < g0.nodes.len(),
                player < b.players.len(),
                h_idx <= b.players[player as int].hand.len(),
                reactions_view(reactions@) == hand_plays(b, player as int, h_idx as nat),
            decreases b.players[player as int].hand.len() - h_idx,
        {
            let card = board.players[player].hand[h_idx];
            let ghost before = reactions@;
            if card.playable_in(PhaseType::Play) {
                let mut board_copy = board.clone();
                board_copy.remove_hand(player, h_idx);
                let state = GameState::new(&board_copy, &phase);
                match card.play(player, &state, &history) {
                    Ok(mut played) => {
                        let ghost more = played@;
                        reactions.append(&mut played);
                        assert(reactions_view(reactions@) =~= reactions_view(before)
                            + reactions_view(more));
                    },
                    Err(e) => {
                        return Err(e);
                    },
                }
            } else {
                assert(reactions_view(reactions@) =~= hand_plays(b, player as int, (h_idx + 1) as nat));
            }
            h_idx = h_idx + 1;
        }
        proof {
            lemma_hand_plays_total(b, player as int, b.players[player as int].hand.len());
            let cs = reaction_children(reactions_view(reactions@));
            assert forall|j: int| 0 <= j < reactions@.len() implies (#[trigger] reactions@[j])@.effect_action.board.total_cards()
                == g0.nodes[0].board.total_cards() by {
                assert(reactions@[j]@ == reactions_view(reactions@)[j]);
            }
            lemma_with_children(g0, idx as nat, cs);
        }
        self.attach(idx, &reactions);
        Ok(())
    }

    /// The effect phase for `player` over the node that edge `a_idx` reached:
    /// every card in every hand and stable there, seat by seat, is asked for
    /// its effect, with the actions on the path from the root to that node
    /// as the history, the edge's own action last; each triggered
    /// reaction becomes a child, and one more child, reached by a NoOp edge,
    /// stands for nobody reacting. A card's failure is returned with nothing
    /// added.
    pub fn effect_phase(&mut self, player: usize, a_idx: usize) -> (r: Result<(), LogicError>)
        requires
            old(self)@.wf(),
            a_idx < old(self)@.edges.len(),
            player < old(self)@.nodes[old(self)@.edges[a_idx as int].1 as int].board.players.len(),
            old(self)@.nodes.len() + effect_growth(old(self)@, player as int, a_idx as int)
                <= INDEX_END,
        ensures
            match effect_step(old(self)@, player as int, a_idx as int) {
                Ok(g) => r is Ok && final(self)@ == g,
                Err(e) => r == Err::<(), LogicError>(e) && final(self)@ == old(self)@,
            },
            final(self)@.wf(),
            old(self)@.grows_into(final(self)@),
    {
        let ghost g0 = self@;
        let (_source, node_idx, edge_action) = edge_at(&self.graph, a_idx);
        let game_state = state_at(&self.graph, node_idx).clone();
        let ghost b = game_state.board@;
        let history = self.path_to(node_idx);
        let ghost h = history_view(history@);
        let cards = zone_card_list(&game_state.board);
        let mut reactions: Vec<ReactAction> = Vec::new();
        let mut i: usize = 0;
        assert(cards@.subrange(0, cards@.len() as int) =~= cards@);
        while i < cards.len()
            invariant
                self@ == g0,
                g0.wf(),
                a_idx < g0.edges.len(),
                node_idx == g0.edges[a_idx as int].1,
                edge_action == g0.edges[a_idx as int].2,
                b == g0.nodes[node_idx as int].board,
                h == path_history(g0, node_idx as nat),
                b == game_state.board@,
                h == history_view(history@),
                player < b.players.len(),
                cards@ == zone_cards(b.players),
                i <= cards@.len(),
                effects_of(cards@, player as int, b, h) == prepend(
                    reactions_view(reactions@),
                    effects_of(cards@.subrange(i as int, cards@.len() as int), player as int, b, h),
                ),
            decreases cards.len() - i,
        {
            let card = cards[i];
            let ghost rest = cards@.subrange(i as int, cards@.len() as int);
            assert(rest[0] == card);
            assert(rest.drop_first() =~= cards@.subrange(i + 1, cards@.len() as int));
            let ghost before = reactions@;
            match card.effect(player, &game_state, &history) {
                Ok(mut found) => {
                    let ghost more = found@;
                    reactions.append(&mut found);
                    proof {
                        assert(reactions_view(reactions@) =~= reactions_view(before) + reactions_view(more));
                        let tail = effects_of(cards@.subrange(i + 1, cards@.len() as int), player as int, b, h);
                        if tail is Ok {
                            assert(reactions_view(before) + (reactions_view(more) + tail->Ok_0)
                                =~= reactions_view(before) + reactions_view(more) + tail->Ok_0);
                        }
                    }
                },
                Err(e) => {
                    assert(effects_of(rest, player as int, b, h) == Err::<
                        Seq<ReactActionView>,
                        LogicError,
                    >(e));
                    return Err(e);
                },
            }
            i = i + 1;
        }
        proof {
            assert(cards@.subrange(i as int, cards@.len() as int) =~= Seq::<Card>::empty());
            assert(reactions_view(reactions@) + Seq::<ReactActionView>::empty() =~= reactions_view(reactions@));
            lemma_effects_total(cards@, player as int, b, h);
            let cs = reaction_children(reactions_view(reactions@));
            assert forall|j: int| 0 <= j < reactions@.len() implies (#[trigger] reactions@[j])@.effect_action.board.total_cards()
                == g0.nodes[0].board.total_cards() by {
                assert(reactions@[j]@ == reactions_view(reactions@)[j]);
            }
            lemma_with_children(g0, node_idx as nat, cs);
        }
        self.attach(node_idx, &reactions);
        let no_op = GameState { board: game_state.board, phase: PhaseType::React, react_metadata: None };
        let no_idx = add_state(&mut self.graph, no_op);
        add_action_edge(
            &mut self.graph,
            node_idx,
            no_idx,
            ActionEdge { card: edge_action.card, atype: ActionType::NoOp },
        );
        Ok(())
    }

    /// The number of states in the graph.
    pub fn node_count(&self) -> (r: usize)
        ensures
            r == self@.nodes.len(),
    {
        node_count(&self.graph)
    }

    /// The state at node `idx`.
    pub fn node_at(&self, idx: usize) -> (r: &GameState)
        requires
            idx < self@.nodes.len(),
        ensures
            r@ == self@.nodes[idx as int],
    {
        state_at(&self.graph, idx)
    }

    /// The edges leaving node `idx`, in the order they were added, as
    /// (target, label).
    pub fn edges_from(&self, idx: usize) -> (r: Vec<(usize, ActionEdge)>)
        ensures
            r@.map_values(|e: (usize, ActionEdge)| (e.0 as nat, e.1)) == out_edges(
                self@.edges,
                idx as nat,
            ),
    {
        let n = edge_count(&self.graph);
        let mut r: Vec<(usize, ActionEdge)> = Vec::new();
        let mut k: usize = 0;
        while k < n
            invariant
                n == self@.edges.len(),
                k <= n,
                r@.map_values(|e: (usize, ActionEdge)| (e.0 as nat, e.1)) == out_edges(
                    self@.edges.take(k as int),
                    idx as nat,
                ),
            decreases n - k,
        {
            let (source, target, label) = edge_at(&self.graph, k);
            let ghost before = r@;
            if source == idx {
                r.push((target, label));
            }
            k = k + 1;
            proof {
                assert(self@.edges.take(k as int).drop_last() =~= self@.edges.take(k - 1));
                assert(r@.map_values(|e: (usize, ActionEdge)| (e.0 as nat, e.1)) =~= out_edges(
                    self@.edges.take(k as int),
                    idx as nat,
                ));
            }
        }
        assert(self@.edges.take(n as int) =~= self@.edges);
        r
    }
}

} // verus!
