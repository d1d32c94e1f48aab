//! Properties that hold of every board and every graph the builder makes.

use vstd::prelude::*;

use crate::cards::Card;
use crate::game::{
    draw_step, drawn_board, path_history, effect_growth, effect_reactions, effect_step,
    initial_graph, lemma_effects_total, lemma_hand_plays_total, lemma_with_children, noop_count,
    out_edges, play_reactions, play_step, reaction_children, zone_cards, ActionEdge, GraphView,
};
use crate::graph::INDEX_END;
use crate::rules::{
    effect_spec, lemma_effect_total, lemma_play_total, neigh_reactions, play_spec, react_spec,
};
use crate::state::{lemma_total_moves, ActionType, ActionView, BoardView, LogicError};

verus! {

proof fn lemma_play_children(g: GraphView, player: int, idx: nat)
    requires
        g.wf(),
        idx < g.nodes.len(),
        0 <= player < g.nodes[idx as int].board.players.len(),
        g.nodes.len() + play_reactions(g.nodes[idx as int].board, player).len() <= INDEX_END,
    ensures
        play_step(g, player, idx).wf(),
        g.grows_into(play_step(g, player, idx)),
{
    let b = g.nodes[idx as int].board;
    let rs = play_reactions(b, player);
    lemma_hand_plays_total(b, player, b.players[player].hand.len());
    let cs = reaction_children(rs);
    assert forall|j: int| 0 <= j < cs.len() implies (#[trigger] cs[j]).0.board.total_cards()
        == g.nodes[0].board.total_cards() by {
        assert(rs[j].effect_action.board.total_cards() == b.total_cards());
    }
    lemma_with_children(g, idx, cs);
}

proof fn lemma_draw_child(g: GraphView, player: int, idx: nat)
    requires
        g.wf(),
        idx < g.nodes.len(),
        0 <= player < g.nodes[idx as int].board.players.len(),
        g.nodes.len() < INDEX_END,
    ensures
        draw_step(g, player, idx) matches Ok(g2) ==> g2.wf() && g.grows_into(g2),
{
    let b = g.nodes[idx as int].board;
    if b.deck.len() > 0 {
        let lifted = BoardView { deck: b.deck.drop_last(), ..b };
        lemma_total_moves(lifted, player, 0, b.deck.last());
        assert(drawn_board(b, player).total_cards() == b.total_cards());
    }
}

proof fn lemma_effect_children(g: GraphView, player: int, a: int)
    requires
        g.wf(),
        0 <= a < g.edges.len(),
        0 <= player < g.nodes[g.edges[a].1 as int].board.players.len(),
        g.nodes.len() + effect_growth(g, player, a) <= INDEX_END,
    ensures
        effect_step(g, player, a) matches Ok(g2) ==> g2.wf() && g.grows_into(g2),
        effect_reactions(g, player, a) matches Ok(rs) ==> {
            let node = g.edges[a].1;
            let g2 = effect_step(g, player, a)->Ok_0;
            &&& out_edges(g2.edges, node).len() == out_edges(g.edges, node).len() + rs.len() + 1
            &&& noop_count(out_edges(g2.edges, node)) == noop_count(out_edges(g.edges, node)) + 1
        },
{
    let node = g.edges[a].1;
    let b = g.nodes[node as int].board;
    if effect_reactions(g, player, a) is Ok {
        let rs = effect_reactions(g, player, a)->Ok_0;
        lemma_effects_total(zone_cards(b.players), player, b, path_history(g, g.edges[a].1));
        let cs = reaction_children(rs);
        assert forall|j: int| 0 <= j < cs.len() implies (#[trigger] cs[j]).0.board.total_cards()
            == g.nodes[0].board.total_cards() && cs[j].1.atype != ActionType::NoOp by {
            assert(rs[j].effect_action.board.total_cards() == b.total_cards());
        }
        lemma_with_children(g, node, cs);
        let h = g.with_children(node, cs);
        let h2 = effect_step(g, player, a)->Ok_0;
        assert(h2.edges.drop_last() =~= h.edges);
        let out = out_edges(h2.edges, node);
        assert(out.drop_last() =~= out_edges(h.edges, node));
    }
}

/// Cards are never made or lost. In a well-formed graph every node holds as
/// many cards as the root; and each phase that succeeds on it (with room
/// for the nodes it adds) gives a well-formed graph again that keeps every
/// node of the old one, root included, under the same index.
pub proof fn lemma_card_count(g: GraphView)
    requires
        g.wf(),
    ensures
        forall|i: int|
            0 <= i < g.nodes.len() ==> (#[trigger] g.nodes[i]).board.total_cards()
                == g.nodes[0].board.total_cards(),
        forall|player: int, idx: nat|
            idx < g.nodes.len() && 0 <= player < g.nodes[idx as int].board.players.len()
                && g.nodes.len() < INDEX_END ==> (#[trigger] draw_step(g, player, idx) matches Ok(
                g2,
            ) ==> g2.wf() && g.grows_into(g2)),
        forall|player: int, idx: nat|
            idx < g.nodes.len() && 0 <= player < g.nodes[idx as int].board.players.len()
                && g.nodes.len() + play_reactions(g.nodes[idx as int].board, player).len()
                <= INDEX_END ==> (#[trigger] play_step(g, player, idx)).wf() && g.grows_into(
                play_step(g, player, idx),
            ),
        forall|player: int, a: int|
            0 <= a < g.edges.len() && 0 <= player < g.nodes[g.edges[a].1 as int].board.players.len()
                && g.nodes.len() + effect_growth(g, player, a) <= INDEX_END ==> (
            #[trigger] effect_step(g, player, a) matches Ok(g2) ==> g2.wf() && g.grows_into(g2)),
{
    assert forall|player: int, idx: nat|
        idx < g.nodes.len() && 0 <= player < g.nodes[idx as int].board.players.len() && g.nodes.len()
            < INDEX_END implies (#[trigger] draw_step(g, player, idx) matches Ok(g2) ==> g2.wf()
        && g.grows_into(g2)) by {
        lemma_draw_child(g, player, idx);
    }
    assert forall|player: int, idx: nat|
        idx < g.nodes.len() && 0 <= player < g.nodes[idx as int].board.players.len() && g.nodes.len()
            + play_reactions(g.nodes[idx as int].board, player).len()
            <= INDEX_END implies (#[trigger] play_step(g, player, idx)).wf() && g.grows_into(
        play_step(g, player, idx),
    ) by {
        lemma_play_children(g, player, idx);
    }
    assert forall|player: int, a: int|
        0 <= a < g.edges.len() && 0 <= player < g.nodes[g.edges[a].1 as int].board.players.len()
            && g.nodes.len() + effect_growth(g, player, a) <= INDEX_END implies (
    #[trigger] effect_step(g, player, a) matches Ok(g2) ==> g2.wf() && g.grows_into(g2)) by {
        lemma_effect_children(g, player, a);
    }
}

/// A Neigh cannot counter a Super Neigh: reacting to one it yields nothing;
/// reacting to any other action it yields exactly one reaction, which puts
/// the Neigh on the discard pile of the board it counters.
pub proof fn lemma_counter_veto(history: Seq<ActionView>)
    requires
        history.len() > 0,
    ensures
        history.last().card == Card::SuperNeigh ==> neigh_reactions(history).len() == 0,
        history.last().card != Card::SuperNeigh ==> {
            &&& neigh_reactions(history).len() == 1
            &&& neigh_reactions(history)[0].effect_action.card == Card::Neigh
            &&& neigh_reactions(history)[0].effect_action.board.discard == history.last().board.discard.push(
                Card::Neigh,
            )
            &&& neigh_reactions(history)[0].effect_action.board.discard.contains(Card::Neigh)
        },
{
    if history.last().card != Card::SuperNeigh {
        let d = neigh_reactions(history)[0].effect_action.board.discard;
        assert(d[d.len() - 1] == Card::Neigh);
    }
}

/// After the effect phase over a node that had no children yet, the node has
/// one child for each triggered reaction and one more, and exactly one of
/// its children is reached by a NoOp edge.
pub proof fn lemma_noop_completeness(g: GraphView, player: int, a: int)
    requires
        g.wf(),
        0 <= a < g.edges.len(),
        0 <= player < g.nodes[g.edges[a].1 as int].board.players.len(),
        out_edges(g.edges, g.edges[a].1).len() == 0,
        g.nodes.len() + effect_growth(g, player, a) <= INDEX_END,
        effect_reactions(g, player, a) is Ok,
    ensures
        out_edges(effect_step(g, player, a)->Ok_0.edges, g.edges[a].1).len() == effect_reactions(
            g,
            player,
            a,
        )->Ok_0.len() + 1,
        noop_count(out_edges(effect_step(g, player, a)->Ok_0.edges, g.edges[a].1)) == 1,
{
    lemma_effect_children(g, player, a);
    assert(out_edges(g.edges, g.edges[a].1) =~= Seq::<(nat, ActionEdge)>::empty());
}

/// A reaction owes a response only where it has a follow-up to respond
/// to: so are all reactions that playing, reacting with, or the effect of
/// any card produce.
pub proof fn lemma_reactions_well_formed(
    c: Card,
    player: int,
    b: BoardView,
    history: Seq<ActionView>,
)
    requires
        0 <= player < b.players.len(),
    ensures
        forall|j: int|
            0 <= j < play_spec(c, player, b).len() ==> (#[trigger] play_spec(c, player, b)[j]).wf(),
        forall|j: int|
            0 <= j < react_spec(c, history).len() ==> (#[trigger] react_spec(c, history)[j]).wf(),
        effect_spec(c, player, b, history) matches Ok(rs) ==> forall|j: int|
            0 <= j < rs.len() ==> (#[trigger] rs[j]).wf(),
{
    lemma_play_total(c, player, b);
    lemma_effect_total(c, player, b, history);
}

/// The graph after a sequence of draws, each a seat and a node; the first
/// failure ends it.
pub open spec fn draw_steps(g: GraphView, draws: Seq<(int, nat)>) -> Result<GraphView, LogicError>
    decreases draws.len(),
{
    if draws.len() == 0 {
        Ok(g)
    } else {
        match draw_steps(g, draws.drop_last()) {
            Err(e) => Err(e),
            Ok(g1) => draw_step(g1, draws.last().0, draws.last().1),
        }
    }
}

/// Draws are determined: two games built from equal boards with the same
/// setup flag and the same seed, then grown by the same draws, end in the
/// same graph, so every edge of one carries the same drawn card as the
/// edge of the same index in the other.
pub proof fn lemma_draw_determinism(
    b1: BoardView,
    b2: BoardView,
    setup: bool,
    seed: Option<Seq<u8>>,
    draws: Seq<(int, nat)>,
)
    requires
        b1 == b2,
    ensures
        draw_steps(initial_graph(b1, setup, seed), draws) == draw_steps(
            initial_graph(b2, setup, seed),
            draws,
        ),
        draw_steps(initial_graph(b1, setup, seed), draws) matches Ok(g1) ==> forall|k: int|
            0 <= k < g1.edges.len() ==> (#[trigger] g1.edges[k]).2.card == draw_steps(
                initial_graph(b2, setup, seed),
                draws,
            )->Ok_0.edges[k].2.card,
{
}

} // verus!
