//! What each card does when it is played, when it reacts to an action, and
//! when an effect pass reaches it.

use vstd::prelude::*;

use crate::cards::{
    BabyUnicorn, BasicUnicorn, Card, CardType, Neigh, SuperNeigh, UnicornPhoenix, UnicornPoison,
};
use crate::state::{
    plain_reaction, reactions_view, history_view, react_result_view, Action, ActionType, ActionView,
    lemma_total_moves, BoardView, GameState, History, LogicError, PhaseType, ReactAction, ReactActionView,
    ReactResult,
};

verus! {

/// The one way to play a unicorn: it goes into the player's stable.
pub open spec fn place_reactions(c: Card, player: int, b: BoardView) -> Seq<ReactActionView> {
    seq![
        plain_reaction(
            ActionView { card: c, atype: ActionType::Place, board: b.placed(player, c) },
        ),
    ]
}

/// The one way to play an instant: it goes onto the discard pile of `b`.
pub open spec fn instant_reactions(c: Card, b: BoardView) -> Seq<ReactActionView> {
    seq![plain_reaction(ActionView { card: c, atype: ActionType::Instant, board: b.discarded(c) })]
}

/// A Neigh counters the latest action, unless there is none or it was a
/// Super Neigh; it lands on the discard pile of the board it counters.
pub open spec fn neigh_reactions(history: Seq<ActionView>) -> Seq<ReactActionView> {
    if history.len() == 0 || history.last().card == Card::SuperNeigh {
        Seq::empty()
    } else {
        instant_reactions(Card::Neigh, history.last().board)
    }
}

/// Poison is discarded (`b` already holds it on the discard pile) and offers
/// to destroy the unicorn at position `k` of seat `p`'s stable; seat `p`
/// owes the answer.
pub open spec fn destroy_reaction(b: BoardView, p: int, k: int) -> ReactActionView {
    let victim = b.players[p].stable[k];
    ReactActionView {
        effect_action: ActionView { card: Card::UnicornPoison, atype: ActionType::Discard, board: b },
        follow_up: Some(
            ActionView {
                card: victim,
                atype: ActionType::Destroy,
                board: b.without_stable_card(p, k).discarded(victim),
            },
        ),
        response: seq![p as usize],
    }
}

/// One destroy choice per unicorn among the first `k` cards of seat `p`'s
/// stable, in stable order.
pub open spec fn seat_destroy_choices(b: BoardView, p: int, k: nat) -> Seq<ReactActionView>
    decreases k,
{
    if k == 0 {
        Seq::empty()
    } else {
        seat_destroy_choices(b, p, (k - 1) as nat) + if b.players[p].stable[k - 1].spec_ctype().spec_is_unicorn() {
            seq![destroy_reaction(b, p, k - 1)]
        } else {
            Seq::empty()
        }
    }
}

/// The destroy choices of the first `n` seats, seat by seat.
pub open spec fn destroy_choices(b: BoardView, n: nat) -> Seq<ReactActionView>
    decreases n,
{
    if n == 0 {
        Seq::empty()
    } else {
        destroy_choices(b, (n - 1) as nat) + seat_destroy_choices(
            b,
            n - 1,
            b.players[n - 1].stable.len(),
        )
    }
}

/// Playing a Unicorn Poison: one reaction per unicorn in any stable.
pub open spec fn poison_reactions(b: BoardView) -> Seq<ReactActionView> {
    let after = b.discarded(Card::UnicornPoison);
    destroy_choices(after, after.players.len())
}

/// The Phoenix leaves the top of the discard pile for `player`'s stable.
pub open spec fn revival(player: int, b: BoardView) -> ActionView {
    ActionView {
        card: Card::UnicornPhoenix,
        atype: ActionType::Revive,
        board: BoardView { discard: b.discard.drop_last(), ..b }.placed(player, Card::UnicornPhoenix),
    }
}

/// The revival paid for with the card at position `k` of `player`'s hand.
pub open spec fn discard_choice(player: int, b: BoardView, k: int) -> ReactActionView {
    let h = b.players[player].hand[k];
    ReactActionView {
        effect_action: revival(player, b),
        follow_up: Some(
            ActionView {
                card: h,
                atype: ActionType::Discard,
                board: b.without_hand_card(player, k).discarded(h),
            },
        ),
        response: Seq::empty(),
    }
}

/// A Phoenix that was just destroyed or sacrificed comes back, once for each
/// card of the hand that can be discarded for it. It must then lie on top of
/// the discard pile; where it does not, the board is corrupt.
pub open spec fn phoenix_effect(player: int, b: BoardView, history: Seq<ActionView>) -> Result<
    Seq<ReactActionView>,
    LogicError,
> {
    if history.len() == 0 || history.last().card != Card::UnicornPhoenix || !(
    history.last().atype == ActionType::Destroy || history.last().atype == ActionType::Sacrifice) {
        Ok(Seq::empty())
    } else if b.discard.len() == 0 || b.discard.last() != Card::UnicornPhoenix {
        Err(LogicError::Unknown)
    } else {
        Ok(Seq::new(b.players[player].hand.len(), |k: int| discard_choice(player, b, k)))
    }
}

/// The reactions of playing `c` for `player` on `b`, which no longer holds
/// `c` in the hand.
pub open spec fn play_spec(c: Card, player: int, b: BoardView) -> Seq<ReactActionView> {
    match c {
        Card::BasicUnicorn => place_reactions(c, player, b),
        Card::UnicornPhoenix => place_reactions(c, player, b),
        Card::BabyUnicorn => place_reactions(c, player, b),
        Card::SuperNeigh => instant_reactions(c, b),
        Card::Neigh => Seq::empty(),
        Card::UnicornPoison => poison_reactions(b),
    }
}

/// The reactions of `c`, still in its zone, to the actions so far.
pub open spec fn react_spec(c: Card, history: Seq<ActionView>) -> Seq<ReactActionView> {
    match c {
        Card::Neigh => neigh_reactions(history),
        _ => Seq::empty(),
    }
}

/// What `c` triggers when an effect pass reaches it.
pub open spec fn effect_spec(c: Card, player: int, b: BoardView, history: Seq<ActionView>) -> Result<
    Seq<ReactActionView>,
    LogicError,
> {
    match c {
        Card::UnicornPhoenix => phoenix_effect(player, b, history),
        _ => Ok(Seq::empty()),
    }
}

pub open spec fn playable_phases(t: CardType) -> Seq<PhaseType> {
    if t == CardType::Instant {
        seq![PhaseType::Draw, PhaseType::Effect, PhaseType::React]
    } else {
        seq![PhaseType::Draw, PhaseType::Effect, PhaseType::Play, PhaseType::React]
    }
}

proof fn lemma_seat_destroy_choices(b: BoardView, p: int, k: nat)
    requires
        0 <= p < b.players.len(),
        k <= b.players[p].stable.len(),
    ensures
        forall|j: int|
            0 <= j < seat_destroy_choices(b, p, k).len() ==> (#[trigger] seat_destroy_choices(
                b,
                p,
                k,
            )[j]).effect_action == (ActionView {
                card: Card::UnicornPoison,
                atype: ActionType::Discard,
                board: b,
            }) && seat_destroy_choices(b, p, k)[j].wf(),
    decreases k,
{
    if k > 0 {
        lemma_seat_destroy_choices(b, p, (k - 1) as nat);
    }
}

proof fn lemma_destroy_choices(b: BoardView, n: nat)
    requires
        n <= b.players.len(),
    ensures
        forall|j: int|
            0 <= j < destroy_choices(b, n).len() ==> (#[trigger] destroy_choices(b, n)[j]).effect_action
                == (ActionView { card: Card::UnicornPoison, atype: ActionType::Discard, board: b })
                && destroy_choices(b, n)[j].wf(),
    decreases n,
{
    if n > 0 {
        lemma_destroy_choices(b, (n - 1) as nat);
        lemma_seat_destroy_choices(b, n - 1, b.players[n - 1].stable.len());
    }
}

/// Playing a card puts it back into some zone: each reaction's board holds
/// one card more than `b`, from whose hand it was taken.
pub proof fn lemma_play_total(c: Card, player: int, b: BoardView)
    requires
        0 <= player < b.players.len(),
    ensures
        forall|j: int|
            0 <= j < play_spec(c, player, b).len() ==> (#[trigger] play_spec(c, player, b)[j]).effect_action.board.total_cards()
                == b.total_cards() + 1 && play_spec(c, player, b)[j].wf(),
{
    lemma_total_moves(b, player, 0, c);
    if c == Card::UnicornPoison {
        lemma_destroy_choices(b.discarded(c), b.players.len());
    }
}

/// An effect moves cards without making or losing any, and each of its
/// reactions revives.
pub proof fn lemma_effect_total(c: Card, player: int, b: BoardView, h: Seq<ActionView>)
    requires
        0 <= player < b.players.len(),
    ensures
        effect_spec(c, player, b, h) matches Ok(rs) ==> forall|j: int|
            0 <= j < rs.len() ==> (#[trigger] rs[j]).effect_action.board.total_cards()
                == b.total_cards() && rs[j].effect_action.atype == ActionType::Revive
                && rs[j].wf(),
{
    if b.discard.len() > 0 {
        let lifted = BoardView { discard: b.discard.drop_last(), ..b };
        lemma_total_moves(lifted, player, 0, Card::UnicornPhoenix);
    }
}

fn place_in_stable(c: Card, player: usize, cur_state: &GameState) -> (r: ReactResult)
    requires
        player < cur_state.board@.players.len(),
    ensures
        react_result_view(r) == Ok::<Seq<ReactActionView>, LogicError>(
            place_reactions(c, player as int, cur_state.board@),
        ),
{
    let mut latest_board = cur_state.board.clone();
    latest_board.push_stable(player, c);
    let action = Action { card: c, atype: ActionType::Place, board: latest_board };
    let r = vec![ReactAction::from(&action)];
    assert(reactions_view(r@) =~= place_reactions(c, player as int, cur_state.board@));
    Ok(r)
}

fn discard_instant(c: Card, board: &crate::state::Board) -> (r: ReactResult)
    ensures
        react_result_view(r) == Ok::<Seq<ReactActionView>, LogicError>(
            instant_reactions(c, board@),
        ),
{
    let mut latest_board = board.clone();
    latest_board.discard.push(c);
    let action = Action { card: c, atype: ActionType::Instant, board: latest_board };
    let r = vec![ReactAction::from(&action)];
    assert(latest_board@ =~= board@.discarded(c));
    assert(reactions_view(r@) =~= instant_reactions(c, board@));
    Ok(r)
}

fn no_reaction() -> (r: ReactResult)
    ensures
        react_result_view(r) == Ok::<Seq<ReactActionView>, LogicError>(Seq::empty()),
{
    let r: Vec<ReactAction> = Vec::new();
    assert(reactions_view(r@) =~= Seq::<ReactActionView>::empty());
    Ok(r)
}

impl UnicornPhoenix {
    /// Revival: when the latest action destroyed or sacrificed a Phoenix,
    /// offers it back into `player`'s stable once per card of `player`'s
    /// hand, each paired with discarding that card.
    pub fn effect(&self, player: usize, cur_state: &GameState, history: &History) -> (r: ReactResult)
        requires
            player < cur_state.board@.players.len(),
        ensures
            react_result_view(r) == phoenix_effect(
                player as int,
                cur_state.board@,
                history_view(history@),
            ),
    {
        if history.len() == 0 {
            return no_reaction();
        }
        let last_action = &history[history.len() - 1];
        if !last_action.card.is::<UnicornPhoenix>() {
            return no_reaction();
        }
        if !(last_action.atype == ActionType::Destroy || last_action.atype == ActionType::Sacrifice) {
            return no_reaction();
        }
        let ghost b = cur_state.board@;
        let mut new_board = cur_state.board.clone();
        let own_card = new_board.discard.pop();
        match own_card {
            Some(Card::UnicornPhoenix) => {},
            _ => {
                return Err(LogicError::Unknown);
            },
        }
        new_board.push_stable(player, Card::UnicornPhoenix);
        assert(new_board@ =~= revival(player as int, b).board);
        let effect_action = Action {
            card: last_action.card,
            atype: ActionType::Revive,
            board: new_board,
        };
        let hand = &cur_state.board.players[player].hand;
        let mut result: Vec<ReactAction> = Vec::new();
        let mut idx: usize = 0;
        while idx < hand.len()
            invariant
                idx <= hand@.len(),
                player < cur_state.board@.players.len(),
                b == cur_state.board@,
                hand@ == b.players[player as int].hand,
                effect_action@ == revival(player as int, b),
                result@.len() == idx,
                forall|k: int|
                    0 <= k < idx ==> #[trigger] result@[k]@ == discard_choice(player as int, b, k),
            decreases hand.len() - idx,
        {
            let h = hand[idx];
            let mut follow_board = cur_state.board.clone();
            follow_board.remove_hand(player, idx);
            follow_board.discard.push(h);
            let follow_up = Action { card: h, atype: ActionType::Discard, board: follow_board };
            let reaction = ReactAction {
                effect_action: effect_action.clone(),
                follow_up: Some(follow_up),
                response: Vec::new(),
            };
            assert(follow_board@ =~= b.without_hand_card(player as int, idx as int).discarded(h));
            assert(reaction@ =~= discard_choice(player as int, b, idx as int));
            result.push(reaction);
            idx = idx + 1;
        }
        assert(reactions_view(result@) =~= Seq::new(
            hand@.len(),
            |k: int| discard_choice(player as int, b, k),
        ));
        Ok(result)
    }
}

impl UnicornPoison {
    /// Discards the Poison and offers to destroy each unicorn in any stable,
    /// one reaction per unicorn, seat by seat; the owner of the unicorn owes
    /// the answer.
    pub fn play(self, _player: usize, cur_state: &GameState, _history: &History) -> (r: ReactResult)
        ensures
            react_result_view(r) == Ok::<Seq<ReactActionView>, LogicError>(
                poison_reactions(cur_state.board@),
            ),
    {
        let mut latest_board = cur_state.board.clone();
        latest_board.discard.push(Card::UnicornPoison);
        let ghost b = latest_board@;
        assert(b =~= cur_state.board@.discarded(Card::UnicornPoison));
        let effect_action = Action {
            card: Card::UnicornPoison,
            atype: ActionType::Discard,
            board: latest_board.clone(),
        };
        let mut result: Vec<ReactAction> = Vec::new();
        let mut p_idx: usize = 0;
        while p_idx < latest_board.players.len()
            invariant
                p_idx <= b.players.len(),
                latest_board@ == b,
                effect_action@ == (ActionView {
                    card: Card::UnicornPoison,
                    atype: ActionType::Discard,
                    board: b,
                }),
                reactions_view(result@) == destroy_choices(b, p_idx as nat),
            decreases b.players.len() - p_idx,
        {
            let stable = &latest_board.players[p_idx].stable;
            let mut idx: usize = 0;
            while idx < stable.len()
                invariant
                    p_idx < b.players.len(),
                    idx <= stable@.len(),
                    latest_board@ == b,
                    stable@ == b.players[p_idx as int].stable,
                    effect_action@ == (ActionView {
                        card: Card::UnicornPoison,
                        atype: ActionType::Discard,
                        board: b,
                    }),
                    reactions_view(result@) == destroy_choices(b, p_idx as nat)
                        + seat_destroy_choices(b, p_idx as int, idx as nat),
                decreases stable.len() - idx,
            {
                let k = stable[idx];
                let ghost before = reactions_view(result@);
                if k.ctype().is_unicorn() {
                    let mut follow_board = latest_board.clone();
                    follow_board.remove_stable(p_idx, idx);
                    follow_board.discard.push(k);
                    let follow_up = Action { card: k, atype: ActionType::Destroy, board: follow_board };
                    let reaction = ReactAction {
                        effect_action: effect_action.clone(),
                        follow_up: Some(follow_up),
                        response: vec![p_idx],
                    };
                    assert(follow_board@ =~= b.without_stable_card(p_idx as int, idx as int).discarded(k));
                    assert(reaction@ =~= destroy_reaction(b, p_idx as int, idx as int));
                    result.push(reaction);
                    assert(reactions_view(result@) =~= before.push(reaction@));
                }
                idx = idx + 1;
                assert(reactions_view(result@) =~= destroy_choices(b, p_idx as nat)
                    + seat_destroy_choices(b, p_idx as int, idx as nat));
            }
            p_idx = p_idx + 1;
            assert(reactions_view(result@) =~= destroy_choices(b, p_idx as nat));
        }
        Ok(result)
    }
}

impl Neigh {
    /// Counters the latest action, unless there is none or it was a Super
    /// Neigh: the Neigh lands on the discard pile of the board it counters.
    pub fn react(self, _player: usize, _cur_state: &GameState, history: &History) -> (r: ReactResult)
        ensures
            react_result_view(r) == Ok::<Seq<ReactActionView>, LogicError>(
                neigh_reactions(history_view(history@)),
            ),
    {
        if history.len() < 1 {
            return no_reaction();
        }
        let latest_action = &history[history.len() - 1];
        if latest_action.card.is::<SuperNeigh>() {
            return no_reaction();
        }
        discard_instant(Card::Neigh, &latest_action.board)
    }
}

impl BasicUnicorn {
    /// Places the unicorn in `player`'s stable.
    pub fn play(self, player: usize, cur_state: &GameState, _history: &History) -> (r: ReactResult)
        requires
            player < cur_state.board@.players.len(),
        ensures
            react_result_view(r) == Ok::<Seq<ReactActionView>, LogicError>(
                place_reactions(Card::BasicUnicorn, player as int, cur_state.board@),
            ),
    {
        place_in_stable(Card::BasicUnicorn, player, cur_state)
    }
}

impl UnicornPhoenix {
    /// Places the unicorn in `player`'s stable.
    pub fn play(self, player: usize, cur_state: &GameState, _history: &History) -> (r: ReactResult)
        requires
            player < cur_state.board@.players.len(),
        ensures
            react_result_view(r) == Ok::<Seq<ReactActionView>, LogicError>(
                place_reactions(Card::UnicornPhoenix, player as int, cur_state.board@),
            ),
    {
        place_in_stable(Card::UnicornPhoenix, player, cur_state)
    }
}

impl BabyUnicorn {
    /// Places the unicorn in `player`'s stable.
    pub fn play(self, player: usize, cur_state: &GameState, _history: &History) -> (r: ReactResult)
        requires
            player < cur_state.board@.players.len(),
        ensures
            react_result_view(r) == Ok::<Seq<ReactActionView>, LogicError>(
                place_reactions(Card::BabyUnicorn, player as int, cur_state.board@),
            ),
    {
        place_in_stable(Card::BabyUnicorn, player, cur_state)
    }
}

impl SuperNeigh {
    /// Puts the Super Neigh on the discard pile.
    pub fn play(self, _player: usize, cur_state: &GameState, _history: &History) -> (r: ReactResult)
        ensures
            react_result_view(r) == Ok::<Seq<ReactActionView>, LogicError>(
                instant_reactions(Card::SuperNeigh, cur_state.board@),
            ),
    {
        discard_instant(Card::SuperNeigh, &cur_state.board)
    }
}

impl Card {
    /// The reactions of playing this card for `player`; `cur_state` no
    /// longer holds it in the hand.
    pub fn play(self, player: usize, cur_state: &GameState, history: &History) -> (r: ReactResult)
        requires
            player < cur_state.board@.players.len(),
        ensures
            react_result_view(r) == Ok::<Seq<ReactActionView>, LogicError>(
                play_spec(self, player as int, cur_state.board@),
            ),
    {
        match self {
            Card::BasicUnicorn => BasicUnicorn {}.play(player, cur_state, history),
            Card::UnicornPhoenix => UnicornPhoenix {}.play(player, cur_state, history),
            Card::BabyUnicorn => BabyUnicorn {}.play(player, cur_state, history),
            Card::SuperNeigh => SuperNeigh {}.play(player, cur_state, history),
            Card::Neigh => no_reaction(),
            Card::UnicornPoison => UnicornPoison {}.play(player, cur_state, history),
        }
    }

    /// The reactions of this card, still in its zone, to the actions so far.
    pub fn react(self, player: usize, cur_state: &GameState, history: &History) -> (r: ReactResult)
        ensures
            react_result_view(r) == Ok::<Seq<ReactActionView>, LogicError>(
                react_spec(self, history_view(history@)),
            ),
    {
        match self {
            Card::Neigh => Neigh {}.react(player, cur_state, history),
            _ => no_reaction(),
        }
    }

    /// What this card triggers when an effect pass reaches it.
    pub fn effect(&self, player: usize, cur_state: &GameState, history: &History) -> (r: ReactResult)
        requires
            player < cur_state.board@.players.len(),
        ensures
            react_result_view(r) == effect_spec(
                *self,
                player as int,
                cur_state.board@,
                history_view(history@),
            ),
    {
        match self {
            Card::UnicornPhoenix => UnicornPhoenix {}.effect(player, cur_state, history),
            _ => no_reaction(),
        }
    }

    /// What this card does when it is destroyed by force: no card of the
    /// game has such a hook.
    pub fn destroy(&self, _player: usize, _cur_state: &GameState, _history: &History) -> (r: ReactResult)
        ensures
            react_result_view(r) == Ok::<Seq<ReactActionView>, LogicError>(Seq::empty()),
    {
        no_reaction()
    }

    /// What this card does when it is stolen: no card of the game has such a
    /// hook.
    pub fn steal(&self, _player: usize, _cur_state: &GameState, _history: &History) -> (r: ReactResult)
        ensures
            react_result_view(r) == Ok::<Seq<ReactActionView>, LogicError>(Seq::empty()),
    {
        no_reaction()
    }

    /// Whether this card can be played in `phase`.
    pub fn playable_in(&self, phase: PhaseType) -> (r: bool)
        ensures
            r == playable_phases(self.spec_ctype()).contains(phase),
    {
        let phases = self.phase_playable();
        let mut i: usize = 0;
        while i < phases.len()
            invariant
                i <= phases@.len(),
                phases@ == playable_phases(self.spec_ctype()),
                forall|j: int| 0 <= j < i ==> phases@[j] != phase,
            decreases phases.len() - i,
        {
            if phases[i] == phase {
                assert(phases@[i as int] == phase);
                return true;
            }
            i = i + 1;
        }
        false
    }

    /// The phases in which this card can be played: an instant in the draw,
    /// effect and react phases, any other card in the play phase too.
    pub fn phase_playable(&self) -> (r: Vec<PhaseType>)
        ensures
            r@ == playable_phases(self.spec_ctype()),
    {
        let r = match self.ctype() {
            CardType::Instant => vec![PhaseType::Draw, PhaseType::Effect, PhaseType::React],
            _ => vec![PhaseType::Draw, PhaseType::Effect, PhaseType::Play, PhaseType::React],
        };
        assert(r@ =~= playable_phases(self.spec_ctype()));
        r
    }
}

} // verus!
