//! The board and its zones, the records of what happened to it, and the
//! states that the graph holds; each with a mathematical view.

use vstd::prelude::*;

use crate::cards::{without_first, Card, CardKind, QueryCards};

verus! {

/// Failures of a phase or of a card's own logic.
#[derive(Clone, Copy, Debug, PartialEq, Eq, Structural)]
pub enum LogicError {
    /// A draw was attempted on an empty deck.
    DeckEmpty,
    /// A card's logic found the board in a state it relies on not being in.
    Unknown,
}

/// What happened to produce a board.
#[derive(Clone, Copy, Debug, PartialEq, Eq, Structural)]
pub enum ActionType {
    Place,
    Instant,
    Steal,
    Destroy,
    Stolen,
    Discard,
    Sacrifice,
    Revive,
    Draw,
    NoOp,
}

/// The stage of a turn that a game state is in.
#[derive(Clone, Copy, Debug, PartialEq, Eq, Structural)]
pub enum PhaseType {
    GameStart,
    Play,
    Effect,
    Turn,
    React,
    Draw,
}

#[verifier::ext_equal]
pub struct PlayerView {
    pub hand: Seq<Card>,
    pub stable: Seq<Card>,
}

#[verifier::ext_equal]
pub struct BoardView {
    pub players: Seq<PlayerView>,
    pub deck: Seq<Card>,
    pub nursery: Seq<Card>,
    pub discard: Seq<Card>,
}

#[verifier::ext_equal]
pub struct ActionView {
    pub card: Card,
    pub atype: ActionType,
    pub board: BoardView,
}

#[verifier::ext_equal]
pub struct ReactActionView {
    pub effect_action: ActionView,
    pub follow_up: Option<ActionView>,
    pub response: Seq<usize>,
}

#[verifier::ext_equal]
pub struct ReactMetadataView {
    pub follow_up: ActionView,
    pub response: Seq<usize>,
}

#[verifier::ext_equal]
pub struct GameStateView {
    pub board: BoardView,
    pub phase: PhaseType,
    pub react_metadata: Option<ReactMetadataView>,
}

/// One seat at the table.
pub struct Player {
    pub hand: Vec<Card>,
    pub stable: Vec<Card>,
}

impl View for Player {
    type V = PlayerView;

    open spec fn view(&self) -> PlayerView {
        PlayerView { hand: self.hand@, stable: self.stable@ }
    }
}

impl Clone for Player {
    fn clone(&self) -> (r: Self)
        ensures
            r@ == self@,
    {
        Player { hand: self.hand.clone(), stable: self.stable.clone() }
    }
}

impl Player {
    /// A seat with an empty hand and an empty stable.
    pub fn new() -> (r: Player)
        ensures
            r@ == (PlayerView { hand: Seq::empty(), stable: Seq::empty() }),
    {
        Player { hand: Vec::new(), stable: Vec::new() }
    }
}

pub open spec fn players_view(ps: Seq<Player>) -> Seq<PlayerView> {
    ps.map_values(|p: Player| p@)
}

/// The whole table: seats in order, and the shared zones.
pub struct Board {
    pub players: Vec<Player>,
    pub deck: Vec<Card>,
    pub nursery: Vec<Card>,
    pub discard: Vec<Card>,
}

impl View for Board {
    type V = BoardView;

    open spec fn view(&self) -> BoardView {
        BoardView {
            players: players_view(self.players@),
            deck: self.deck@,
            nursery: self.nursery@,
            discard: self.discard@,
        }
    }
}

fn clone_players(ps: &Vec<Player>) -> (r: Vec<Player>)
    ensures
        players_view(r@) == players_view(ps@),
{
    let mut r: Vec<Player> = Vec::new();
    let mut i: usize = 0;
    while i < ps.len()
        invariant
            i <= ps.len(),
            r@.len() == i,
            forall|j: int| 0 <= j < i ==> #[trigger] r@[j]@ == ps@[j]@,
        decreases ps.len() - i,
    {
        r.push(ps[i].clone());
        i = i + 1;
    }
    assert(players_view(r@) =~= players_view(ps@));
    r
}

impl Clone for Board {
    fn clone(&self) -> (r: Self)
        ensures
            r@ == self@,
    {
        Board {
            players: clone_players(&self.players),
            deck: self.deck.clone(),
            nursery: self.nursery.clone(),
            discard: self.discard.clone(),
        }
    }
}

impl BoardView {
    pub open spec fn with_seat(self, i: int, p: PlayerView) -> BoardView {
        BoardView { players: self.players.update(i, p), ..self }
    }

    /// `c` added to the stable of seat `i`.
    pub open spec fn placed(self, i: int, c: Card) -> BoardView {
        self.with_seat(
            i,
            PlayerView { hand: self.players[i].hand, stable: self.players[i].stable.push(c) },
        )
    }

    /// `c` added to the hand of seat `i`.
    pub open spec fn handed(self, i: int, c: Card) -> BoardView {
        self.with_seat(
            i,
            PlayerView { hand: self.players[i].hand.push(c), stable: self.players[i].stable },
        )
    }

    /// The card at position `k` of seat `i`'s hand taken out.
    pub open spec fn without_hand_card(self, i: int, k: int) -> BoardView {
        self.with_seat(
            i,
            PlayerView { hand: self.players[i].hand.remove(k), stable: self.players[i].stable },
        )
    }

    /// The card at position `k` of seat `i`'s stable taken out.
    pub open spec fn without_stable_card(self, i: int, k: int) -> BoardView {
        self.with_seat(
            i,
            PlayerView { hand: self.players[i].hand, stable: self.players[i].stable.remove(k) },
        )
    }

    /// `c` put on top of the discard pile.
    pub open spec fn discarded(self, c: Card) -> BoardView {
        BoardView { discard: self.discard.push(c), ..self }
    }

    /// The number of cards in all zones together.
    pub open spec fn total_cards(self) -> nat {
        seat_cards(self.players) + self.deck.len() + self.nursery.len() + self.discard.len()
    }

    /// What drawing from this board gives: the top (last) card of the deck.
    pub open spec fn draw_outcome(self) -> Result<Option<ActionView>, LogicError> {
        if self.deck.len() == 0 {
            Err(LogicError::DeckEmpty)
        } else {
            Ok(
                Some(
                    ActionView {
                        card: self.deck.last(),
                        atype: ActionType::Draw,
                        board: BoardView { deck: self.deck.drop_last(), ..self },
                    },
                ),
            )
        }
    }
}

impl BoardView {
    /// What drawing the first card `c` from the deck gives.
    pub open spec fn specific_draw_outcome(self, c: Card) -> Result<Option<ActionView>, LogicError> {
        if self.deck.len() == 0 {
            Err(LogicError::DeckEmpty)
        } else if !self.deck.contains(c) {
            Ok(None)
        } else {
            Ok(
                Some(
                    ActionView {
                        card: c,
                        atype: ActionType::Draw,
                        board: BoardView { deck: without_first(self.deck, c), ..self },
                    },
                ),
            )
        }
    }
}

pub open spec fn seat_total(p: PlayerView) -> nat {
    p.hand.len() + p.stable.len()
}

/// The number of cards in the hands and stables of `ps`.
pub open spec fn seat_cards(ps: Seq<PlayerView>) -> nat
    decreases ps.len(),
{
    if ps.len() == 0 {
        0
    } else {
        seat_cards(ps.drop_last()) + seat_total(ps.last())
    }
}

pub proof fn lemma_seat_cards_update(ps: Seq<PlayerView>, i: int, p: PlayerView)
    requires
        0 <= i < ps.len(),
    ensures
        seat_cards(ps.update(i, p)) + seat_total(ps[i]) == seat_cards(ps) + seat_total(p),
    decreases ps.len(),
{
    let qs = ps.update(i, p);
    if i == ps.len() - 1 {
        assert(qs.drop_last() =~= ps.drop_last());
    } else {
        assert(qs.drop_last() =~= ps.drop_last().update(i, p));
        lemma_seat_cards_update(ps.drop_last(), i, p);
    }
}

pub proof fn lemma_total_with_seat(b: BoardView, i: int, p: PlayerView)
    requires
        0 <= i < b.players.len(),
    ensures
        b.with_seat(i, p).total_cards() + seat_total(b.players[i]) == b.total_cards() + seat_total(p),
{
    lemma_seat_cards_update(b.players, i, p);
}

/// How each move between zones changes the number of cards on the board.
pub proof fn lemma_total_moves(b: BoardView, i: int, k: int, c: Card)
    requires
        0 <= i < b.players.len(),
    ensures
        b.placed(i, c).total_cards() == b.total_cards() + 1,
        b.handed(i, c).total_cards() == b.total_cards() + 1,
        b.discarded(c).total_cards() == b.total_cards() + 1,
        0 <= k < b.players[i].hand.len() ==> b.without_hand_card(i, k).total_cards() + 1
            == b.total_cards(),
        0 <= k < b.players[i].stable.len() ==> b.without_stable_card(i, k).total_cards() + 1
            == b.total_cards(),
{
    let p = b.players[i];
    lemma_total_with_seat(b, i, PlayerView { hand: p.hand, stable: p.stable.push(c) });
    lemma_total_with_seat(b, i, PlayerView { hand: p.hand.push(c), stable: p.stable });
    if 0 <= k < p.hand.len() {
        lemma_total_with_seat(b, i, PlayerView { hand: p.hand.remove(k), stable: p.stable });
    }
    if 0 <= k < p.stable.len() {
        lemma_total_with_seat(b, i, PlayerView { hand: p.hand, stable: p.stable.remove(k) });
    }
}

/// `n` seats with empty hands and stables.
pub open spec fn empty_seats(n: nat) -> Seq<PlayerView> {
    Seq::new(n, |i: int| PlayerView { hand: Seq::empty(), stable: Seq::empty() })
}

/// `n` copies of `c`.
pub open spec fn copies(c: Card, n: nat) -> Seq<Card> {
    Seq::new(n, |i: int| c)
}

/// The cards that a composition table lists, in table order.
pub open spec fn composition(t: Seq<(Card, usize)>) -> Seq<Card>
    decreases t.len(),
{
    if t.len() == 0 {
        Seq::empty()
    } else {
        composition(t.drop_last()) + copies(t.last().0, t.last().1 as nat)
    }
}

pub open spec fn base_deck_table() -> Seq<(Card, usize)> {
    seq![
        (Card::BasicUnicorn, 2usize),
        (Card::Neigh, 3usize),
        (Card::SuperNeigh, 1usize),
        (Card::UnicornPhoenix, 1usize),
        (Card::UnicornPoison, 3usize),
    ]
}

pub open spec fn base_nursery_table() -> Seq<(Card, usize)> {
    seq![(Card::BabyUnicorn, 3usize)]
}

/// The board that a composition gives: `n` empty seats, the two zones
/// filled as the tables list, and no discard.
pub open spec fn composed_board(n: nat, deck: Seq<(Card, usize)>, nursery: Seq<(Card, usize)>) -> BoardView {
    BoardView {
        players: empty_seats(n),
        deck: composition(deck),
        nursery: composition(nursery),
        discard: Seq::empty(),
    }
}

/// A record of what happened: the card at its centre, what was done, and the
/// board that resulted.
pub struct Action {
    pub card: Card,
    pub atype: ActionType,
    pub board: Board,
}

impl View for Action {
    type V = ActionView;

    open spec fn view(&self) -> ActionView {
        ActionView { card: self.card, atype: self.atype, board: self.board@ }
    }
}

impl Clone for Action {
    fn clone(&self) -> (r: Self)
        ensures
            r@ == self@,
    {
        Action { card: self.card, atype: self.atype, board: self.board.clone() }
    }
}

pub open spec fn option_action_view(a: Option<Action>) -> Option<ActionView> {
    match a {
        Some(x) => Some(x@),
        None => None,
    }
}

/// The actions taken so far, oldest first.
pub type History = Vec<Action>;

pub open spec fn history_view(h: Seq<Action>) -> Seq<ActionView> {
    h.map_values(|a: Action| a@)
}

/// An action that may owe a second action: `follow_up`, to be supplied by
/// the seats in `response` (none: it is resolved without a choice).
pub struct ReactAction {
    pub effect_action: Action,
    pub follow_up: Option<Action>,
    pub response: Vec<usize>,
}

impl View for ReactAction {
    type V = ReactActionView;

    open spec fn view(&self) -> ReactActionView {
        ReactActionView {
            effect_action: self.effect_action@,
            follow_up: option_action_view(self.follow_up),
            response: self.response@,
        }
    }
}

impl ReactActionView {
    /// A seat that owes a response always has something to respond with.
    pub open spec fn wf(self) -> bool {
        self.response.len() > 0 ==> self.follow_up is Some
    }

    pub open spec fn metadata(self) -> Option<ReactMetadataView> {
        match self.follow_up {
            Some(f) => Some(ReactMetadataView { follow_up: f, response: self.response }),
            None => None,
        }
    }
}

pub open spec fn plain_reaction(a: ActionView) -> ReactActionView {
    ReactActionView { effect_action: a, follow_up: None, response: Seq::empty() }
}

fn clone_option_action(a: &Option<Action>) -> (r: Option<Action>)
    ensures
        option_action_view(r) == option_action_view(*a),
{
    match a {
        Some(x) => Some(x.clone()),
        None => None,
    }
}

impl Clone for ReactAction {
    fn clone(&self) -> (r: Self)
        ensures
            r@ == self@,
    {
        ReactAction {
            effect_action: self.effect_action.clone(),
            follow_up: clone_option_action(&self.follow_up),
            response: self.response.clone(),
        }
    }
}

impl ReactAction {
    /// A reaction that owes nothing further.
    pub fn from(value: &Action) -> (r: ReactAction)
        ensures
            r@ == plain_reaction(value@),
    {
        ReactAction { effect_action: value.clone(), follow_up: None, response: Vec::new() }
    }

    /// What a state reached through this reaction still owes, if anything.
    pub fn metadata(&self) -> (r: Option<ReactMetadata>)
        ensures
            option_metadata_view(r) == self@.metadata(),
    {
        match &self.follow_up {
            Some(f) => Some(ReactMetadata { follow_up: f.clone(), response: self.response.clone() }),
            None => None,
        }
    }
}

pub open spec fn reactions_view(v: Seq<ReactAction>) -> Seq<ReactActionView> {
    v.map_values(|r: ReactAction| r@)
}

/// The reactions of a card to an event, in order, or a failure of its logic.
pub type ReactResult = Result<Vec<ReactAction>, LogicError>;

pub open spec fn react_result_view(r: ReactResult) -> Result<Seq<ReactActionView>, LogicError> {
    match r {
        Ok(v) => Ok(reactions_view(v@)),
        Err(e) => Err(e),
    }
}

/// A draw: the action if one was made, or a failure.
pub type LogicResult = Result<Option<Action>, LogicError>;

pub open spec fn logic_result_view(r: LogicResult) -> Result<Option<ActionView>, LogicError> {
    match r {
        Ok(a) => Ok(option_action_view(a)),
        Err(e) => Err(e),
    }
}

/// The follow-up that a state still owes, and the seats that owe it.
pub struct ReactMetadata {
    pub follow_up: Action,
    pub response: Vec<usize>,
}

impl View for ReactMetadata {
    type V = ReactMetadataView;

    open spec fn view(&self) -> ReactMetadataView {
        ReactMetadataView { follow_up: self.follow_up@, response: self.response@ }
    }
}

impl Clone for ReactMetadata {
    fn clone(&self) -> (r: Self)
        ensures
            r@ == self@,
    {
        ReactMetadata { follow_up: self.follow_up.clone(), response: self.response.clone() }
    }
}

pub open spec fn option_metadata_view(m: Option<ReactMetadata>) -> Option<ReactMetadataView> {
    match m {
        Some(x) => Some(x@),
        None => None,
    }
}

/// The payload of a node of the state graph.
pub struct GameState {
    pub board: Board,
    pub phase: PhaseType,
    pub react_metadata: Option<ReactMetadata>,
}

impl View for GameState {
    type V = GameStateView;

    open spec fn view(&self) -> GameStateView {
        GameStateView {
            board: self.board@,
            phase: self.phase,
            react_metadata: option_metadata_view(self.react_metadata),
        }
    }
}

impl Clone for GameState {
    fn clone(&self) -> (r: Self)
        ensures
            r@ == self@,
    {
        GameState {
            board: self.board.clone(),
            phase: self.phase,
            react_metadata: match &self.react_metadata {
                Some(m) => Some(m.clone()),
                None => None,
            },
        }
    }
}

impl GameState {
    /// A state on a copy of `board`, owing nothing.
    pub fn new(board: &Board, phase: &PhaseType) -> (r: Self)
        ensures
            r@ == (GameStateView { board: board@, phase: *phase, react_metadata: None }),
    {
        GameState { board: board.clone(), phase: *phase, react_metadata: None }
    }
}

fn add_cards(zone: &mut Vec<Card>, c: Card, n: usize)
    ensures
        final(zone)@ == old(zone)@ + copies(c, n as nat),
{
    let mut i: usize = 0;
    while i < n
        invariant
            i <= n,
            zone@ == old(zone)@ + copies(c, i as nat),
        decreases n - i,
    {
        zone.push(c);
        i = i + 1;
        assert(zone@ =~= old(zone)@ + copies(c, i as nat));
    }
}

fn compose(t: &Vec<(Card, usize)>) -> (r: Vec<Card>)
    ensures
        r@ == composition(t@),
{
    let mut r: Vec<Card> = Vec::new();
    let mut i: usize = 0;
    while i < t.len()
        invariant
            i <= t.len(),
            r@ == composition(t@.take(i as int)),
        decreases t.len() - i,
    {
        let (c, n) = t[i];
        add_cards(&mut r, c, n);
        i = i + 1;
        assert(t@.take(i as int).drop_last() =~= t@.take(i - 1));
    }
    assert(t@.take(i as int) =~= t@);
    r
}

impl Board {
    /// A board of `player_count` empty seats whose deck and nursery hold the
    /// cards that the two tables list, each entry a card and its count.
    pub fn from_composition(
        player_count: u8,
        deck: &Vec<(Card, usize)>,
        nursery: &Vec<(Card, usize)>,
    ) -> (r: Board)
        requires
            player_count >= 2,
        ensures
            r@ == composed_board(player_count as nat, deck@, nursery@),
    {
        let mut players: Vec<Player> = Vec::new();
        let mut i: u8 = 0;
        while i < player_count
            invariant
                i <= player_count,
                players@.len() == i,
                forall|j: int|
                    0 <= j < i ==> #[trigger] players@[j]@ == (PlayerView {
                        hand: Seq::empty(),
                        stable: Seq::empty(),
                    }),
            decreases player_count - i,
        {
            players.push(Player::new());
            i = i + 1;
        }
        assert(players_view(players@) =~= empty_seats(player_count as nat));
        let board = Board {
            players,
            deck: compose(deck),
            nursery: compose(nursery),
            discard: Vec::new(),
        };
        assert(board@ =~= composed_board(player_count as nat, deck@, nursery@));
        board
    }

    /// The base game for `player_count` seats: a deck of two Basic Unicorns,
    /// three Neighs, one Super Neigh, one Unicorn Phoenix and three Unicorn
    /// Poisons, and a nursery of three Baby Unicorns.
    pub fn new_base_game(player_count: u8) -> (r: Board)
        requires
            player_count >= 2,
        ensures
            r@ == composed_board(player_count as nat, base_deck_table(), base_nursery_table()),
    {
        let deck: Vec<(Card, usize)> = vec![
            (Card::BasicUnicorn, 2),
            (Card::Neigh, 3),
            (Card::SuperNeigh, 1),
            (Card::UnicornPhoenix, 1),
            (Card::UnicornPoison, 3),
        ];
        let nursery: Vec<(Card, usize)> = vec![(Card::BabyUnicorn, 3)];
        assert(deck@ =~= base_deck_table());
        assert(nursery@ =~= base_nursery_table());
        Board::from_composition(player_count, &deck, &nursery)
    }

    /// Draws the top (last) card of the deck.
    pub fn draw(&self) -> (r: LogicResult)
        ensures
            logic_result_view(r) == self@.draw_outcome(),
            self@.deck.len() == 0 <==> r is Err,
            r is Err ==> r == Err::<Option<Action>, LogicError>(LogicError::DeckEmpty),
    {
        if self.deck.len() == 0 {
            return Err(LogicError::DeckEmpty);
        }
        let mut new_deck = self.deck.clone();
        let card = new_deck.pop().unwrap();
        let new_board = Board {
            players: clone_players(&self.players),
            deck: new_deck,
            nursery: self.nursery.clone(),
            discard: self.discard.clone(),
        };
        assert(new_board@ =~= BoardView { deck: self@.deck.drop_last(), ..self@ });
        Ok(Some(Action { card, atype: ActionType::Draw, board: new_board }))
    }

    /// Draws the first card of kind `T` from the deck, wherever it lies;
    /// `None` where the deck holds no such card.
    pub fn draw_specific_card<T: CardKind>(&self) -> (r: LogicResult)
        ensures
            logic_result_view(r) == self@.specific_draw_outcome(T::kind()),
    {
        if self.deck.len() == 0 {
            return Err(LogicError::DeckEmpty);
        }
        match self.deck.remove_one_card_with_type::<T>() {
            Some((c, new_deck)) => {
                let new_board = Board {
                    players: clone_players(&self.players),
                    deck: new_deck,
                    nursery: self.nursery.clone(),
                    discard: self.discard.clone(),
                };
                assert(new_board@ =~= BoardView {
                    deck: without_first(self@.deck, T::kind()),
                    ..self@
                });
                Ok(Some(Action { card: c, atype: ActionType::Draw, board: new_board }))
            },
            None => Ok(None),
        }
    }

    pub(crate) fn push_stable(&mut self, i: usize, c: Card)
        requires
            i < old(self).players.len(),
        ensures
            final(self)@ == old(self)@.placed(i as int, c),
    {
        self.players[i].stable.push(c);
        assert(players_view(self.players@) =~= old(self)@.placed(i as int, c).players);
        assert(self@ =~= old(self)@.placed(i as int, c));
    }

    pub(crate) fn push_hand(&mut self, i: usize, c: Card)
        requires
            i < old(self).players.len(),
        ensures
            final(self)@ == old(self)@.handed(i as int, c),
    {
        self.players[i].hand.push(c);
        assert(players_view(self.players@) =~= old(self)@.handed(i as int, c).players);
        assert(self@ =~= old(self)@.handed(i as int, c));
    }

    pub(crate) fn remove_hand(&mut self, i: usize, k: usize) -> (r: Card)
        requires
            i < old(self).players.len(),
            k < old(self)@.players[i as int].hand.len(),
        ensures
            r == old(self)@.players[i as int].hand[k as int],
            final(self)@ == old(self)@.without_hand_card(i as int, k as int),
    {
        let c = self.players[i].hand.remove(k);
        assert(players_view(self.players@) =~= old(self)@.without_hand_card(i as int, k as int).players);
        assert(self@ =~= old(self)@.without_hand_card(i as int, k as int));
        c
    }

    pub(crate) fn remove_stable(&mut self, i: usize, k: usize) -> (r: Card)
        requires
            i < old(self).players.len(),
            k < old(self)@.players[i as int].stable.len(),
        ensures
            r == old(self)@.players[i as int].stable[k as int],
            final(self)@ == old(self)@.without_stable_card(i as int, k as int),
    {
        let c = self.players[i].stable.remove(k);
        assert(players_view(self.players@) =~= old(self)@.without_stable_card(i as int, k as int).players);
        assert(self@ =~= old(self)@.without_stable_card(i as int, k as int));
        c
    }
}

} // verus!
