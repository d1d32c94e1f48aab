//! The cards, their categories, and queries over a zone by concrete card.

use vstd::prelude::*;

verus! {

/// The category of a card, which decides in which phases it can be played.
#[derive(Clone, Copy, Debug, PartialEq, Eq, Structural)]
pub enum CardType {
    Null,
    Instant,
    Magic,
    Downgrade,
    Upgrade,
    BasicUnicorn,
    MagicUnicorn,
    BabyUnicorn,
}

impl CardType {
    pub open spec fn spec_is_unicorn(self) -> bool {
        self == CardType::BasicUnicorn || self == CardType::MagicUnicorn || self
            == CardType::BabyUnicorn
    }

    /// True for the three unicorn categories.
    pub fn is_unicorn(&self) -> (r: bool)
        ensures
            r == self.spec_is_unicorn(),
    {
        match self {
            CardType::BasicUnicorn => true,
            CardType::MagicUnicorn => true,
            CardType::BabyUnicorn => true,
            _ => false,
        }
    }
}

/// A card of the game. Each variant is one concrete card; cards move between
/// zones by value.
#[derive(Clone, Copy, Debug, PartialEq, Eq, Structural)]
pub enum Card {
    BasicUnicorn,
    UnicornPhoenix,
    BabyUnicorn,
    SuperNeigh,
    Neigh,
    UnicornPoison,
}

pub open spec fn spec_name(c: Card) -> Seq<char> {
    match c {
        Card::BasicUnicorn => "Basic Unicorn"@,
        Card::UnicornPhoenix => "Unicorn Phoenix"@,
        Card::BabyUnicorn => "Baby Unicorn"@,
        Card::SuperNeigh => "Super Neigh"@,
        Card::Neigh => "Neigh"@,
        Card::UnicornPoison => "Unicorn Poison"@,
    }
}

impl Card {
    pub open spec fn spec_ctype(self) -> CardType {
        match self {
            Card::BasicUnicorn => CardType::BasicUnicorn,
            Card::UnicornPhoenix => CardType::MagicUnicorn,
            Card::BabyUnicorn => CardType::BabyUnicorn,
            Card::SuperNeigh => CardType::Instant,
            Card::Neigh => CardType::Instant,
            Card::UnicornPoison => CardType::Magic,
        }
    }

    pub fn ctype(&self) -> (r: CardType)
        ensures
            r == self.spec_ctype(),
    {
        match self {
            Card::BasicUnicorn => CardType::BasicUnicorn,
            Card::UnicornPhoenix => CardType::MagicUnicorn,
            Card::BabyUnicorn => CardType::BabyUnicorn,
            Card::SuperNeigh => CardType::Instant,
            Card::Neigh => CardType::Instant,
            Card::UnicornPoison => CardType::Magic,
        }
    }

    pub fn name(&self) -> (r: &'static str)
        ensures
            r@ == spec_name(*self),
    {
        match self {
            Card::BasicUnicorn => "Basic Unicorn",
            Card::UnicornPhoenix => "Unicorn Phoenix",
            Card::BabyUnicorn => "Baby Unicorn",
            Card::SuperNeigh => "Super Neigh",
            Card::Neigh => "Neigh",
            Card::UnicornPoison => "Unicorn Poison",
        }
    }
}

impl Card {
    /// Whether this card is of the concrete kind `T`.
    pub fn is<T: CardKind>(&self) -> (r: bool)
        ensures
            r == (*self == T::kind()),
    {
        *self == T::card()
    }
}

/// A concrete kind of card, named by its type so that queries can ask for
/// "a Neigh" rather than "an Instant".
pub trait CardKind {
    spec fn kind() -> Card;

    fn card() -> (c: Card)
        ensures
            c == Self::kind(),
    ;
}

/// A Basic Unicorn: a unicorn with no ability of its own.
#[derive(Clone, Copy, Debug)]
pub struct BasicUnicorn {}

/// A Unicorn Phoenix: a magic unicorn that comes back when destroyed or
/// sacrificed, for a card discarded from the hand.
#[derive(Clone, Copy, Debug)]
pub struct UnicornPhoenix {}

/// A Baby Unicorn: the unicorn that each seat starts with, from the nursery.
#[derive(Clone, Copy, Debug)]
pub struct BabyUnicorn {}

/// A Super Neigh: an instant that no Neigh can counter.
#[derive(Clone, Copy, Debug)]
pub struct SuperNeigh {}

/// A Neigh: an instant that counters the latest action.
#[derive(Clone, Copy, Debug)]
pub struct Neigh {}

/// A Unicorn Poison: a magic card that destroys a unicorn.
#[derive(Clone, Copy, Debug)]
pub struct UnicornPoison {}

impl CardKind for BasicUnicorn {
    open spec fn kind() -> Card {
        Card::BasicUnicorn
    }

    fn card() -> (c: Card) {
        Card::BasicUnicorn
    }
}

impl CardKind for UnicornPhoenix {
    open spec fn kind() -> Card {
        Card::UnicornPhoenix
    }

    fn card() -> (c: Card) {
        Card::UnicornPhoenix
    }
}

impl CardKind for BabyUnicorn {
    open spec fn kind() -> Card {
        Card::BabyUnicorn
    }

    fn card() -> (c: Card) {
        Card::BabyUnicorn
    }
}

impl CardKind for SuperNeigh {
    open spec fn kind() -> Card {
        Card::SuperNeigh
    }

    fn card() -> (c: Card) {
        Card::SuperNeigh
    }
}

impl CardKind for Neigh {
    open spec fn kind() -> Card {
        Card::Neigh
    }

    fn card() -> (c: Card) {
        Card::Neigh
    }
}

impl CardKind for UnicornPoison {
    open spec fn kind() -> Card {
        Card::UnicornPoison
    }

    fn card() -> (c: Card) {
        Card::UnicornPoison
    }
}

/// A zone: an ordered collection of cards.
pub type Cards = Vec<Card>;

/// The number of copies of `c` in `s`.
pub open spec fn count_of(s: Seq<Card>, c: Card) -> nat
    decreases s.len(),
{
    if s.len() == 0 {
        0
    } else {
        count_of(s.drop_last(), c) + if s.last() == c {
            1nat
        } else {
            0nat
        }
    }
}

pub proof fn lemma_count_of_multiset(s: Seq<Card>, c: Card)
    ensures
        count_of(s, c) == s.to_multiset().count(c),
    decreases s.len(),
{
    s.to_multiset_ensures();
    if s.len() > 0 {
        let t = s.drop_last();
        lemma_count_of_multiset(t, c);
        t.to_multiset_ensures();
        assert(s =~= t.push(s.last()));
    }
}

/// The position of the first copy of `c` in `s` (the length if there is none).
pub open spec fn first_index(s: Seq<Card>, c: Card) -> int
    decreases s.len(),
{
    if s.len() == 0 {
        0
    } else if s[0] == c {
        0
    } else {
        1 + first_index(s.subrange(1, s.len() as int), c)
    }
}

pub proof fn lemma_first_index(s: Seq<Card>, c: Card)
    ensures
        0 <= first_index(s, c) <= s.len(),
        s.contains(c) <==> first_index(s, c) < s.len(),
        first_index(s, c) < s.len() ==> s[first_index(s, c)] == c,
        forall|j: int| 0 <= j < first_index(s, c) ==> s[j] != c,
    decreases s.len(),
{
    if s.len() > 0 && s[0] != c {
        let t = s.subrange(1, s.len() as int);
        lemma_first_index(t, c);
        assert forall|j: int| 0 <= j < first_index(s, c) implies s[j] != c by {
            if j > 0 {
                assert(s[j] == t[j - 1]);
            }
        }
        if s.contains(c) {
            let k = choose|k: int| 0 <= k < s.len() && s[k] == c;
            assert(t[k - 1] == c);
        }
        if t.contains(c) {
            let k = choose|k: int| 0 <= k < t.len() && t[k] == c;
            assert(s[k + 1] == c);
        }
    } else if s.len() > 0 {
        assert(s[0] == c);
    }
}

/// `s` with its first copy of `c` taken out.
pub open spec fn without_first(s: Seq<Card>, c: Card) -> Seq<Card> {
    s.remove(first_index(s, c))
}

/// Queries over a zone by the concrete kind of card.
pub trait QueryCards: View<V = Seq<Card>> {
    /// The first card of kind `T` and the zone without it, in order, or
    /// `None` where there is none.
    fn remove_one_card_with_type<T: CardKind>(&self) -> (r: Option<(Card, Cards)>)
        ensures
            match r {
                Some((c, rest)) => {
                    &&& self@.contains(T::kind())
                    &&& c == T::kind()
                    &&& rest@ == without_first(self@, T::kind())
                },
                None => !self@.contains(T::kind()),
            },
    ;

    /// Whether the zone holds a card of kind `T`.
    fn has_card<T: CardKind>(&self) -> (r: bool)
        ensures
            r == self@.contains(T::kind()),
    ;

    /// How many cards of kind `T` the zone holds.
    fn count_card<T: CardKind>(&self) -> (r: usize)
        ensures
            r == count_of(self@, T::kind()),
    ;
}

impl QueryCards for Vec<Card> {
    fn remove_one_card_with_type<T: CardKind>(&self) -> (r: Option<(Card, Cards)>) {
        let want = T::card();
        let mut idx: usize = 0;
        while idx < self.len()
            invariant
                idx <= self@.len(),
                want == T::kind(),
                forall|j: int| 0 <= j < idx ==> self@[j] != want,
            decreases self.len() - idx,
        {
            if self[idx] == want {
                proof {
                    assert(self@[idx as int] == want);
                    lemma_first_index(self@, want);
                    assert(first_index(self@, want) == idx);
                }
                let mut rest = self.clone();
                let c = rest.remove(idx);
                return Some((c, rest));
            }
            idx = idx + 1;
        }
        proof {
            lemma_first_index(self@, want);
        }
        None
    }

    fn has_card<T: CardKind>(&self) -> (r: bool) {
        let want = T::card();
        let mut idx: usize = 0;
        while idx < self.len()
            invariant
                idx <= self@.len(),
                want == T::kind(),
                forall|j: int| 0 <= j < idx ==> self@[j] != want,
            decreases self.len() - idx,
        {
            if self[idx] == want {
                assert(self@[idx as int] == want);
                return true;
            }
            idx = idx + 1;
        }
        false
    }

    fn count_card<T: CardKind>(&self) -> (r: usize) {
        let want = T::card();
        let mut n: usize = 0;
        let mut idx: usize = 0;
        while idx < self.len()
            invariant
                idx <= self@.len(),
                want == T::kind(),
                n == count_of(self@.take(idx as int), want),
                n <= idx,
            decreases self.len() - idx,
        {
            if self[idx] == want {
                n = n + 1;
            }
            idx = idx + 1;
            assert(self@.take(idx as int).drop_last() =~= self@.take(idx - 1));
        }
        assert(self@.take(idx as int) =~= self@);
        n
    }
}

} // verus!
