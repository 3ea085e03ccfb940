use vstd::prelude::*;

verus! {

/// The name of the suit at `i` (0, 1 or 2).
pub open spec fn suit_name(i: int) -> Seq<char> {
    if i == 0 {
        "Hearts"@
    } else if i == 1 {
        "Spades"@
    } else {
        "Diamonds"@
    }
}

/// The name of the value at `i` (0, 1 or 2).
pub open spec fn value_name(i: int) -> Seq<char> {
    if i == 0 {
        "Ace"@
    } else if i == 1 {
        "Two"@
    } else {
        "Three"@
    }
}

/// The card at position `i` of a new deck: suits in turn, each with every
/// value, as `"{value} of {suit}"`.
pub open spec fn new_deck_card(i: int) -> Seq<char> {
    value_name(i % 3) + " of "@ + suit_name(i / 3)
}

fn suit(i: usize) -> (r: &'static str)
    requires
        i < 3,
    ensures
        r@ == suit_name(i as int),
{
    proof {
        reveal_strlit("Hearts");
        reveal_strlit("Spades");
        reveal_strlit("Diamonds");
    }
    if i == 0 {
        "Hearts"
    } else if i == 1 {
        "Spades"
    } else {
        "Diamonds"
    }
}

fn value(i: usize) -> (r: &'static str)
    requires
        i < 3,
    ensures
        r@ == value_name(i as int),
{
    proof {
        reveal_strlit("Ace");
        reveal_strlit("Two");
        reveal_strlit("Three");
    }
    if i == 0 {
        "Ace"
    } else if i == 1 {
        "Two"
    } else {
        "Three"
    }
}

/// Relies on rand's `SliceRandom::shuffle` with the thread-local generator:
/// it only swaps elements, so the same cards come back in some order.
#[verifier::external_body]
fn shuffle_cards(cards: &mut Vec<String>)
    ensures
        final(cards)@.len() == old(cards)@.len(),
        final(cards)@.to_multiset() == old(cards)@.to_multiset(),
{
    rand::seq::SliceRandom::shuffle(cards.as_mut_slice(), &mut rand::thread_rng())
}

/// A deck of playing cards, the top card last.
#[derive(Debug)]
pub struct Deck {
    pub cards: Vec<String>,
}

impl Deck {
    /// The nine cards of three suits and three values, in order.
    pub fn new() -> (r: Deck)
        ensures
            r.cards@.len() == 9,
            forall|i: int| 0 <= i < 9 ==> #[trigger] r.cards@[i]@ == new_deck_card(i),
    {
        let mut cards: Vec<String> = Vec::new();
        let mut s: usize = 0;
        while s < 3
            invariant
                s <= 3,
                cards@.len() == 3 * s,
                forall|i: int| 0 <= i < cards@.len() ==> #[trigger] cards@[i]@ == new_deck_card(i),
            decreases 3 - s,
        {
            let mut v: usize = 0;
            while v < 3
                invariant
                    s < 3,
                    v <= 3,
                    cards@.len() == 3 * s + v,
                    forall|i: int| 0 <= i < cards@.len() ==> #[trigger] cards@[i]@ == new_deck_card(i),
                decreases 3 - v,
            {
                let mut card = String::new();
                card.append(value(v));
                card.append(" of ");
                card.append(suit(s));
                proof {
                    reveal_strlit(" of ");
                    let k = 3 * s + v;
                    assert(k % 3 == v as int && k / 3 == s as int);
                    assert(card@ =~= new_deck_card(k as int));
                }
                cards.push(card);
                v = v + 1;
            }
            s = s + 1;
        }
        Deck { cards }
    }

    /// Puts the cards in a random order.
    pub fn shuffle(&mut self)
        ensures
            final(self).cards@.len() == old(self).cards@.len(),
            final(self).cards@.to_multiset() == old(self).cards@.to_multiset(),
    {
        shuffle_cards(&mut self.cards);
    }

    /// Takes the top `num_cards` cards off the deck, in their deck order.
    pub fn deal(&mut self, num_cards: usize) -> (r: Vec<String>)
        requires
            num_cards <= old(self).cards@.len(),
        ensures
            final(self).cards@ == old(self).cards@.subrange(0, old(self).cards@.len() - num_cards),
            r@ == old(self).cards@.subrange(
                old(self).cards@.len() - num_cards,
                old(self).cards@.len() as int,
            ),
    {
        let at = self.cards.len() - num_cards;
        self.cards.split_off(at)
    }
}

} // verus!
