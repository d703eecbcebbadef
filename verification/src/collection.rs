//! The card collection: an immutable snapshot of the whole catalogue, in
//! which no two cards share an id.

use crate::cards::Card;
use crate::text::same_text;
use vstd::prelude::*;

verus! {

/// No two cards of the sequence share an id.
pub open spec fn distinct_ids(cards: Seq<Card>) -> bool {
    forall|i: int, j: int|
        0 <= i < j < cards.len() ==> (#[trigger] cards[i]).id@ != (#[trigger] cards[j]).id@
}

/// Some card of the sequence has the id.
pub open spec fn has_id(cards: Seq<Card>, id: Seq<char>) -> bool {
    exists|i: int| 0 <= i < cards.len() && (#[trigger] cards[i]).id@ == id
}

/// The first index at which a card with the id stands; the length of the
/// sequence if there is none.
pub open spec fn index_of_id(cards: Seq<Card>, id: Seq<char>) -> int
    decreases cards.len(),
{
    if cards.len() == 0 {
        0
    } else if cards[0].id@ == id {
        0
    } else {
        1 + index_of_id(cards.drop_first(), id)
    }
}

/// The sequence after one card has been entered: it takes the place of the
/// card with the same id, or comes last if there is none.
pub open spec fn entered(cards: Seq<Card>, card: Card) -> Seq<Card> {
    let i = index_of_id(cards, card.id@);
    if i < cards.len() {
        cards.update(i, card)
    } else {
        cards.push(card)
    }
}

/// The collection that a list of cards makes: the cards are entered one by
/// one, so that of several cards with one id the last one stays, at the place
/// of the first.
pub open spec fn collected(cards: Seq<Card>) -> Seq<Card>
    decreases cards.len(),
{
    if cards.len() == 0 {
        Seq::empty()
    } else {
        entered(collected(cards.drop_last()), cards.last())
    }
}

/// `index_of_id` finds the first card with the id, if there is one.
pub proof fn lemma_index_of_id(cards: Seq<Card>, id: Seq<char>)
    ensures
        0 <= index_of_id(cards, id) <= cards.len(),
        index_of_id(cards, id) < cards.len() ==> cards[index_of_id(cards, id)].id@ == id,
        forall|k: int| 0 <= k < index_of_id(cards, id) ==> (#[trigger] cards[k]).id@ != id,
    decreases cards.len(),
{
    if cards.len() > 0 && cards[0].id@ != id {
        let rest = cards.drop_first();
        lemma_index_of_id(rest, id);
        assert forall|k: int| 0 <= k < index_of_id(cards, id) implies (#[trigger] cards[k]).id@
            != id by {
            if k > 0 {
                assert(cards[k] == rest[k - 1]);
            }
        }
    }
}

/// Entering a card keeps the ids distinct.
pub proof fn lemma_entered_distinct(cards: Seq<Card>, card: Card)
    requires
        distinct_ids(cards),
    ensures
        distinct_ids(entered(cards, card)),
{
    lemma_index_of_id(cards, card.id@);
    let i = index_of_id(cards, card.id@);
    let out = entered(cards, card);
    assert forall|a: int, b: int| 0 <= a < b < out.len() implies (#[trigger] out[a]).id@ != (
    #[trigger] out[b]).id@ by {
        if i < cards.len() {
            assert(cards[i].id@ == card.id@);
            assert(cards[a].id@ != cards[b].id@);
        } else if b < cards.len() {
            assert(cards[a].id@ != cards[b].id@);
        } else {
            assert(cards[a].id@ != card.id@);
        }
    }
}

/// A collection built from any list of cards has distinct ids.
pub proof fn lemma_collected_distinct(cards: Seq<Card>)
    ensures
        distinct_ids(collected(cards)),
    decreases cards.len(),
{
    if cards.len() > 0 {
        lemma_collected_distinct(cards.drop_last());
        lemma_entered_distinct(collected(cards.drop_last()), cards.last());
    }
}

/// A point-in-time view of the whole catalogue. Cards keep the order in which
/// they were entered, and no two share an id.
pub struct CardCollection {
    cards: Vec<Card>,
}

impl View for CardCollection {
    type V = Seq<Card>;

    closed spec fn view(&self) -> Seq<Card> {
        self.cards@
    }
}

impl CardCollection {
    #[verifier::type_invariant]
    spec fn well_formed(&self) -> bool {
        distinct_ids(self.cards@)
    }

    /// The empty collection.
    pub fn new() -> (out: CardCollection)
        ensures
            out@ == Seq::<Card>::empty(),
    {
        CardCollection { cards: Vec::new() }
    }

    /// The cards, in collection order.
    pub fn cards(&self) -> (out: &Vec<Card>)
        ensures
            out@ == self@,
            distinct_ids(out@),
    {
        proof {
            use_type_invariant(self);
        }
        &self.cards
    }

    /// The number of cards.
    pub fn len(&self) -> (n: usize)
        ensures
            n == self@.len(),
    {
        self.cards.len()
    }

    /// The collection with one more card entered: it replaces the card with
    /// the same id, or is added at the end.
    pub fn with_card(self, card: Card) -> (out: CardCollection)
        ensures
            out@ == entered(self@, card),
    {
        proof {
            use_type_invariant(&self);
            lemma_entered_distinct(self.cards@, card);
        }
        let mut cards = self.cards;
        let i = position(&cards, card.id.as_str());
        if i < cards.len() {
            cards.set(i, card);
        } else {
            cards.push(card);
        }
        CardCollection { cards }
    }
}

/// The first index at which a card with the id stands; the number of cards if
/// there is none.
pub fn position(cards: &Vec<Card>, id: &str) -> (i: usize)
    ensures
        i == index_of_id(cards@, id@),
        i <= cards.len(),
{
    let mut i: usize = 0;
    assert(cards@.skip(0) =~= cards@);
    while i < cards.len()
        invariant
            i <= cards.len(),
            index_of_id(cards@, id@) == i + index_of_id(cards@.skip(i as int), id@),
        decreases cards.len() - i,
    {
        if same_text(cards[i].id.as_str(), id) {
            return i;
        }
        assert(cards@.skip(i as int).drop_first() =~= cards@.skip(i + 1));
        i += 1;
    }
    i
}

/// Builds the collection from a list of cards. Of several cards with one id
/// the last one stays.
pub fn create_card_map(cards: Vec<Card>) -> (out: CardCollection)
    ensures
        out@ == collected(cards@),
        distinct_ids(out@),
{
    let mut out = CardCollection::new();
    let ghost all = cards@;
    for card in it: cards
        invariant
            it.seq() == all,
            out@ == collected(all.take(it.index() as int)),
    {
        proof {
            let n = it.index() as int;
            assert(all.take(n + 1).drop_last() =~= all.take(n));
        }
        out = out.with_card(card);
    }
    proof {
        assert(all.take(all.len() as int) =~= all);
        lemma_collected_distinct(all);
    }
    out
}

/// The card with the given id, if the collection holds one.
pub fn lookup<'a>(id: &str, snapshot: &'a CardCollection) -> (found: Option<&'a Card>)
    ensures
        match found {
            Some(card) => card.id@ == id@ && snapshot@.contains(*card),
            None => !has_id(snapshot@, id@),
        },
{
    let cards = snapshot.cards();
    let i = position(cards, id);
    proof {
        lemma_index_of_id(cards@, id@);
    }
    if i < cards.len() {
        Some(&cards[i])
    } else {
        None
    }
}

} // verus!
