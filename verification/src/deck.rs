//! The draw pile and the discard pile.

use rand::rngs::StdRng;
use vstd::multiset::Multiset;
use vstd::prelude::*;

use crate::domain::card::{lemma_all_cards, spec_all_cards, Card};
use crate::rng::shuffle_cards;

verus! {

broadcast use {vstd::seq_lib::group_to_multiset_ensures, vstd::multiset::group_multiset_axioms};

/// `number` copies of `card`.
pub open spec fn copies(card: Card, number: nat) -> Seq<Card> {
    Seq::new(number, |i: int| card)
}

/// Each card of `cards`, repeated as many times as it has copies.
pub open spec fn deck_of(cards: Seq<Card>) -> Seq<Card>
    decreases cards.len(),
{
    if cards.len() == 0 {
        Seq::empty()
    } else {
        deck_of(cards.drop_last()) + copies(cards.last(), cards.last().spec_number() as nat)
    }
}

/// A full deck, in the order in which it is laid out before shuffling.
pub open spec fn full_deck() -> Seq<Card> {
    deck_of(spec_all_cards())
}

/// Number of cards in a full deck.
pub open spec fn total_cards() -> nat {
    66
}

/// A full deck holds 66 cards.
pub proof fn lemma_full_deck_len()
    ensures
        full_deck().len() == total_cards(),
{
    let a = spec_all_cards();
    reveal_with_fuel(deck_of, 30);
    assert(a.drop_last().drop_last().drop_last().drop_last() =~= a.take(24));
    assert(deck_of(a).len() == 66);
}

/// The top `k` cards of the draw pile `d`, in the order they are drawn.
pub open spec fn top_cards(d: Seq<Card>, k: int) -> Seq<Card> {
    Seq::new(k as nat, |i: int| d[d.len() - 1 - i])
}

/// `cards` with the drawn card, if any, put back.
pub open spec fn insert_drawn(cards: Multiset<Card>, drawn: Option<Card>) -> Multiset<Card> {
    match drawn {
        Some(c) => cards.insert(c),
        None => cards,
    }
}

/// A copy of a list of cards.
pub fn copy_cards(v: &Vec<Card>) -> (r: Vec<Card>)
    ensures
        r@ == v@,
{
    let mut r: Vec<Card> = Vec::new();
    let mut i: usize = 0;
    while i < v.len()
        invariant
            i <= v.len(),
            r@ == v@.take(i as int),
        decreases v.len() - i,
    {
        r.push(v[i]);
        i = i + 1;
        assert(r@ =~= v@.take(i as int));
    }
    assert(v@.take(v.len() as int) =~= v@);
    r
}

/// The draw pile, the discard pile and the generator that shuffles them.
pub struct Deck {
    rng: StdRng,
    deck: Vec<Card>,
    drop: Vec<Card>,
    shuffles: Vec<Vec<Card>>,
}

impl Deck {
    /// The draw pile; its last card is drawn next.
    pub closed spec fn spec_deck(&self) -> Seq<Card> {
        self.deck@
    }

    /// The discard pile.
    pub closed spec fn spec_drop(&self) -> Seq<Card> {
        self.drop@
    }

    /// The order of the draw pile after each shuffle not yet reported.
    pub closed spec fn spec_shuffles(&self) -> Seq<Seq<Card>> {
        self.shuffles@.map_values(|v: Vec<Card>| v@)
    }

    /// The generator that shuffles the piles.
    pub closed spec fn spec_rng(&self) -> StdRng {
        self.rng
    }

    /// Number of cards in both piles.
    pub open spec fn spec_count(&self) -> nat {
        self.spec_deck().len() + self.spec_drop().len()
    }

    /// All cards of both piles.
    pub open spec fn spec_cards(&self) -> Multiset<Card> {
        self.spec_deck().to_multiset().add(self.spec_drop().to_multiset())
    }

    /// A full, shuffled draw pile and an empty discard pile; the shuffle is
    /// recorded.
    pub fn new(rng: StdRng) -> (r: Deck)
        ensures
            r.spec_deck().to_multiset() == full_deck().to_multiset(),
            r.spec_deck().len() == total_cards(),
            r.spec_drop() == Seq::<Card>::empty(),
            r.spec_shuffles() == seq![r.spec_deck()],
    {
        let mut rng = rng;
        let all = Card::all();
        let mut deck: Vec<Card> = Vec::new();
        let mut i: usize = 0;
        while i < all.len()
            invariant
                i <= all.len(),
                all@ == spec_all_cards(),
                deck@ == deck_of(all@.take(i as int)),
            decreases all.len() - i,
        {
            let c = all[i];
            let n = c.number();
            let mut j: u32 = 0;
            while j < n
                invariant
                    j <= n,
                    n == c.spec_number(),
                    deck@ == deck_of(all@.take(i as int)) + copies(c, j as nat),
                decreases n - j,
            {
                deck.push(c);
                j = j + 1;
                assert(deck@ =~= deck_of(all@.take(i as int)) + copies(c, j as nat));
            }
            proof {
                assert(all@.take(i + 1).drop_last() =~= all@.take(i as int));
                assert(all@.take(i + 1).last() == c);
            }
            i = i + 1;
        }
        proof {
            assert(all@.take(all.len() as int) =~= all@);
            lemma_full_deck_len();
        }
        shuffle_cards(&mut deck, &mut rng);
        let mut shuffles: Vec<Vec<Card>> = Vec::new();
        shuffles.push(copy_cards(&deck));
        let r = Deck { rng, deck, drop: Vec::new(), shuffles };
        assert(r.spec_shuffles() =~= seq![r.spec_deck()]);
        r
    }

    /// Draws the top card. An empty draw pile is first refilled with the
    /// shuffled discard pile, and the shuffle is recorded (also when both
    /// piles are empty); `None` when both piles are empty.
    pub fn take(&mut self) -> (r: Option<Card>)
        ensures
            old(self).spec_deck().len() > 0 ==> {
                &&& r == Some(old(self).spec_deck().last())
                &&& final(self).spec_deck() == old(self).spec_deck().drop_last()
                &&& final(self).spec_drop() == old(self).spec_drop()
                &&& final(self).spec_shuffles() == old(self).spec_shuffles()
            },
            old(self).spec_deck().len() == 0 && old(self).spec_drop().len() == 0 ==> {
                &&& r is None
                &&& final(self).spec_deck() == old(self).spec_deck()
                &&& final(self).spec_drop() == old(self).spec_drop()
                &&& final(self).spec_shuffles() == old(self).spec_shuffles().push(Seq::empty())
            },
            old(self).spec_deck().len() == 0 && old(self).spec_drop().len() > 0 ==> {
                &&& r is Some
                &&& final(self).spec_drop() == Seq::<Card>::empty()
                &&& final(self).spec_deck().push(r->0).to_multiset()
                    == old(self).spec_drop().to_multiset()
                &&& final(self).spec_shuffles() == old(self).spec_shuffles().push(
                    final(self).spec_deck().push(r->0),
                )
            },
            insert_drawn(final(self).spec_cards(), r) == old(self).spec_cards(),
            final(self).spec_count() + (if r is Some { 1int } else { 0 }) == old(self).spec_count(),
    {
        let ghost old_deck = self.deck@;
        let ghost old_drop = self.drop@;
        if self.deck.is_empty() {
            std::mem::swap(&mut self.deck, &mut self.drop);
            shuffle_cards(&mut self.deck, &mut self.rng);
            let snapshot = copy_cards(&self.deck);
            self.shuffles.push(snapshot);
            proof {
                assert(self.spec_shuffles() =~= old(self).spec_shuffles().push(self.deck@));
            }
        }
        let ghost mid = self.deck@;
        let r = self.deck.pop();
        proof {
            if mid.len() > 0 {
                assert(mid =~= self.deck@.push(r->0));
                vstd::seq_lib::lemma_multiset_commutative(self.deck@, seq![r->0]);
            }
            if old_deck.len() == 0 && old_drop.len() == 0 {
                assert(mid =~= Seq::<Card>::empty());
                assert(self.spec_shuffles() =~= old(self).spec_shuffles().push(Seq::empty()));
                assert(self.deck@ =~= old_deck);
                assert(self.drop@ =~= old_drop);
            }
            if old_deck.len() == 0 {
                assert(old_deck.to_multiset() =~= Multiset::empty());
                assert(Seq::<Card>::empty().to_multiset() =~= Multiset::empty());
            } else {
                assert(old_deck =~= self.deck@.push(r->0));
            }
        }
        r
    }

    /// Puts a card on the discard pile.
    pub fn drop(&mut self, c: Card)
        ensures
            final(self).spec_deck() == old(self).spec_deck(),
            final(self).spec_drop() == old(self).spec_drop().push(c),
            final(self).spec_shuffles() == old(self).spec_shuffles(),
            final(self).spec_cards() == old(self).spec_cards().insert(c),
    {
        self.drop.push(c);
        proof {
            vstd::seq_lib::lemma_multiset_commutative(old(self).drop@, seq![c]);
            assert(seq![c].to_multiset() =~= Multiset::singleton(c));
        }
    }

    /// The draw pile.
    pub fn peek_deck(&self) -> (r: &[Card])
        ensures
            r@ == self.spec_deck(),
    {
        self.deck.as_slice()
    }

    /// The discard pile.
    pub fn peek_drop(&self) -> (r: &[Card])
        ensures
            r@ == self.spec_drop(),
    {
        self.drop.as_slice()
    }

    /// Hands over the recorded shuffles, oldest first, and forgets them.
    pub fn take_shuffles(&mut self) -> (r: Vec<Vec<Card>>)
        ensures
            r@.map_values(|v: Vec<Card>| v@) == old(self).spec_shuffles(),
            final(self).spec_shuffles() == Seq::<Seq<Card>>::empty(),
            final(self).spec_deck() == old(self).spec_deck(),
            final(self).spec_drop() == old(self).spec_drop(),
    {
        let mut r: Vec<Vec<Card>> = Vec::new();
        std::mem::swap(&mut r, &mut self.shuffles);
        assert(self.spec_shuffles() =~= Seq::<Seq<Card>>::empty());
        r
    }

    /// The generator, for drawing from it.
    pub fn rng(&mut self) -> (r: &mut StdRng)
        ensures
            *r == old(self).spec_rng(),
            final(self).spec_rng() == *final(r),
            final(self).spec_deck() == old(self).spec_deck(),
            final(self).spec_drop() == old(self).spec_drop(),
            final(self).spec_shuffles() == old(self).spec_shuffles(),
    {
        &mut self.rng
    }
}

} // verus!
