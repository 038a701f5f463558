//! A decision maker that picks uniformly among what it is offered.

use rand::rngs::StdRng;
use vstd::prelude::*;

use crate::domain::{Card, DestroyTarget, MagicianSkill, Oper, PlayerOffset, Role, RoleSet};
use crate::obs::Obs;
use crate::rng::{random_below, rng_from_seed};

verus! {

/// Two to the power `k`.
pub open spec fn two_to(k: nat) -> nat
    decreases k,
{
    if k == 0 {
        1
    } else {
        2 * two_to((k - 1) as nat)
    }
}

/// Whether bit `i` of `mask` is set.
pub open spec fn bit_set(mask: nat, i: nat) -> bool {
    (mask / two_to(i)) % 2 == 1
}

/// The cards among the first `k` of `hand` whose bit is set in `mask`, in
/// hand order.
pub open spec fn selected_cards(hand: Seq<Card>, mask: nat, k: nat) -> Seq<Card>
    decreases k,
{
    if k == 0 {
        Seq::empty()
    } else {
        let rest = selected_cards(hand, mask, (k - 1) as nat);
        if bit_set(mask, (k - 1) as nat) {
            rest.push(hand[k - 1])
        } else {
            rest
        }
    }
}

/// What choice number `index` of the magician stands for, with `k` cards
/// in hand: 0 passes, the next `2^k - 1` numbers replace the cards whose
/// bits are set, the rest swap with the player that many seats on.
pub open spec fn magic_choice_is(r: MagicianSkill, index: nat, hand: Seq<Card>) -> bool {
    let k = hand.len();
    if index == 0 {
        r is Pass
    } else if index < two_to(k) {
        r matches MagicianSkill::Replace(cards) && cards@ == selected_cards(hand, index, k)
    } else {
        r matches MagicianSkill::Swap(offset) && offset.spec_value() == index - two_to(k) + 1
    }
}

proof fn lemma_two_to_positive(k: nat)
    ensures
        two_to(k) >= 1,
    decreases k,
{
    if k > 0 {
        lemma_two_to_positive((k - 1) as nat);
    }
}

/// Two to the power `k`.
fn two_to_usize(k: usize) -> (r: usize)
    requires
        two_to(k as nat) <= usize::MAX,
    ensures
        r == two_to(k as nat),
{
    let mut p: usize = 1;
    let mut i: usize = 0;
    while i < k
        invariant
            i <= k,
            p == two_to(i as nat),
            two_to(k as nat) <= usize::MAX,
        decreases k - i,
    {
        proof {
            lemma_two_to_monotone((i + 1) as nat, k as nat);
        }
        p = p * 2;
        i = i + 1;
    }
    p
}

proof fn lemma_two_to_monotone(a: nat, b: nat)
    requires
        a <= b,
    ensures
        two_to(a) <= two_to(b),
    decreases b,
{
    if a < b {
        lemma_two_to_monotone(a, (b - 1) as nat);
        lemma_two_to_positive((b - 1) as nat);
    }
}

/// Whether `2^k + extra` fits in a `usize`.
pub fn two_to_fits(k: usize, extra: usize) -> (r: bool)
    ensures
        r == (two_to(k as nat) + extra <= usize::MAX),
{
    let mut p: usize = 1;
    let mut i: usize = 0;
    while i < k
        invariant
            i <= k,
            p == two_to(i as nat),
        decreases k - i,
    {
        if p > usize::MAX / 2 {
            proof {
                lemma_two_to_monotone((i + 1) as nat, k as nat);
            }
            return false;
        }
        p = p * 2;
        i = i + 1;
    }
    p <= usize::MAX - extra
}

/// The magician's choice number `index`, with the observer's hand.
pub fn magic_choice(index: usize, obs: &Obs) -> (r: MagicianSkill)
    requires
        two_to(obs.actor_info.cards@.len()) <= usize::MAX,
    ensures
        magic_choice_is(r, index as nat, obs.actor_info.cards@),
{
    let ghost hand = obs.actor_info.cards@;
    let k = obs.actor_num_cards();
    let p = two_to_usize(k);
    proof {
        lemma_two_to_positive(k as nat);
        assert(two_to(0) == 1);
    }
    if index == 0 {
        MagicianSkill::Pass
    } else if index < p {
        let mut cards: Vec<Card> = Vec::new();
        let mut rest: usize = index;
        let mut i: usize = 0;
        while i < k
            invariant
                i <= k,
                k == hand.len(),
                hand == obs.actor_info.cards@,
                rest == index as nat / two_to(i as nat),
                cards@ == selected_cards(hand, index as nat, i as nat),
            decreases k - i,
        {
            proof {
                lemma_two_to_positive(i as nat);
                vstd::arithmetic::div_mod::lemma_div_denominator(index as int, two_to(i as nat) as int, 2);
                assert(two_to(i as nat) * 2 == two_to((i + 1) as nat));
            }
            if rest % 2 == 1 {
                cards.push(obs.hero_card_at(i));
            }
            rest = rest / 2;
            i = i + 1;
        }
        MagicianSkill::Replace(cards)
    } else {
        MagicianSkill::Swap(PlayerOffset::from_usize(index - p + 1))
    }
}

/// A decision maker that picks uniformly at random among what it is offered.
pub struct RandomFAAgent {
    rng: StdRng,
}

impl RandomFAAgent {
    /// An agent whose generator is seeded with `seed`.
    pub fn new(seed: u64) -> (r: RandomFAAgent) {
        RandomFAAgent { rng: rng_from_seed(seed) }
    }

    /// Keeps one of the two setup cards.
    pub fn choose_init_card(&mut self, obs: &Obs, c0: Card, c1: Card) -> (r: Card)
        ensures
            r == c0 || r == c1,
    {
        if random_below(&mut self.rng, 2) == 0 {
            c0
        } else {
            c1
        }
    }

    /// Picks one of the offered roles.
    pub fn choose_role(&mut self, obs: &Obs, roles: RoleSet) -> (r: Role)
        requires
            roles@.len() > 0,
        ensures
            roles@.contains(r),
    {
        roles.random_choose(&mut self.rng)
    }

    /// Picks the role to kill.
    pub fn choose_kill_target(&mut self, obs: &Obs, choices: RoleSet) -> (r: Role)
        requires
            choices@.len() > 0,
        ensures
            choices@.contains(r),
    {
        choices.random_choose(&mut self.rng)
    }

    /// Picks the role to rob.
    pub fn choose_steal_target(&mut self, obs: &Obs, choices: RoleSet) -> (r: Role)
        requires
            choices@.len() > 0,
        ensures
            choices@.contains(r),
    {
        choices.random_choose(&mut self.rng)
    }

    /// Picks one of the magician's `2^k + n - 1` choices with `k` cards in
    /// hand at a table of `n`: pass, replace a non-empty set of cards, or
    /// swap with another player.
    pub fn choose_swap_target(&mut self, obs: &Obs) -> (r: MagicianSkill)
        requires
            obs.num_players >= 1,
            two_to(obs.actor_info.cards@.len()) + obs.num_players - 1 <= usize::MAX,
        ensures
            exists|i: nat| i < two_to(obs.actor_info.cards@.len()) + obs.num_players - 1 && magic_choice_is(r, i, obs.actor_info.cards@),
    {
        let p = two_to_usize(obs.actor_num_cards());
        proof {
            lemma_two_to_positive(obs.actor_info.cards@.len());
        }
        let num_choices = p + (obs.num_players() - 1);
        let index = random_below(&mut self.rng, num_choices);
        magic_choice(index, obs)
    }

    /// Picks one of the buildings offered, or none, each with the same chance.
    pub fn choose_destory_target(&mut self, obs: &Obs, choices: &[DestroyTarget]) -> (r: Option<DestroyTarget>)
        requires
            choices@.len() < usize::MAX,
        ensures
            r matches Some(t) ==> choices@.contains(t),
            choices@.len() == 0 ==> r is None,
    {
        let v = random_below(&mut self.rng, choices.len() + 1);
        if v == choices.len() {
            return None;
        }
        proof {
            assert(choices@[v as int] == choices[v as int]);
        }
        Some(choices[v])
    }

    /// Decides by a coin toss whether the graveyard's owner buys the card.
    pub fn choose_tomb(&mut self, obs: &Obs, c: Card) -> (r: bool) {
        random_below(&mut self.rng, 2) == 0
    }

    /// Picks one of the offered operations.
    pub fn choose_oper(&mut self, obs: &Obs, choices: &[Oper]) -> (r: Oper)
        requires
            choices@.len() > 0,
        ensures
            choices@.contains(r),
    {
        let v = random_below(&mut self.rng, choices.len());
        proof {
            assert(choices@[v as int] == choices[v as int]);
        }
        choices[v]
    }

    /// Keeps one of two drawn cards.
    pub fn choose_from_2(&mut self, obs: &Obs, c0: Card, c1: Card) -> (r: Card)
        ensures
            r == c0 || r == c1,
    {
        if random_below(&mut self.rng, 2) == 0 {
            c0
        } else {
            c1
        }
    }

    /// Keeps one of three drawn cards.
    pub fn choose_from_3(&mut self, obs: &Obs, c0: Card, c1: Card, c2: Card) -> (r: Card)
        ensures
            r == c0 || r == c1 || r == c2,
    {
        let v = random_below(&mut self.rng, 3);
        if v == 0 {
            c0
        } else if v == 1 {
            c1
        } else {
            c2
        }
    }
}

} // verus!
