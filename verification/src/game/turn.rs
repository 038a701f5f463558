//! Operations during a turn: what the player is offered, and carrying out
//! the operation it chose.

use vstd::prelude::*;

use crate::domain::{Card, Color, Oper, OptionRole, PlayerIndex, Role};
use crate::game::{appended, records_answer, Answer, build_base, lemma_players_cards_update, Effect, Game, GameError, Phase, Request, TurnState};
use crate::deck::{insert_drawn, top_cards, Deck};
use crate::game::laws::phase_actor;
use crate::game::role_execution_service::{turn_began, turns_pass};
use crate::player::{count_color, lemma_remove_first, remove_first, PlayerState};

verus! {

/// Gold the `Gold` operation gives: two, and one more per building of the
/// role's colour for the king (yellow), the bishop (blue), the merchant
/// (green) and the warlord (red).
pub open spec fn gold_amount(p: PlayerState) -> u32 {
    match p.role {
        Some(Role::King) => (2 + count_color(p.buildings, Color::Yellow)) as u32,
        Some(Role::Bishop) => (2 + count_color(p.buildings, Color::Blue)) as u32,
        Some(Role::Merchant) => (2 + count_color(p.buildings, Color::Green)) as u32,
        Some(Role::Warlord) => (2 + count_color(p.buildings, Color::Red)) as u32,
        _ => 2,
    }
}

/// How many more buildings may go up this turn: what is left of the role's
/// allowance, and no more than the city has room for.
pub open spec fn build_quota(p: PlayerState, turn: TurnState) -> int {
    let a = build_base(p.role) - turn.has_built_times;
    let b = 8 - p.buildings.len();
    if a < b {
        a
    } else {
        b
    }
}

/// Whether player `p` may take `op` at this point of its turn.
pub open spec fn oper_allowed(p: PlayerState, turn: TurnState, op: Oper) -> bool {
    match op {
        Oper::EndRound => true,
        Oper::Card3Choose1 => !turn.got_resources && p.buildings.contains(Card::Observatory),
        Oper::Card2Choose2 => !turn.got_resources && p.buildings.contains(Card::Library),
        Oper::Card2Choose1 => !turn.got_resources && !p.buildings.contains(Card::Observatory)
            && !p.buildings.contains(Card::Library),
        Oper::Gold(a) => !turn.got_resources && a == gold_amount(p),
        Oper::Build(c) => build_quota(p, turn) > 0 && p.cards.contains(c) && c.spec_fee() <= p.gold
            && !p.buildings.contains(c),
        Oper::BuyCard => !turn.has_bought_card && p.buildings.contains(Card::Smithy) && p.gold >= 2,
        Oper::SellCard(c) => !turn.has_sold_card && p.buildings.contains(Card::Laboratory) && p.cards.contains(c),
    }
}

/// The first kinds of operation: ending the turn and taking resources.
pub open spec fn is_resource_oper(op: Oper) -> bool {
    ||| op is EndRound
    ||| op is Card3Choose1
    ||| op is Card2Choose1
    ||| op is Card2Choose2
    ||| op is Gold
}

/// `choices` offers exactly the operations that player `p` may take, ending
/// the turn first.
pub open spec fn oper_offer(choices: Seq<Oper>, p: PlayerState, turn: TurnState) -> bool {
    &&& choices.len() >= 1
    &&& choices[0] == Oper::EndRound
    &&& choices.no_duplicates()
    &&& forall|k: int| 0 <= k < choices.len() ==> oper_allowed(p, turn, #[trigger] choices[k])
    &&& forall|op: Oper| oper_allowed(p, turn, op) ==> #[trigger] choices.contains(op)
}

/// Whether taking `op` would overflow the purse of player `p`.
pub open spec fn oper_overflows(p: PlayerState, op: Oper) -> bool {
    match op {
        Oper::Gold(a) => p.gold + a > u32::MAX,
        Oper::SellCard(_) => p.gold + 1 > u32::MAX,
        _ => false,
    }
}

/// What operation `op` of the player at seat `a` did, from game `g` to
/// game `h`: gold taken; a card built from the hand for its fee, marking
/// the first complete city; a card sold for a gold to the discard pile;
/// two drawn cards kept (library), or two gold paid for three drawn cards
/// (smithy), appended to the hand; two or three cards drawn to choose
/// from, offered when at least two came, else the one drawn kept; or the
/// turn ended, so that a later role acts or the round is over.
pub open spec fn oper_done(op: Oper, g: Game, h: Game, a: int) -> bool {
    let p = g.spec_players()[a]@;
    let q = h.spec_players()[a]@;
    let c = g.spec_deck().spec_count();
    let t = g.spec_turn();
    &&& !(op is EndRound) ==> h.spec_players() == g.spec_players().update(a, h.spec_players()[a])
    &&& match op {
        Oper::Gold(x) => {
            &&& q == (PlayerState { gold: (p.gold + x) as u32, ..p })
            &&& h.spec_turn() == (TurnState { got_resources: true, ..t })
        },
        Oper::Build(card) => {
            &&& q.buildings == p.buildings.push(card)
            &&& q.cards == remove_first(p.cards, card)
            &&& q.gold == p.gold - card.spec_fee()
            &&& h.spec_turn() == (TurnState { has_built_times: (t.has_built_times + 1) as u32, ..t })
            &&& q.first_8 == (q.buildings.len() == 8 && !g.spec_stats().has_first_8_buildings)
            &&& h.spec_stats().has_first_8_buildings == (g.spec_stats().has_first_8_buildings || q.buildings.len() == 8)
        },
        Oper::SellCard(card) => {
            &&& q == (PlayerState { gold: (p.gold + 1) as u32, cards: remove_first(p.cards, card), ..p })
            &&& h.spec_deck().spec_drop() == g.spec_deck().spec_drop().push(card)
            &&& h.spec_turn() == (TurnState { has_sold_card: true, ..t })
        },
        Oper::Card2Choose2 => {
            &&& q == (PlayerState { cards: q.cards, ..p })
            &&& drawn_into_hand(g.spec_deck(), h.spec_deck(), p.cards, q.cards, 2)
            &&& h.spec_turn() == (TurnState { got_resources: true, ..t })
        },
        Oper::BuyCard => {
            &&& q == (PlayerState { gold: (p.gold - 2) as u32, cards: q.cards, ..p })
            &&& drawn_into_hand(g.spec_deck(), h.spec_deck(), p.cards, q.cards, 3)
            &&& h.spec_turn() == (TurnState { has_bought_card: true, ..t })
        },
        Oper::EndRound => {
            &&& h.spec_phase() is ChooseRole || h.spec_phase() is Finished || h.spec_next_role() > g.spec_next_role()
            &&& h.spec_phase() is Finished ==> g.spec_stats().has_first_8_buildings
            &&& g.spec_stats().has_first_8_buildings ==> !(h.spec_phase() is ChooseRole)
            &&& h.spec_phase() is ChooseRole || h.spec_phase() is Finished ==> turns_pass(g, g.spec_next_role(), 8)
            &&& !(h.spec_phase() is ChooseRole || h.spec_phase() is Finished) ==> {
                &&& phase_actor(h.spec_phase()) is Some
                &&& turns_pass(g, g.spec_next_role(), h.spec_next_role() - 1)
                &&& turn_began(g, h, phase_actor(h.spec_phase())->0.spec_value() as int)
            }
            &&& forall|w: int| 0 <= w < g.spec_n() && (#[trigger] g.spec_players()[w])@.role == Some(Role::King)
                && g.spec_next_role() <= 3 ==> {
                &&& (h.spec_phase() is ChooseRole || h.spec_phase() is Finished) ==> h.spec_crown()
                    == PlayerIndex::from_usize_spec(w as usize)
                &&& !(h.spec_phase() is ChooseRole || h.spec_phase() is Finished) && 3 < h.spec_next_role()
                    ==> h.spec_stats().crown == PlayerIndex::from_usize_spec(w as usize)
            }
            &&& h.spec_phase() is ChooseRole ==> {
                &&& h.spec_stats().round == g.spec_stats().round + 1
                &&& h.spec_stats().killed == OptionRole::Empty
                &&& h.spec_stats().stolen == OptionRole::Empty
                &&& h.spec_stats().stealer is None
            }
        },
        Oper::Card3Choose1 => {
            let d = g.spec_deck().spec_deck();
            let n = d.len();
            let actor = PlayerIndex::from_usize_spec(a as usize);
            &&& q == (PlayerState { cards: q.cards, ..p })
            &&& h.spec_turn() == (TurnState { got_resources: true, ..t })
            &&& c >= 2 ==> h.spec_players() == g.spec_players()
            &&& c >= 3 ==> (h.spec_phase() matches Phase::From3 { actor: x, c0, c1, c2 } && x == actor
                && h.spec_deck().spec_count() + 3 == c && h.spec_deck().spec_cards().insert(c0).insert(c1).insert(c2)
                == g.spec_deck().spec_cards())
            &&& c == 2 ==> (h.spec_phase() matches Phase::From2 { actor: x, c0, c1 } && x == actor
                && h.spec_deck().spec_count() == 0 && h.spec_deck().spec_cards().insert(c0).insert(c1)
                == g.spec_deck().spec_cards())
            &&& n >= 3 ==> h.spec_phase() == (Phase::From3 { actor, c0: d[n - 1], c1: d[n - 2], c2: d[n - 3] })
            &&& c < 2 ==> q.cards.len() == p.cards.len() + c
        },
        _ => {
            let d = g.spec_deck().spec_deck();
            let n = d.len();
            let actor = PlayerIndex::from_usize_spec(a as usize);
            &&& q == (PlayerState { cards: q.cards, ..p })
            &&& h.spec_turn() == (TurnState { got_resources: true, ..t })
            &&& c >= 2 ==> h.spec_players() == g.spec_players()
            &&& c >= 2 ==> (h.spec_phase() matches Phase::From2 { actor: x, c0, c1 } && x == actor
                && h.spec_deck().spec_count() + 2 == c && h.spec_deck().spec_cards().insert(c0).insert(c1)
                == g.spec_deck().spec_cards())
            &&& n >= 2 ==> h.spec_phase() == (Phase::From2 { actor, c0: d[n - 1], c1: d[n - 2] })
            &&& c < 2 ==> q.cards.len() == p.cards.len() + c
        },
    }
}


/// Drawing `k` cards from the piles `before`, leaving `after`, turned the
/// hand `hand` into `hand2`: the drawn cards follow the old hand, as many as
/// the piles held up to `k`, taken out of the piles; when the draw pile
/// held `k` cards they are its top `k`.
pub open spec fn drawn_into_hand(before: Deck, after: Deck, hand: Seq<Card>, hand2: Seq<Card>, k: nat) -> bool {
    &&& hand2.len() == hand.len() + drawn_count(k, before.spec_count())
    &&& hand2.subrange(0, hand.len() as int) == hand
    &&& after.spec_count() + drawn_count(k, before.spec_count()) == before.spec_count()
    &&& after.spec_cards().add(hand2.to_multiset()) == before.spec_cards().add(hand.to_multiset())
    &&& before.spec_deck().len() >= k ==> {
        &&& hand2 == hand + top_cards(before.spec_deck(), k as int)
        &&& after.spec_deck() == before.spec_deck().subrange(0, before.spec_deck().len() - k)
        &&& after.spec_drop() == before.spec_drop()
    }
}

/// Number of cards `k` draws give from piles that hold `c` cards.
pub open spec fn drawn_count(k: nat, c: nat) -> nat {
    if k <= c {
        k
    } else {
        c
    }
}

/// Appending a new element keeps a list without repeats.
proof fn lemma_push_distinct(r: Seq<Oper>, x: Oper)
    requires
        r.no_duplicates(),
        !r.contains(x),
    ensures
        r.push(x).no_duplicates(),
{
    assert forall|i: int, j: int| 0 <= i < j < r.len() + 1 implies r.push(x)[i] != r.push(x)[j] by {
        if j == r.len() {
            assert(r[i] == r.push(x)[i]);
        }
    }
}

/// Appending keeps what a list holds.
proof fn lemma_push_contains(r: Seq<Oper>, x: Oper)
    ensures
        forall|y: Oper| r.contains(y) ==> #[trigger] r.push(x).contains(y),
        r.push(x).contains(x),
{
    assert forall|y: Oper| r.contains(y) implies #[trigger] r.push(x).contains(y) by {
        let k = choose|k: int| 0 <= k < r.len() && r[k] == y;
        assert(r.push(x)[k] == y);
    }
    assert(r.push(x)[r.len() as int] == x);
}

impl Game {
    /// Asks the player at `actor` for its next operation.
    pub(crate) fn request_oper(&mut self, actor: PlayerIndex, effects: &mut Vec<Effect>) -> (r: Request)
        requires
            old(self).between_roles(),
            old(self).acting(actor),
            old(self).turn.has_built_times <= build_base(old(self).players@[actor.spec_value() as int]@.role),
        ensures
            final(self).request_fits(r),
            Game::roles_kept(*old(self), *final(self)),
            appended(old(effects)@, final(effects)@),
            final(self).wf_body(),
            *final(self) == (Game { phase: Phase::Oper { actor }, ..*old(self) }),
            r is Oper,
            r->Oper_actor == actor,
            oper_offer(r->Oper_choices@, old(self).players@[actor.spec_value() as int]@, old(self).turn),
    {
        let choices = self.oper_choices(actor);
        effects.push(Effect::OperReq { actor, obs: self.observes.get(actor).clone(), choices: choices.clone() });
        self.phase = Phase::Oper { actor };
        Request::Oper { actor, choices }
    }

    /// Gold the `Gold` operation gives to the player at `actor`.
    fn gold_for(&self, actor: PlayerIndex) -> (r: u32)
        requires
            self.inv_table(),
            actor.spec_value() < self.num_players,
        ensures
            r == gold_amount(self.players@[actor.spec_value() as int]@),
    {
        let p = self.players.get(actor);
        match p.role_option() {
            Some(Role::King) => 2 + p.building_cnt(Color::Yellow),
            Some(Role::Bishop) => 2 + p.building_cnt(Color::Blue),
            Some(Role::Merchant) => 2 + p.building_cnt(Color::Green),
            Some(Role::Warlord) => 2 + p.building_cnt(Color::Red),
            _ => 2,
        }
    }

    /// The operations offered to the player at `actor`: ending the turn
    /// first, then every operation it may take, each card once.
    #[verifier::rlimit(40)]
    pub(crate) fn oper_choices(&self, actor: PlayerIndex) -> (r: Vec<Oper>)
        requires
            self.inv_table(),
            actor.spec_value() < self.num_players,
            self.turn.has_built_times <= build_base(self.players@[actor.spec_value() as int]@.role),
        ensures
            r@.len() >= 1,
            r@[0] == Oper::EndRound,
            r@.no_duplicates(),
            forall|k: int| 0 <= k < r@.len() ==> oper_allowed(self.players@[actor.spec_value() as int]@, self.turn, #[trigger] r@[k]),
            forall|op: Oper| oper_allowed(self.players@[actor.spec_value() as int]@, self.turn, op) ==> #[trigger] r@.contains(op),
    {
        let p = self.players.get(actor);
        let ghost ps = p@;
        let turn = self.turn;
        let mut choices: Vec<Oper> = Vec::new();
        choices.push(Oper::EndRound);
        proof {
            lemma_push_contains(Seq::<Oper>::empty(), Oper::EndRound);
        }
        if !turn.got_resources {
            let has_observatory = p.has_building(Card::Observatory);
            let has_library = p.has_building(Card::Library);
            if has_observatory || has_library {
                if has_observatory {
                    proof {
                        lemma_push_contains(choices@, Oper::Card3Choose1);
                    lemma_push_distinct(choices@, Oper::Card3Choose1);
                    }
                    choices.push(Oper::Card3Choose1);
                }
                if has_library {
                    proof {
                        lemma_push_contains(choices@, Oper::Card2Choose2);
                    lemma_push_distinct(choices@, Oper::Card2Choose2);
                    }
                    choices.push(Oper::Card2Choose2);
                }
            } else {
                proof {
                    lemma_push_contains(choices@, Oper::Card2Choose1);
                lemma_push_distinct(choices@, Oper::Card2Choose1);
                }
                choices.push(Oper::Card2Choose1);
            }
            let amount = self.gold_for(actor);
            proof {
                lemma_push_contains(choices@, Oper::Gold(amount));
            lemma_push_distinct(choices@, Oper::Gold(amount));
            }
            choices.push(Oper::Gold(amount));
        }
        assert(forall|op: Oper| oper_allowed(ps, turn, op) && is_resource_oper(op) ==> #[trigger] choices@.contains(op));
        let base: u32 = match p.role_option() {
            Some(Role::Architect) => 3,
            _ => 1,
        };
        let quota_left = base - turn.has_built_times;
        let room = 8 - p.buildings_len() as u32;
        let quota = if quota_left < room {
            quota_left
        } else {
            room
        };
        assert(quota == build_quota(ps, turn));
        if quota > 0 {
            let num_cards = p.cards_len();
            let mut i: usize = 0;
            while i < num_cards
                invariant
                    i <= num_cards,
                    num_cards == ps.cards.len(),
                    ps == p@,
                    build_quota(ps, turn) > 0,
                    choices@.len() >= 1,
                    choices@[0] == Oper::EndRound,
                    forall|k: int| 0 <= k < choices@.len() ==> oper_allowed(ps, turn, #[trigger] choices@[k]),
                    forall|op: Oper| oper_allowed(ps, turn, op) && is_resource_oper(op) ==> #[trigger] choices@.contains(op),
                    forall|j: int| 0 <= j < i && oper_allowed(ps, turn, Oper::Build(ps.cards[j])) ==> #[trigger] choices@.contains(Oper::Build(ps.cards[j])),
                    choices@.no_duplicates(),
                    forall|k: int| 0 <= k < choices@.len() && (#[trigger] choices@[k]) is Build ==> exists|j: int| 0 <= j < i && ps.cards[j] == choices@[k]->Build_0,
                    forall|k: int| 0 <= k < choices@.len() ==> !((#[trigger] choices@[k]) is SellCard) && !(choices@[k] is BuyCard),
                decreases num_cards - i,
            {
                let card = p.card_at(i);
                if card.fee() <= p.gold() && !p.has_building(card) {
                    let mut unique = true;
                    let mut q: usize = 0;
                    while q < i
                        invariant
                            q <= i < num_cards,
                            num_cards == ps.cards.len(),
                            ps == p@,
                            card == ps.cards[i as int],
                            !unique <==> exists|j: int| 0 <= j < q && ps.cards[j] == card,
                        decreases i - q,
                    {
                        if p.card_at(q) == card {
                            unique = false;
                        }
                        q = q + 1;
                    }
                    if unique {
                        proof {
                            assert(!choices@.contains(Oper::Build(card))) by {
                                if choices@.contains(Oper::Build(card)) {
                                    let k = choose|k: int| 0 <= k < choices@.len() && choices@[k] == Oper::Build(card);
                                    assert(choices@[k] is Build);
                                }
                            }
                            lemma_push_contains(choices@, Oper::Build(card));
                            lemma_push_distinct(choices@, Oper::Build(card));
                            assert(ps.cards[i as int] == card);
                        }
                        choices.push(Oper::Build(card));
                    } else {
                        proof {
                            let j = choose|j: int| 0 <= j < i && ps.cards[j] == card;
                            assert(choices@.contains(Oper::Build(ps.cards[j])));
                        }
                    }
                }
                i = i + 1;
            }
        }
        assert(forall|op: Oper| oper_allowed(ps, turn, op) && (is_resource_oper(op) || op is Build) ==> #[trigger] choices@.contains(op)) by {
            assert forall|op: Oper| oper_allowed(ps, turn, op) && op is Build implies #[trigger] choices@.contains(op) by {
                let c = op->Build_0;
                let j = choose|j: int| 0 <= j < ps.cards.len() && ps.cards[j] == c;
                assert(Oper::Build(ps.cards[j]) == op);
            }
        }
        if !turn.has_bought_card && p.has_building(Card::Smithy) && p.gold() >= 2 {
            proof {
                lemma_push_contains(choices@, Oper::BuyCard);
            lemma_push_distinct(choices@, Oper::BuyCard);
            }
            choices.push(Oper::BuyCard);
        }
        if !turn.has_sold_card && p.has_building(Card::Laboratory) && p.cards_len() > 0 {
            let num_cards = p.cards_len();
            let mut i: usize = 0;
            while i < num_cards
                invariant
                    i <= num_cards,
                    num_cards == ps.cards.len(),
                    ps == p@,
                    !turn.has_sold_card && ps.buildings.contains(Card::Laboratory),
                    choices@.len() >= 1,
                    choices@[0] == Oper::EndRound,
                    forall|k: int| 0 <= k < choices@.len() ==> oper_allowed(ps, turn, #[trigger] choices@[k]),
                    forall|op: Oper| oper_allowed(ps, turn, op) && !(op is SellCard) ==> #[trigger] choices@.contains(op),
                    forall|j: int| 0 <= j < i ==> #[trigger] choices@.contains(Oper::SellCard(ps.cards[j])),
                    choices@.no_duplicates(),
                    forall|k: int| 0 <= k < choices@.len() && (#[trigger] choices@[k]) is SellCard ==> exists|j: int| 0 <= j < i && ps.cards[j] == choices@[k]->SellCard_0,
                decreases num_cards - i,
            {
                let card = p.card_at(i);
                let mut unique = true;
                let mut q: usize = 0;
                while q < i
                    invariant
                        q <= i < num_cards,
                        num_cards == ps.cards.len(),
                        ps == p@,
                        card == ps.cards[i as int],
                        !unique <==> exists|j: int| 0 <= j < q && ps.cards[j] == card,
                    decreases i - q,
                {
                    if p.card_at(q) == card {
                        unique = false;
                    }
                    q = q + 1;
                }
                if unique {
                    proof {
                        assert(!choices@.contains(Oper::SellCard(card))) by {
                            if choices@.contains(Oper::SellCard(card)) {
                                let k = choose|k: int| 0 <= k < choices@.len() && choices@[k] == Oper::SellCard(card);
                                assert(choices@[k] is SellCard);
                            }
                        }
                        lemma_push_contains(choices@, Oper::SellCard(card));
                        lemma_push_distinct(choices@, Oper::SellCard(card));
                        assert(ps.cards.contains(card));
                    }
                    choices.push(Oper::SellCard(card));
                } else {
                    proof {
                        let j = choose|j: int| 0 <= j < i && ps.cards[j] == card;
                        assert(choices@.contains(Oper::SellCard(ps.cards[j])));
                    }
                }
                i = i + 1;
            }
            proof {
                assert forall|op: Oper| oper_allowed(ps, turn, op) && op is SellCard implies #[trigger] choices@.contains(op) by {
                    let c = op->SellCard_0;
                    let j = choose|j: int| 0 <= j < ps.cards.len() && ps.cards[j] == c;
                    assert(Oper::SellCard(ps.cards[j]) == op);
                }
            }
        }
        choices
    }

    /// Whether the player at `actor` may take `op` now.
    fn oper_ok(&self, actor: PlayerIndex, op: Oper) -> (r: bool)
        requires
            self.inv_table(),
            actor.spec_value() < self.num_players,
        ensures
            r == oper_allowed(self.players@[actor.spec_value() as int]@, self.turn, op),
    {
        let p = self.players.get(actor);
        let turn = self.turn;
        match op {
            Oper::EndRound => true,
            Oper::Card3Choose1 => !turn.got_resources && p.has_building(Card::Observatory),
            Oper::Card2Choose2 => !turn.got_resources && p.has_building(Card::Library),
            Oper::Card2Choose1 => !turn.got_resources && !p.has_building(Card::Observatory) && !p.has_building(
                Card::Library,
            ),
            Oper::Gold(a) => !turn.got_resources && a == self.gold_for(actor),
            Oper::Build(c) => {
                let base: u32 = match p.role_option() {
                    Some(Role::Architect) => 3,
                    _ => 1,
                };
                if turn.has_built_times >= base || p.buildings_len() >= 8 {
                    return false;
                }
                proof {
                    vstd::seq_lib::to_multiset_contains(p@.cards, c);
                }
                let mut in_hand = false;
                let mut i: usize = 0;
                while i < p.cards_len()
                    invariant
                        i <= p@.cards.len(),
                        in_hand <==> exists|j: int| 0 <= j < i && p@.cards[j] == c,
                    decreases p@.cards.len() - i,
                {
                    if p.card_at(i) == c {
                        in_hand = true;
                    }
                    i = i + 1;
                }
                in_hand && c.fee() <= p.gold() && !p.has_building(c)
            },
            Oper::BuyCard => !turn.has_bought_card && p.has_building(Card::Smithy) && p.gold() >= 2,
            Oper::SellCard(c) => {
                if turn.has_sold_card || !p.has_building(Card::Laboratory) {
                    return false;
                }
                let mut in_hand = false;
                let mut i: usize = 0;
                while i < p.cards_len()
                    invariant
                        i <= p@.cards.len(),
                        in_hand <==> exists|j: int| 0 <= j < i && p@.cards[j] == c,
                    decreases p@.cards.len() - i,
                {
                    if p.card_at(i) == c {
                        in_hand = true;
                    }
                    i = i + 1;
                }
                in_hand
            },
        }
    }

    /// The player at `actor` takes the operation `op`: a refused or
    /// overflowing operation leaves the game unchanged; ending the turn
    /// lets the next roles act; otherwise the player is asked again, or
    /// asked which drawn card to keep.
    #[verifier::rlimit(40)]
    pub(super) fn answer_oper(&mut self, op: Oper, effects: &mut Vec<Effect>) -> (r: Result<Request, GameError>)
        requires
            old(self).wf_body(),
            old(self).phase is Oper,
        ensures
            r is Ok ==> final(self).request_fits(r->Ok_0),
            old(self).room_body() && old(self).refusal(Answer::Oper(op)) is None ==> r is Ok,
            r is Ok ==> records_answer(old(effects)@, final(effects)@, Answer::Oper(op)),
            appended(old(effects)@, final(effects)@),
            final(self).wf_body(),
            ({
                let a = old(self).phase->Oper_actor.spec_value() as int;
                let p = old(self).players@[a]@;
                &&& !oper_allowed(p, old(self).turn, op) ==> r == Err::<Request, GameError>(GameError::InvalidOper)
                    && *final(self) == *old(self) && final(effects)@ == old(effects)@
                &&& oper_allowed(p, old(self).turn, op) && oper_overflows(p, op) ==> r == Err::<Request, GameError>(
                    GameError::GoldOverflow,
                ) && *final(self) == *old(self) && final(effects)@ == old(effects)@
                &&& oper_allowed(p, old(self).turn, op) && !oper_overflows(p, op) ==> r is Ok || final(self).phase is Halted
                &&& r is Ok ==> oper_done(op, *old(self), *final(self), a)
            }),
    {
        let actor = match self.phase {
            Phase::Oper { actor } => actor,
            _ => PlayerIndex::from_usize(0),
        };
        if !self.oper_ok(actor, op) {
            return Err(GameError::InvalidOper);
        }
        let gold = self.players.get(actor).gold();
        match op {
            Oper::Gold(x) => {
                if gold > u32::MAX - x {
                    return Err(GameError::GoldOverflow);
                }
            },
            Oper::SellCard(_) => {
                if gold == u32::MAX {
                    return Err(GameError::GoldOverflow);
                }
            },
            _ => {},
        }
        self.perform_oper(actor, op, effects)
    }

    /// Records and carries out the allowed operation `op` of the player at
    /// `actor`.
    #[verifier::rlimit(40)]
    fn perform_oper(&mut self, actor: PlayerIndex, op: Oper, effects: &mut Vec<Effect>) -> (r: Result<Request, GameError>)
        requires
            old(self).wf_body(),
            old(self).phase == (Phase::Oper { actor }),
            oper_allowed(old(self).players@[actor.spec_value() as int]@, old(self).turn, op),
            !oper_overflows(old(self).players@[actor.spec_value() as int]@, op),
        ensures
            r is Ok ==> final(self).request_fits(r->Ok_0),
            old(self).room_body() ==> r is Ok,
            appended(old(effects)@, final(effects)@),
            r is Ok ==> records_answer(old(effects)@, final(effects)@, Answer::Oper(op)),
            final(self).wf_body(),
            r is Ok || final(self).phase is Halted,
            r is Ok ==> oper_done(op, *old(self), *final(self), actor.spec_value() as int),
    {
        effects.push(Effect::OperResp { chosen: op });
        let r = match op {
            Oper::EndRound => self.advance(effects),
            Oper::Card3Choose1 | Oper::Card2Choose1 => {
                self.turn.got_resources = true;
                match self.peek_cards(actor, op == Oper::Card3Choose1, effects) {
                    Some(req) => Ok(req),
                    None => {
                        self.refresh_all(effects);
                        Ok(self.request_oper(actor, effects))
                    },
                }
            },
            _ => {
                self.carry_out(actor, op, effects);
                self.refresh_all(effects);
                Ok(self.request_oper(actor, effects))
            },
        };
        proof {
            PlayerIndex::lemma_from_usize_spec(actor.spec_value());
            actor.lemma_eq(PlayerIndex::from_usize_spec(actor.spec_value()));
        }
        proof {
            old(self).unfold();
            self.unfold();
        }
        r
    }

    /// Carries out an operation that needs no further answer: drawing with
    /// the library, buying with the smithy, taking gold, building, selling.
    #[verifier::rlimit(60)]
    fn carry_out(&mut self, actor: PlayerIndex, op: Oper, effects: &mut Vec<Effect>)
        requires
            old(self).between_roles(),
            old(self).acting(actor),
            old(self).turn.has_built_times <= build_base(old(self).players@[actor.spec_value() as int]@.role),
            oper_allowed(old(self).players@[actor.spec_value() as int]@, old(self).turn, op),
            !oper_overflows(old(self).players@[actor.spec_value() as int]@, op),
            !(op is EndRound || op is Card3Choose1 || op is Card2Choose1),
        ensures
            appended(old(effects)@, final(effects)@),
            final(self).between_roles(),
            final(self).acting(actor),
            final(self).turn.has_built_times <= build_base(final(self).players@[actor.spec_value() as int]@.role),
            oper_done(op, *old(self), *final(self), actor.spec_value() as int),
    {
        let round = self.stats.round;
        match op {
            Oper::Card2Choose2 => {
                self.draw_into_hand(actor, false, effects);
                self.turn.got_resources = true;
            },
            Oper::BuyCard => {
                self.pay_gold(actor, 2);
                self.draw_into_hand(actor, true, effects);
                self.turn.has_bought_card = true;
            },
            Oper::Gold(x) => {
                effects.push(Effect::Gold { actor, round, amount: x });
                self.take_gold(actor, x);
                self.turn.got_resources = true;
            },
            Oper::Build(c) => {
                effects.push(Effect::Build { actor, round, card: c });
                self.build_card(actor, c, effects);
                self.turn.has_built_times = self.turn.has_built_times + 1;
            },
            Oper::SellCard(c) => {
                effects.push(Effect::SellCard { actor, round, card: c });
                self.sell_card(actor, c);
                self.turn.has_sold_card = true;
            },
            _ => {},
        }
        proof {
            let a = actor.spec_value() as int;
            assert(self.players@ =~= old(self).players@.update(a, self.players@[a]));
        }
        proof {
            old(self).unfold();
            self.unfold();
        }
    }
    /// Draws two cards, or three when `three`, into the hand of `actor`:
    /// the library's draw, or the smithy's purchase.
    fn draw_into_hand(&mut self, actor: PlayerIndex, three: bool, effects: &mut Vec<Effect>)
        requires
            old(self).between_roles(),
            actor.spec_value() < old(self).num_players,
        ensures
            drawn_into_hand(
                old(self).deck,
                final(self).deck,
                old(self).players@[actor.spec_value() as int]@.cards,
                final(self).players@[actor.spec_value() as int]@.cards,
                if three { 3nat } else { 2nat },
            ),
            appended(old(effects)@, final(effects)@),
            final(self).between_roles(),
            Game::same_roles(*old(self), *final(self)),
            final(self).observes == old(self).observes,
            final(self).players@[actor.spec_value() as int]@ == (PlayerState {
                cards: final(self).players@[actor.spec_value() as int]@.cards,
                ..old(self).players@[actor.spec_value() as int]@
            }),
            final(self).players@ == old(self).players@.update(
                actor.spec_value() as int,
                final(self).players@[actor.spec_value() as int],
            ),
            ({
                let p = old(self).players@[actor.spec_value() as int]@;
                let q = final(self).players@[actor.spec_value() as int]@;
                let n = drawn_count(if three { 3nat } else { 2nat }, old(self).deck.spec_count());
                &&& q.cards.len() == p.cards.len() + n
                &&& q.cards.subrange(0, p.cards.len() as int) == p.cards
                &&& final(self).deck.spec_count() + n == old(self).deck.spec_count()
                &&& final(self).deck.spec_cards().add(q.cards.to_multiset()) == old(self).deck.spec_cards().add(
                    p.cards.to_multiset(),
                )
            }),
    {
        broadcast use {vstd::seq_lib::group_to_multiset_ensures, vstd::multiset::group_multiset_axioms};

        let round = self.stats.round;
        let ghost s0 = *self;
        let c0 = self.deck.take();
        let ghost d1 = self.deck;
        let c1 = self.deck.take();
        let ghost d2 = self.deck;
        let c2 = if three {
            self.deck.take()
        } else {
            None
        };
        let ghost d3 = self.deck;
        self.flush_shuffles(effects);
        if three {
            effects.push(Effect::Draw3Cards { actor, round, c0, c1, c2 });
        } else {
            effects.push(Effect::Draw2Cards { round, actor, c0, c1 });
        }
        let ghost s1 = *self;
        let ghost h0 = s0.players@[actor.spec_value() as int]@.cards;
        self.players.get_mut(actor).add_option_card(c0);
        let ghost h1 = self.players@[actor.spec_value() as int]@.cards;
        self.players.get_mut(actor).add_option_card(c1);
        let ghost h2 = self.players@[actor.spec_value() as int]@.cards;
        self.players.get_mut(actor).add_option_card(c2);
        proof {
            let a = actor.spec_value() as int;
            assert(self.players@ =~= s1.players@.update(a, self.players@[a]));
            lemma_players_cards_update(s1.players@, a, self.players@[a]);
            Game::lemma_roles_kept(s0, *self);
            let h3 = self.players@[a]@.cards;
            assert(self.players@ =~= s0.players@.update(a, self.players@[a]));
            assert(h1.to_multiset() == insert_drawn(h0.to_multiset(), c0));
            assert(h2.to_multiset() == insert_drawn(h1.to_multiset(), c1));
            assert(h3.to_multiset() == insert_drawn(h2.to_multiset(), c2));
            assert(h3.subrange(0, h0.len() as int) =~= h0);
            assert(d3.spec_cards().add(h3.to_multiset()) =~= s0.deck.spec_cards().add(h0.to_multiset()));
            let d = s0.deck.spec_deck();
            let k: int = if three { 3 } else { 2 };
            if d.len() >= k {
                assert(h3 =~= h0 + top_cards(d, k));
                assert(d3.spec_deck() =~= d.subrange(0, d.len() - k));
            }
        }
    }

    /// Takes two cards, or three when `three`, from the piles, as far as
    /// they hold cards.
    fn take_offer(&mut self, three: bool) -> (r: (Option<Card>, Option<Card>, Option<Card>))
        ensures
            *final(self) == (Game { deck: final(self).deck, ..*old(self) }),
            ({
                let c = old(self).deck.spec_count();
                &&& final(self).deck.spec_count() + drawn_count(if three { 3nat } else { 2nat }, c) == c
                &&& (r.0 is Some) == (c >= 1)
                &&& (r.1 is Some) == (c >= 2)
                &&& (r.2 is Some) == (three && c >= 3)
                &&& insert_drawn(insert_drawn(insert_drawn(final(self).deck.spec_cards(), r.2), r.1), r.0)
                    == old(self).deck.spec_cards()
            }),
            ({
                let d = old(self).deck.spec_deck();
                &&& d.len() >= 2 ==> r.0 == Some(d[d.len() - 1]) && r.1 == Some(d[d.len() - 2])
                &&& three && d.len() >= 3 ==> r.2 == Some(d[d.len() - 3])
            }),
    {
        let c0 = self.deck.take();
        let c1 = self.deck.take();
        let c2 = if three {
            self.deck.take()
        } else {
            None
        };
        (c0, c1, c2)
    }

    /// Draws two cards, or three when `three`, for the player at `actor`
    /// to keep one: with a single card drawn it is kept at once, with more
    /// the player is asked.
    #[verifier::rlimit(80)]
    fn peek_cards(&mut self, actor: PlayerIndex, three: bool, effects: &mut Vec<Effect>) -> (r: Option<Request>)
        requires
            old(self).between_roles(),
            old(self).acting(actor),
            old(self).turn.has_built_times <= build_base(old(self).players@[actor.spec_value() as int]@.role),
        ensures
            ({
                let d = old(self).deck.spec_deck();
                let n = d.len();
                &&& three && n >= 3 ==> r == Some(Request::From3 { actor, c0: d[n - 1], c1: d[n - 2], c2: d[n - 3] })
                &&& !three && n >= 2 ==> r == Some(Request::From2 { actor, c0: d[n - 1], c1: d[n - 2] })
            }),
            final(self).players@ == old(self).players@.update(actor.spec_value() as int, final(self).players@[actor.spec_value() as int]),
            appended(old(effects)@, final(effects)@),
            r is None ==> final(self).between_roles() && Game::same_roles(*old(self), *final(self)),
            r matches Some(req) ==> {
                &&& final(self).wf_body()
                &&& final(self).phase is From2 || final(self).phase is From3
                &&& final(self).players@ == old(self).players@
            },
            final(self).turn == old(self).turn,
            final(self).next_role == old(self).next_role,
            final(self).players@[actor.spec_value() as int]@ == (PlayerState {
                cards: final(self).players@[actor.spec_value() as int]@.cards,
                ..old(self).players@[actor.spec_value() as int]@
            }),
            ({
                let c = old(self).deck.spec_count();
                let p = old(self).players@[actor.spec_value() as int]@;
                let q = final(self).players@[actor.spec_value() as int]@;
                &&& r is Some <==> c >= 2
                &&& r is None ==> {
                    &&& q.cards.len() == p.cards.len() + c
                    &&& final(self).deck.spec_count() == 0
                    &&& final(self).deck.spec_cards().add(q.cards.to_multiset()) == old(self).deck.spec_cards().add(
                        p.cards.to_multiset(),
                    )
                }
                &&& r matches Some(req) ==> if three && c >= 3 {
                    &&& req is From3
                    &&& req->From3_actor == actor
                    &&& final(self).phase == (Phase::From3 { actor, c0: req->From3_c0, c1: req->From3_c1, c2: req->From3_c2 })
                    &&& final(self).deck.spec_count() + 3 == c
                    &&& final(self).deck.spec_cards().insert(req->From3_c0).insert(req->From3_c1).insert(req->From3_c2)
                        == old(self).deck.spec_cards()
                } else {
                    &&& req is From2
                    &&& req->From2_actor == actor
                    &&& final(self).phase == (Phase::From2 { actor, c0: req->From2_c0, c1: req->From2_c1 })
                    &&& final(self).deck.spec_count() + 2 == c
                    &&& final(self).deck.spec_cards().insert(req->From2_c0).insert(req->From2_c1) == old(self).deck.spec_cards()
                }
            }),
    {
        broadcast use {vstd::seq_lib::group_to_multiset_ensures, vstd::multiset::group_multiset_axioms};

        let round = self.stats.round;
        let ghost s0 = *self;
        let (c0, c1, c2) = self.take_offer(three);
        self.flush_shuffles(effects);
        if three {
            effects.push(Effect::Peek3Cards { actor, round, c0, c1, c2 });
        } else {
            effects.push(Effect::Peek2Cards { actor, round, c0, c1 });
        }
        let ghost s1 = *self;
        self.observes.get_mut(actor).update_infos(&self.deck, &self.players, actor);
        proof {
            assert(Game::obs_roles_same(s1.observes@, self.observes@));
            Game::lemma_obs_refresh(s1, *self);
        }
        match c0 {
            None => None,
            Some(x0) => match c1 {
                None => {
                    effects.push(Effect::ChooseFrom1 { actor, round, c: x0 });
                    let ghost s2 = *self;
                    self.players.get_mut(actor).add_card(x0);
                    proof {
                        let a = actor.spec_value() as int;
                        assert(self.players@ =~= s2.players@.update(a, self.players@[a]));
                        lemma_players_cards_update(s2.players@, a, self.players@[a]);
                        Game::lemma_roles_kept(s2, *self);
                    }
                    None
                },
                Some(x1) => match c2 {
                    Some(x2) => {
                        effects.push(Effect::ChooseFrom3Req { actor, obs: self.observes.get(actor).clone(), c0: x0, c1: x1, c2: x2 });
                        self.phase = Phase::From3 { actor, c0: x0, c1: x1, c2: x2 };
                        Some(Request::From3 { actor, c0: x0, c1: x1, c2: x2 })
                    },
                    None => {
                        effects.push(Effect::ChooseFrom2Req { actor, obs: self.observes.get(actor).clone(), c0: x0, c1: x1 });
                        self.phase = Phase::From2 { actor, c0: x0, c1: x1 };
                        Some(Request::From2 { actor, c0: x0, c1: x1 })
                    },
                },
            },
        }
    }

    /// The player keeps one of the two cards offered and discards the other.
    pub(super) fn answer_from2(&mut self, chosen: Card, effects: &mut Vec<Effect>) -> (r: Result<Request, GameError>)
        requires
            old(self).wf_body(),
            old(self).phase is From2,
        ensures
            r is Ok ==> final(self).turn == old(self).turn,
            r is Ok ==> final(self).phase == (Phase::Oper { actor: old(self).phase->From2_actor }),
            r is Ok ==> final(self).players@ == old(self).players@.update(old(self).phase->From2_actor.spec_value() as int, final(self).players@[old(self).phase->From2_actor.spec_value() as int]),
            r is Ok ==> final(self).deck.spec_deck() == old(self).deck.spec_deck(),
            r is Ok ==> final(self).request_fits(r->Ok_0),
            r is Ok ==> records_answer(old(effects)@, final(effects)@, Answer::From2(chosen)),
            appended(old(effects)@, final(effects)@),
            final(self).wf_body(),
            ({
                let a = old(self).phase->From2_actor.spec_value() as int;
                let c0 = old(self).phase->From2_c0;
                let c1 = old(self).phase->From2_c1;
                &&& (chosen != c0 && chosen != c1) <==> r == Err::<Request, GameError>(GameError::CardNotOffered)
                &&& (chosen == c0 || chosen == c1) ==> r is Ok
                &&& r is Err ==> *final(self) == *old(self) && final(effects)@ == old(effects)@
                &&& r is Ok ==> final(self).players@[a]@ == (PlayerState { cards: old(self).players@[a]@.cards.push(chosen), ..old(self).players@[a]@ })
                &&& r is Ok ==> final(self).deck.spec_drop() == old(self).deck.spec_drop().push(if chosen == c0 { c1 } else { c0 })
            }),
    {
        let (actor, c0, c1) = match self.phase {
            Phase::From2 { actor, c0, c1 } => (actor, c0, c1),
            _ => (PlayerIndex::from_usize(0), Card::Tavern, Card::Tavern),
        };
        if chosen != c0 && chosen != c1 {
            return Err(GameError::CardNotOffered);
        }
        let ghost s0 = *self;
        let drop = self.players.get_mut(actor).choose_from_2(c0, c1, chosen, &mut self.deck);
        effects.push(Effect::ChooseFrom2Resp { chosen, drop });
        proof {
            let a = actor.spec_value() as int;
            assert(self.players@ =~= s0.players@.update(a, self.players@[a]));
            lemma_players_cards_update(s0.players@, a, self.players@[a]);
            Game::lemma_roles_kept(s0, *self);
        }
        self.phase = Phase::Oper { actor };
        self.refresh_all(effects);
        Ok(self.request_oper(actor, effects))
    }

    /// The player keeps one of the three cards offered and discards the
    /// other two.
    pub(super) fn answer_from3(&mut self, chosen: Card, effects: &mut Vec<Effect>) -> (r: Result<Request, GameError>)
        requires
            old(self).wf_body(),
            old(self).phase is From3,
        ensures
            r is Ok ==> final(self).turn == old(self).turn,
            r is Ok ==> final(self).phase == (Phase::Oper { actor: old(self).phase->From3_actor }),
            r is Ok ==> final(self).players@ == old(self).players@.update(old(self).phase->From3_actor.spec_value() as int, final(self).players@[old(self).phase->From3_actor.spec_value() as int]),
            r is Ok ==> final(self).deck.spec_deck() == old(self).deck.spec_deck(),
            r is Ok ==> final(self).request_fits(r->Ok_0),
            r is Ok ==> records_answer(old(effects)@, final(effects)@, Answer::From3(chosen)),
            appended(old(effects)@, final(effects)@),
            final(self).wf_body(),
            ({
                let a = old(self).phase->From3_actor.spec_value() as int;
                let c0 = old(self).phase->From3_c0;
                let c1 = old(self).phase->From3_c1;
                let c2 = old(self).phase->From3_c2;
                &&& (chosen != c0 && chosen != c1 && chosen != c2) <==> r == Err::<Request, GameError>(GameError::CardNotOffered)
                &&& (chosen == c0 || chosen == c1 || chosen == c2) ==> r is Ok
                &&& r is Err ==> *final(self) == *old(self) && final(effects)@ == old(effects)@
                &&& r is Ok ==> final(self).players@[a]@ == (PlayerState { cards: old(self).players@[a]@.cards.push(chosen), ..old(self).players@[a]@ })
                &&& r is Ok ==> final(self).deck.spec_drop() == if chosen == c0 {
                    old(self).deck.spec_drop().push(c1).push(c2)
                } else if chosen == c1 {
                    old(self).deck.spec_drop().push(c0).push(c2)
                } else {
                    old(self).deck.spec_drop().push(c0).push(c1)
                }
            }),
    {
        let (actor, c0, c1, c2) = match self.phase {
            Phase::From3 { actor, c0, c1, c2 } => (actor, c0, c1, c2),
            _ => (PlayerIndex::from_usize(0), Card::Tavern, Card::Tavern, Card::Tavern),
        };
        if chosen != c0 && chosen != c1 && chosen != c2 {
            return Err(GameError::CardNotOffered);
        }
        let ghost s0 = *self;
        let (drop0, drop1) = self.players.get_mut(actor).choose_from_3(c0, c1, c2, chosen, &mut self.deck);
        effects.push(Effect::ChooseFrom3Resp { chosen, drop0, drop1 });
        proof {
            let a = actor.spec_value() as int;
            assert(self.players@ =~= s0.players@.update(a, self.players@[a]));
            lemma_players_cards_update(s0.players@, a, self.players@[a]);
            Game::lemma_roles_kept(s0, *self);
        }
        self.phase = Phase::Oper { actor };
        self.refresh_all(effects);
        Ok(self.request_oper(actor, effects))
    }

    /// The player at `actor` takes `amount` gold.
    fn take_gold(&mut self, actor: PlayerIndex, amount: u32)
        requires
            old(self).between_roles(),
            actor.spec_value() < old(self).num_players,
            old(self).players@[actor.spec_value() as int]@.gold + amount <= u32::MAX,
        ensures
            final(self).between_roles(),
            Game::same_roles(*old(self), *final(self)),
            final(self).players@ == old(self).players@.update(
                actor.spec_value() as int,
                final(self).players@[actor.spec_value() as int],
            ),
            final(self).players@[actor.spec_value() as int]@ == (PlayerState {
                gold: (old(self).players@[actor.spec_value() as int]@.gold + amount) as u32,
                ..old(self).players@[actor.spec_value() as int]@
            }),
            final(self).deck == old(self).deck,
            final(self).observes == old(self).observes,
    {
        let ghost s0 = *self;
        self.players.get_mut(actor).add_gold(amount);
        proof {
            let a = actor.spec_value() as int;
            assert(self.players@ =~= s0.players@.update(a, self.players@[a]));
            Game::lemma_roles_kept(s0, *self);
            crate::game::lemma_players_cards_same(self.players@, s0.players@);
        }
    }

    /// The player at `actor` pays `amount` gold.
    fn pay_gold(&mut self, actor: PlayerIndex, amount: u32)
        requires
            old(self).between_roles(),
            actor.spec_value() < old(self).num_players,
            old(self).players@[actor.spec_value() as int]@.gold >= amount,
        ensures
            final(self).between_roles(),
            Game::same_roles(*old(self), *final(self)),
            final(self).players@ == old(self).players@.update(
                actor.spec_value() as int,
                final(self).players@[actor.spec_value() as int],
            ),
            final(self).players@[actor.spec_value() as int]@ == (PlayerState {
                gold: (old(self).players@[actor.spec_value() as int]@.gold - amount) as u32,
                ..old(self).players@[actor.spec_value() as int]@
            }),
            final(self).deck == old(self).deck,
            final(self).observes == old(self).observes,
    {
        let ghost s0 = *self;
        self.players.get_mut(actor).sub_gold(amount);
        proof {
            let a = actor.spec_value() as int;
            assert(self.players@ =~= s0.players@.update(a, self.players@[a]));
            Game::lemma_roles_kept(s0, *self);
            crate::game::lemma_players_cards_same(self.players@, s0.players@);
        }
    }

    /// The player at `actor` builds `c` from its hand; the first player to
    /// complete eight buildings is marked so.
    #[verifier::rlimit(40)]
    fn build_card(&mut self, actor: PlayerIndex, c: Card, effects: &mut Vec<Effect>)
        requires
            old(self).between_roles(),
            actor.spec_value() < old(self).num_players,
            oper_allowed(old(self).players@[actor.spec_value() as int]@, old(self).turn, Oper::Build(c)),
        ensures
            appended(old(effects)@, final(effects)@),
            final(self).between_roles(),
            Game::same_roles(*old(self), Game { stats: old(self).stats, ..*final(self) }),
            final(self).stats == (crate::game::RoundStats {
                has_first_8_buildings: final(self).stats.has_first_8_buildings,
                ..old(self).stats
            }),
            ({
                let p = old(self).players@[actor.spec_value() as int]@;
                let q = final(self).players@[actor.spec_value() as int]@;
                &&& q.buildings == p.buildings.push(c)
                &&& q.cards == remove_first(p.cards, c)
                &&& q.gold == p.gold - c.spec_fee()
                &&& q.first_8 == (p.first_8 || (q.buildings.len() == 8 && !old(self).stats.has_first_8_buildings))
                &&& final(self).stats.has_first_8_buildings == (old(self).stats.has_first_8_buildings || q.buildings.len() == 8)
                &&& q == (PlayerState { buildings: q.buildings, cards: q.cards, gold: q.gold, first_8: q.first_8, ..p })
            }),
            final(self).players@ == old(self).players@.update(
                actor.spec_value() as int,
                final(self).players@[actor.spec_value() as int],
            ),
            final(self).observes == old(self).observes,
    {
        let round = self.stats.round;
        let ghost s0 = *self;
        proof {
            lemma_remove_first(s0.players@[actor.spec_value() as int]@.cards, c);
        }
        self.players.get_mut(actor).build(c);
        proof {
            let a = actor.spec_value() as int;
            assert(self.players@ =~= s0.players@.update(a, self.players@[a]));
            lemma_players_cards_update(s0.players@, a, self.players@[a]);
            Game::lemma_roles_kept(s0, *self);
        }
        if self.players.get(actor).buildings_len() == 8 {
            if !self.stats.has_first_8_buildings {
                let ghost s1 = *self;
                self.stats.has_first_8_buildings = true;
                self.players.get_mut(actor).set_is_first_8_buildings();
                proof {
                    let a = actor.spec_value() as int;
                    assert(self.players@ =~= s1.players@.update(a, self.players@[a]));
                    lemma_players_cards_update(s1.players@, a, self.players@[a]);
                    assert(forall|i: int| 0 <= i < s1.num_players && i != a ==> !(#[trigger] self.players@[i])@.first_8);
                    assert(self.players@[a]@.first_8);
                    assert(self.inv_first_8());
                    assert(self.inv_table());
                    assert(self.roles_distinct());
                    assert(self.actor_roles_shown());
                    assert forall|o: int, k: int| 0 <= o < self.observes@.len() && 0 <= k < self.observes@[o].villain_infos@.len()
                        implies self.shown_role(o, k, self.next_role as int) == s1.shown_role(o, k, s1.next_role as int) by {
                        crate::domain::player_offset::lemma_seat_round_trip(k + 1, o, s1.num_players as int);
                    }
                }
                effects.push(Effect::First8Buildings { actor, round });
            } else {
                effects.push(Effect::Nonfirst8Buildings { actor, round });
            }
        }
    }

    /// The player at `actor` sells `c` from its hand to the discard pile
    /// for one gold.
    fn sell_card(&mut self, actor: PlayerIndex, c: Card)
        requires
            old(self).between_roles(),
            actor.spec_value() < old(self).num_players,
            old(self).players@[actor.spec_value() as int]@.cards.contains(c),
            old(self).players@[actor.spec_value() as int]@.gold < u32::MAX,
        ensures
            final(self).between_roles(),
            Game::same_roles(*old(self), *final(self)),
            final(self).players@ == old(self).players@.update(
                actor.spec_value() as int,
                final(self).players@[actor.spec_value() as int],
            ),
            final(self).players@[actor.spec_value() as int]@ == (PlayerState {
                gold: (old(self).players@[actor.spec_value() as int]@.gold + 1) as u32,
                cards: remove_first(old(self).players@[actor.spec_value() as int]@.cards, c),
                ..old(self).players@[actor.spec_value() as int]@
            }),
            final(self).deck.spec_drop() == old(self).deck.spec_drop().push(c),
            final(self).observes == old(self).observes,
    {
        let ghost s0 = *self;
        proof {
            lemma_remove_first(s0.players@[actor.spec_value() as int]@.cards, c);
        }
        self.players.get_mut(actor).remove_first_card(c);
        self.deck.drop(c);
        self.players.get_mut(actor).add_gold(1);
        proof {
            let a = actor.spec_value() as int;
            assert(self.players@ =~= s0.players@.update(a, self.players@[a]));
            lemma_players_cards_update(s0.players@, a, self.players@[a]);
            Game::lemma_roles_kept(s0, *self);
        }
    }
}

} // verus!
