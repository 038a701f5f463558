//! The answers of the assassin, the thief, the magician and the warlord,
//! and the graveyard decision.

use vstd::prelude::*;

use crate::domain::player_offset::{lemma_offset_round_trip, lemma_seat_round_trip, spec_seat};
use crate::domain::{Card, DestroyTarget, MagicianSkill, OptionRole, PlayerIndex, Role};
use crate::game::role_execution_service::{kill_targets, steal_targets, RoundFact};
use crate::game::{appended, records_answer, Answer, lemma_players_cards_update, players_cards, Effect, Game, GameError, Phase, Request};
use crate::deck::{top_cards, total_cards};
use crate::player::{Player, destroy_fee, lemma_remove_all_distinct, PlayerState};

verus! {

/// Seat `w` is the first of the `n` seats whose city has the graveyard.
pub open spec fn graveyard_at(ps: Seq<Player>, n: int, w: int) -> bool {
    &&& 0 <= w < n
    &&& ps[w]@.buildings.contains(Card::Graveyard)
    &&& forall|j: int| 0 <= j < w ==> !(#[trigger] ps[j])@.buildings.contains(Card::Graveyard)
}

/// The first of the `n` seats whose city has the graveyard, if any.
pub open spec fn first_graveyard(ps: Seq<Player>, n: int) -> Option<int> {
    if exists|w: int| graveyard_at(ps, n, w) {
        Some(choose|w: int| graveyard_at(ps, n, w))
    } else {
        None
    }
}

impl Game {
    /// The assassin names the role to kill.
    pub(super) fn answer_kill(&mut self, chosen: Role, effects: &mut Vec<Effect>) -> (r: Result<Request, GameError>)
        requires
            old(self).wf_body(),
            old(self).phase is Kill,
        ensures
            r is Ok ==> final(self).turn == old(self).turn,
            r is Ok ==> final(self).request_fits(r->Ok_0),
            r is Ok ==> records_answer(old(effects)@, final(effects)@, Answer::KillTarget(chosen)),
            appended(old(effects)@, final(effects)@),
            final(self).wf_body(),
            !kill_targets(old(self).stats.pub_drop_roles@).contains(chosen) ==> r == Err::<Request, GameError>(
                GameError::RoleNotAvailable,
            ) && *final(self) == *old(self) && final(effects)@ == old(effects)@,
            kill_targets(old(self).stats.pub_drop_roles@).contains(chosen) ==> {
                &&& r is Ok
                &&& final(self).stats.killed.spec_role() == Some(chosen)
                &&& final(self).phase == (Phase::Oper { actor: old(self).phase->Kill_actor })
            },
    {
        let actor = match self.phase {
            Phase::Kill { actor } => actor,
            _ => PlayerIndex::from_usize(0),
        };
        let choices = self.kill_choices();
        if !choices.contains(chosen) {
            return Err(GameError::RoleNotAvailable);
        }
        effects.push(Effect::KillResp { chosen });
        self.stats.killed = OptionRole::from_role(chosen);
        self.notify_all(RoundFact::KilledRole(chosen), effects);
        Ok(self.request_oper(actor, effects))
    }

    /// The thief names the role to rob.
    pub(super) fn answer_steal(&mut self, chosen: Role, effects: &mut Vec<Effect>) -> (r: Result<Request, GameError>)
        requires
            old(self).wf_body(),
            old(self).phase is Steal,
        ensures
            r is Ok ==> final(self).turn == old(self).turn,
            r is Ok ==> final(self).request_fits(r->Ok_0),
            r is Ok ==> records_answer(old(effects)@, final(effects)@, Answer::StealTarget(chosen)),
            appended(old(effects)@, final(effects)@),
            final(self).wf_body(),
            !steal_targets(old(self).stats.pub_drop_roles@, old(self).stats.killed.spec_role()).contains(chosen) ==> r
                == Err::<Request, GameError>(GameError::RoleNotAvailable) && *final(self) == *old(self) && final(effects)@ == old(effects)@,
            steal_targets(old(self).stats.pub_drop_roles@, old(self).stats.killed.spec_role()).contains(chosen) ==> {
                &&& r is Ok
                &&& final(self).stats.stolen.spec_role() == Some(chosen)
                &&& final(self).stats.stealer == Some(old(self).phase->Steal_actor)
                &&& final(self).phase == (Phase::Oper { actor: old(self).phase->Steal_actor })
            },
    {
        let actor = match self.phase {
            Phase::Steal { actor } => actor,
            _ => PlayerIndex::from_usize(0),
        };
        let choices = self.steal_choices();
        if !choices.contains(chosen) {
            return Err(GameError::RoleNotAvailable);
        }
        effects.push(Effect::StealResp { chosen });
        self.stats.stolen = OptionRole::from_role(chosen);
        self.notify_all(RoundFact::StolenRole(chosen), effects);
        Ok(self.request_oper(actor, effects))
    }

    /// Whether the magician may swap hands with the player at `offset`:
    /// another player at the table.
    pub(crate) open spec fn swap_allowed(self, offset: int) -> bool {
        0 < offset < self.num_players
    }

    /// The magician swaps hands with another player, replaces cards of its
    /// hand with as many drawn ones, or passes.
    #[verifier::rlimit(40)]
    pub(super) fn answer_magic(&mut self, skill: MagicianSkill, effects: &mut Vec<Effect>) -> (r: Result<Request, GameError>)
        requires
            old(self).wf_body(),
            old(self).phase is Magic,
        ensures
            r is Ok ==> final(self).phase == (Phase::Oper { actor: old(self).phase->Magic_actor }),
            r is Ok ==> final(self).turn == old(self).turn,
            r is Ok ==> final(self).request_fits(r->Ok_0),
            r is Ok ==> records_answer(old(effects)@, final(effects)@, Answer::MagicTarget(skill)),
            appended(old(effects)@, final(effects)@),
            final(self).wf_body(),
            r is Err ==> *final(self) == *old(self) && final(effects)@ == old(effects)@,
            ({
                let actor = old(self).phase->Magic_actor.spec_value() as int;
                match skill {
                    MagicianSkill::Swap(offset) => {
                        let j = spec_seat(offset.spec_value() as int, actor, old(self).num_players as int);
                        &&& !old(self).swap_allowed(offset.spec_value() as int) <==> r == Err::<Request, GameError>(GameError::InvalidSwapTarget)
                        &&& old(self).swap_allowed(offset.spec_value() as int) ==> r is Ok
                        &&& r is Ok ==> final(self).players@[actor]@.cards == old(self).players@[j]@.cards
                        &&& r is Ok ==> final(self).players@[j]@.cards == old(self).players@[actor]@.cards
                    },
                    MagicianSkill::Replace(cards) => {
                        &&& !cards@.to_multiset().subset_of(old(self).players@[actor]@.cards.to_multiset()) <==> r
                            == Err::<Request, GameError>(GameError::CardsNotInHand)
                        &&& cards@.to_multiset().subset_of(old(self).players@[actor]@.cards.to_multiset()) ==> r is Ok
                        &&& r is Ok ==> final(self).players@[actor]@ == (PlayerState {
                            cards: final(self).players@[actor]@.cards,
                            ..old(self).players@[actor]@
                        })
                        &&& r is Ok ==> final(self).players@[actor]@.cards.len() == old(self).players@[actor]@.cards.len()
                        &&& r is Ok ==> final(self).players@[actor]@.cards.to_multiset().add(final(self).deck.spec_cards())
                            == old(self).players@[actor]@.cards.to_multiset().add(old(self).deck.spec_cards())
                        &&& r is Ok && old(self).deck.spec_deck().len() >= cards@.len() ==> {
                            let d = old(self).deck.spec_deck();
                            &&& final(self).deck.spec_drop() == old(self).deck.spec_drop() + cards@
                            &&& final(self).deck.spec_deck() == d.subrange(0, d.len() - cards@.len())
                            &&& final(self).players@[actor]@.cards.to_multiset() == old(self).players@[actor]@.cards.to_multiset().sub(
                                cards@.to_multiset(),
                            ).add(top_cards(d, cards@.len() as int).to_multiset())
                        }
                    },
                    MagicianSkill::Pass => r is Ok && final(self).players@ == old(self).players@,
                }
            }),
    {
        let actor = match self.phase {
            Phase::Magic { actor } => actor,
            _ => PlayerIndex::from_usize(0),
        };
        let n = self.num_players;
        let round = self.stats.round;
        match skill {
            MagicianSkill::Swap(offset) => {
                if offset.value() == 0 || offset.value() >= n {
                    return Err(GameError::InvalidSwapTarget);
                }
                effects.push(Effect::MagicResp { chosen: MagicianSkill::Swap(offset) });
                let j = offset.to_index(actor, n);
                proof {
                    lemma_seat_round_trip(offset.spec_value() as int, actor.spec_value() as int, n as int);
                    lemma_offset_round_trip(actor.spec_value() as int, actor.spec_value() as int, n as int);
                }
                let ghost s0 = *self;
                let mine = self.players.get_mut(actor).replace_cards(Vec::new());
                let theirs = self.players.get_mut(j).replace_cards(mine);
                let _ = self.players.get_mut(actor).replace_cards(theirs);
                proof {
                    let a = actor.spec_value() as int;
                    let b = j.spec_value() as int;
                    let mid = s0.players@.update(a, self.players@[a]);
                    assert(self.players@ =~= mid.update(b, self.players@[b]));
                    lemma_players_cards_update(s0.players@, a, self.players@[a]);
                    lemma_players_cards_update(mid, b, self.players@[b]);
                    Game::lemma_roles_kept(s0, *self);
                }
                effects.push(Effect::SwapCards { actor, round, i: actor, j });
                self.refresh_all(effects);
                Ok(self.request_oper(actor, effects))
            },
            MagicianSkill::Replace(cards) => {
                if !self.players.get(actor).has_cards(&cards) {
                    return Err(GameError::CardsNotInHand);
                }
                effects.push(Effect::MagicResp { chosen: MagicianSkill::Replace(crate::deck::copy_cards(&cards)) });
                let ghost s0 = *self;
                let ghost cs = cards@;
                let removed = self.players.get_mut(actor).remove_cards(cards, &mut self.deck);
                let ghost s1 = *self;
                let drawn = self.players.get_mut(actor).draw_card(removed.len(), &mut self.deck);
                self.flush_shuffles(effects);
                proof {
                    broadcast use {vstd::seq_lib::group_to_multiset_ensures, vstd::multiset::group_multiset_axioms};

                    let a = actor.spec_value() as int;
                    let h0 = s0.players@[a]@.cards.to_multiset();
                    let h1 = s1.players@[a]@.cards.to_multiset();
                    let h2 = self.players@[a]@.cards.to_multiset();
                    vstd::seq_lib::lemma_multiset_commutative(s0.deck.spec_drop(), cs);
                    vstd::seq_lib::lemma_multiset_commutative(s1.players@[a]@.cards, drawn@);
                    assert(s1.deck.spec_cards() =~= s0.deck.spec_cards().add(cs.to_multiset()));
                    assert(h2 =~= h1.add(drawn@.to_multiset()));
                    assert(cs.to_multiset().subset_of(h0));
                    assert(h1.add(cs.to_multiset()) =~= h0);
                    assert(self.deck.spec_cards().add(drawn@.to_multiset()) == s1.deck.spec_cards());
                    assert(h2.add(self.deck.spec_cards()) =~= h1.add(s1.deck.spec_cards()));
                    assert(h2.add(self.deck.spec_cards()) =~= h0.add(s0.deck.spec_cards()));
                    assert(self.players@ =~= s0.players@.update(a, self.players@[a]));
                    lemma_players_cards_update(s0.players@, a, self.players@[a]);
                    Game::lemma_roles_kept(s0, *self);
                }
                effects.push(Effect::ReplaceCards { actor, round, removed, drawn });
                self.refresh_all(effects);
                Ok(self.request_oper(actor, effects))
            },
            MagicianSkill::Pass => {
                effects.push(Effect::MagicResp { chosen: MagicianSkill::Pass });
                Ok(self.request_oper(actor, effects))
            },
        }
    }

    /// Whether the warlord at `actor` may destroy `t`.
    fn destroy_target_ok(&self, actor: PlayerIndex, t: DestroyTarget) -> (r: bool)
        requires
            self.inv_table(),
            actor.spec_value() < self.num_players,
        ensures
            r == self.destroy_allowed(actor, t),
    {
        let n = self.num_players;
        let off = t.player_offset.value();
        if off == 0 || off >= n {
            return false;
        }
        let j = t.player_offset.to_index(actor, n);
        proof {
            lemma_seat_round_trip(off as int, actor.spec_value() as int, n as int);
        }
        let q = self.players.get(j);
        if !q.has_building(t.card) {
            return false;
        }
        match q.building_destroy_fee(t.card) {
            Some(f) => f <= self.players.get(actor).gold(),
            None => false,
        }
    }

    /// The first seat whose city has the graveyard.
    fn graveyard_owner(&self) -> (r: Option<PlayerIndex>)
        requires
            self.inv_table(),
        ensures
            r matches Some(w) ==> {
                &&& w.spec_value() < self.num_players
                &&& self.players@[w.spec_value() as int]@.buildings.contains(Card::Graveyard)
            },
            r is None ==> forall|i: int| 0 <= i < self.num_players ==> !(#[trigger] self.players@[i])@.buildings.contains(Card::Graveyard),
            r matches Some(w) ==> first_graveyard(self.players@, self.num_players as int) == Some(w.spec_value() as int)
                && w == PlayerIndex::from_usize_spec(w.spec_value()),
            r is None ==> first_graveyard(self.players@, self.num_players as int) is None,
    {
        let n = self.num_players;
        let mut i: usize = 0;
        while i < n
            invariant
                i <= n,
                n == self.num_players,
                self.inv_table(),
                forall|j: int| 0 <= j < i ==> !(#[trigger] self.players@[j])@.buildings.contains(Card::Graveyard),
            decreases n - i,
        {
            let idx = PlayerIndex::from_usize(i);
            if self.players.get(idx).has_building(Card::Graveyard) {
                proof {
                    let ps = self.players@;
                    assert(graveyard_at(ps, n as int, i as int));
                    assert forall|w: int| graveyard_at(ps, n as int, w) implies w == i by {
                        if w < i {
                        } else if w > i {
                            assert(!ps[i as int]@.buildings.contains(Card::Graveyard));
                        }
                    }
                }
                return Some(idx);
            }
            i = i + 1;
        }
        None
    }

    /// The warlord destroys a building, or nothing. The destroyed card goes
    /// to the discard pile, unless another player who owns the graveyard
    /// and has a gold may buy it: then that decision is asked for.
    #[verifier::rlimit(40)]
    pub(super) fn answer_destroy(&mut self, target: Option<DestroyTarget>, effects: &mut Vec<Effect>) -> (r: Result<Request, GameError>)
        requires
            old(self).wf_body(),
            old(self).phase is Destroy,
        ensures
            r is Ok ==> final(self).turn == old(self).turn,
            r is Ok ==> final(self).request_fits(r->Ok_0),
            r is Ok ==> records_answer(old(effects)@, final(effects)@, Answer::DestroyTarget(target)),
            appended(old(effects)@, final(effects)@),
            final(self).wf_body(),
            ({
                let actor = old(self).phase->Destroy_actor;
                match target {
                    Some(t) => {
                        let j = spec_seat(t.player_offset.spec_value() as int, actor.spec_value() as int, old(self).num_players as int);
                        &&& !old(self).destroy_allowed(actor, t) <==> r == Err::<Request, GameError>(GameError::InvalidDestroyTarget)
                        &&& old(self).destroy_allowed(actor, t) ==> r is Ok
                        &&& r is Err ==> *final(self) == *old(self) && final(effects)@ == old(effects)@
                        &&& r is Ok ==> !final(self).players@[j]@.buildings.contains(t.card)
                        &&& r is Ok ==> final(self).players@[j]@.buildings.len() + 1 == old(self).players@[j]@.buildings.len()
                        &&& r is Ok ==> final(self).players@[actor.spec_value() as int]@.gold == old(self).players@[actor.spec_value() as int]@.gold
                            - destroy_fee(old(self).players@[j]@.role, old(self).players@[j]@.buildings, t.card)->0
                        &&& r is Ok ==> {
                            let fg = first_graveyard(final(self).players@, old(self).num_players as int);
                            let asks = fg matches Some(w) && w != actor.spec_value() && final(self).players@[w]@.gold >= 1;
                            &&& (final(self).phase is Tomb) == asks
                            &&& asks ==> final(self).phase == (Phase::Tomb {
                                actor,
                                owner: PlayerIndex::from_usize_spec(fg->0 as usize),
                                card: t.card,
                            })
                            &&& !asks ==> final(self).deck.spec_drop() == old(self).deck.spec_drop().push(t.card)
                        }
                    },
                    None => r is Ok && final(self).players@ == old(self).players@ && final(self).phase == (Phase::Oper { actor }),
                }
            }),
    {
        let actor = match self.phase {
            Phase::Destroy { actor } => actor,
            _ => PlayerIndex::from_usize(0),
        };
        let n = self.num_players;
        match target {
            None => {
                effects.push(Effect::DestroyResp { chosen_index: None, chosen_card: None });
                Ok(self.request_oper(actor, effects))
            },
            Some(t) => {
                if !self.destroy_target_ok(actor, t) {
                    return Err(GameError::InvalidDestroyTarget);
                }
                let card = t.card;
                let j = t.player_offset.to_index(actor, n);
                proof {
                    lemma_seat_round_trip(t.player_offset.spec_value() as int, actor.spec_value() as int, n as int);
                    lemma_offset_round_trip(actor.spec_value() as int, actor.spec_value() as int, n as int);
                }
                effects.push(Effect::DestroyResp { chosen_index: Some(j), chosen_card: Some(card) });
                let fee = match self.players.get(j).building_destroy_fee(card) {
                    Some(f) => f,
                    None => 0,
                };
                let ghost s0 = *self;
                self.players.get_mut(j).remove_building(card);
                self.players.get_mut(actor).sub_gold(fee);
                proof {
                    let b = j.spec_value() as int;
                    let a = actor.spec_value() as int;
                    lemma_remove_all_distinct(s0.players@[b]@.buildings, card);
                    let mid = s0.players@.update(b, self.players@[b]);
                    assert(self.players@ =~= mid.update(a, self.players@[a]));
                    lemma_players_cards_update(s0.players@, b, self.players@[b]);
                    lemma_players_cards_update(mid, a, self.players@[a]);
                    Game::lemma_roles_kept(s0, *self);
                }
                let ghost s1 = *self;
                self.update_all_obs(effects);
                proof {
                    Game::lemma_obs_refresh(s1, *self);
                }
                self.offer_graveyard(actor, card, effects)
            },
        }
    }

    /// The destroyed `card` goes to the owner of the graveyard if it may buy
    /// it (the decision is asked for), else to the discard pile.
    fn offer_graveyard(&mut self, actor: PlayerIndex, card: Card, effects: &mut Vec<Effect>) -> (r: Result<Request, GameError>)
        requires
            old(self).inv_table(),
            old(self).inv_turn_start(actor, Role::Warlord),
            old(self).phase is Destroy,
            old(self).deck.spec_count() + players_cards(old(self).players@) + 1 == total_cards(),
            crate::obs::scores_fit(old(self).players@),
        ensures
            final(self).turn == old(self).turn,
            r is Ok ==> final(self).request_fits(r->Ok_0),
            appended(old(effects)@, final(effects)@),
            final(self).wf_body(),
            r is Ok,
            final(self).players@ == old(self).players@,
            ({
                let fg = first_graveyard(old(self).players@, old(self).num_players as int);
                let asks = fg matches Some(w) && w != actor.spec_value() && old(self).players@[w]@.gold >= 1;
                &&& (final(self).phase is Tomb) == asks
                &&& asks ==> final(self).phase == (Phase::Tomb {
                    actor,
                    owner: PlayerIndex::from_usize_spec(fg->0 as usize),
                    card,
                })
                &&& !asks ==> final(self).deck.spec_drop() == old(self).deck.spec_drop().push(card)
            }),
    {
        let owner = self.graveyard_owner();
        let mut asks = false;
        let mut w = actor;
        if let Some(o) = owner {
            if o.value() != actor.value() && self.players.get(o).gold() >= 1 {
                asks = true;
                w = o;
            }
        }
        if asks {
            let ghost s0 = *self;
            self.observes.get_mut(w).update_infos(&self.deck, &self.players, w);
            proof {
                assert(Game::obs_roles_same(s0.observes@, self.observes@));
                Game::lemma_obs_refresh(s0, *self);
            }
            effects.push(Effect::TombReq { actor, obs: self.observes.get(w).clone(), card });
            self.phase = Phase::Tomb { actor, owner: w, card };
            Ok(Request::Tomb { actor, observer: w, card })
        } else {
            self.deck.drop(card);
            self.refresh_all(effects);
            Ok(self.request_oper(actor, effects))
        }
    }

    /// The graveyard decision: the owner pays one gold and takes the
    /// destroyed card into its hand, or the card is discarded.
    #[verifier::rlimit(40)]
    pub(super) fn answer_tomb(&mut self, chosen: bool, effects: &mut Vec<Effect>) -> (r: Result<Request, GameError>)
        requires
            old(self).wf_body(),
            old(self).phase is Tomb,
        ensures
            r is Ok ==> final(self).phase == (Phase::Oper { actor: old(self).phase->Tomb_actor }),
            r is Ok ==> final(self).turn == old(self).turn,
            r is Ok ==> final(self).request_fits(r->Ok_0),
            r is Ok ==> records_answer(old(effects)@, final(effects)@, Answer::Tomb(chosen)),
            appended(old(effects)@, final(effects)@),
            final(self).wf_body(),
            r is Ok,
            ({
                let owner = old(self).phase->Tomb_owner.spec_value() as int;
                let card = old(self).phase->Tomb_card;
                if chosen {
                    &&& final(self).players@[owner]@.cards == old(self).players@[owner]@.cards.push(card)
                    &&& final(self).players@[owner]@.gold == old(self).players@[owner]@.gold - 1
                    &&& final(self).deck.spec_drop() == old(self).deck.spec_drop()
                } else {
                    &&& final(self).players@ == old(self).players@
                    &&& final(self).deck.spec_drop() == old(self).deck.spec_drop().push(card)
                }
            }),
    {
        let (actor, owner, card) = match self.phase {
            Phase::Tomb { actor, owner, card } => (actor, owner, card),
            _ => (PlayerIndex::from_usize(0), PlayerIndex::from_usize(0), Card::Tavern),
        };
        effects.push(Effect::TombResp { chosen });
        let ghost s0 = *self;
        if chosen {
            self.players.get_mut(owner).sub_gold(1);
            self.players.get_mut(owner).add_card(card);
            proof {
                let b = owner.spec_value() as int;
                assert(self.players@ =~= s0.players@.update(b, self.players@[b]));
                lemma_players_cards_update(s0.players@, b, self.players@[b]);
            }
        } else {
            self.deck.drop(card);
        }
        proof {
            Game::lemma_roles_kept(s0, *self);
        }
        self.phase = Phase::Oper { actor };
        self.refresh_all(effects);
        Ok(self.request_oper(actor, effects))
    }
}

} // verus!
