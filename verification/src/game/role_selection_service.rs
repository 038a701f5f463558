//! Choosing roles: the public and secret drops, then each player in turn
//! from the crown onwards.

use vstd::prelude::*;

use crate::deck::total_cards;
use crate::domain::player_offset::{lemma_offset_round_trip, lemma_seat_round_trip, spec_offset, spec_seat};
use crate::domain::{OptionRole, PlayerIndex, PlayerOffset, PlayerOffsetSet, Role, RoleSet};
use crate::game::{turn_passes, appended, records_answer, Answer, order_seat, pending_cards, players_cards, Effect, Game, GameError, Phase, Request, RoundStats};
use crate::obs::{scores_fit, Obs};

verus! {

impl Game {
    /// No roles are held and no cards wait for a choice: a round can begin.
    pub(crate) open spec fn between_rounds(self) -> bool {
        &&& self.inv_table()
        &&& self.inv_no_roles()
        &&& !(self.phase is Created)
        &&& pending_cards(self.phase) == 0
        &&& self.deck.spec_count() + players_cards(self.players@) == total_cards()
        &&& scores_fit(self.players@)
    }

    /// Seat of the player at place `pos` of this round's choosing order.
    fn order_at(&self, pos: usize) -> (r: PlayerIndex)
        requires
            self.inv_table(),
            pos < self.num_players,
        ensures
            r.spec_value() == order_seat(pos as int, self.crown.spec_value() as int, self.num_players as int),
            r == PlayerIndex::from_usize_spec(order_seat(pos as int, self.crown.spec_value() as int, self.num_players as int) as usize),
            r.spec_value() < self.num_players,
    {
        let n = self.num_players;
        let c = self.crown.value();
        if c + pos < n {
            PlayerIndex::from_usize(c + pos)
        } else {
            PlayerIndex::from_usize(c + pos - n)
        }
    }

    /// Starts the next round: counts it, shows it to everyone, puts two
    /// random roles aside face up when four play, one face down, and asks
    /// the crown's player for a role.
    #[verifier::rlimit(40)]
    pub(super) fn begin_round(&mut self, effects: &mut Vec<Effect>) -> (r: Result<Request, GameError>)
        requires
            old(self).between_rounds(),
            !old(self).stats.has_first_8_buildings,
        ensures
            appended(old(effects)@, final(effects)@),
            r is Ok ==> final(self).wf_body() && final(self).phase == (Phase::ChooseRole { pos: 0 }),
            r is Ok ==> final(self).stats.round == old(self).stats.round + 1,
            r is Ok ==> final(self).request_fits(r->Ok_0),
            old(self).stats.round < u32::MAX ==> r is Ok,
            r is Ok ==> final(self).stats == (RoundStats {
                round: (old(self).stats.round + 1) as u32,
                pub_drop_roles: final(self).stats.pub_drop_roles,
                killed: OptionRole::Empty,
                stolen: OptionRole::Empty,
                stealer: None,
                has_first_8_buildings: false,
                crown: old(self).crown,
            }),
            r is Err ==> r == Err::<Request, GameError>(GameError::RoundOverflow) && *final(self) == *old(self) && old(self).stats.round == u32::MAX,
            final(self).players@ == old(self).players@,
            final(self).crown == old(self).crown,
            final(self).deck.spec_deck() == old(self).deck.spec_deck(),
            final(self).deck.spec_drop() == old(self).deck.spec_drop(),
    {
        if self.stats.round == u32::MAX {
            return Err(GameError::RoundOverflow);
        }
        let round = self.stats.round + 1;
        effects.push(Effect::StartRound { round, crown: self.crown });
        let n = self.num_players;
        let ghost s0 = *self;
        let mut o: usize = 0;
        while o < n
            invariant
                appended(old(effects)@, effects@),
                o <= n,
                n == self.num_players,
                s0.between_rounds(),
                *self == (Game { observes: self.observes, ..s0 }),
                Game::obs_roles_same(s0.observes@, self.observes@),
            decreases n - o,
        {
            let idx = PlayerIndex::from_usize(o);
            self.observes.get_mut(idx).set_round(round);
            effects.push(Effect::ObsChanged { observer: idx, obs: self.observes.get(idx).clone() });
            o = o + 1;
        }
        self.stats = RoundStats {
            round,
            pub_drop_roles: RoleSet::empty(),
            killed: OptionRole::Empty,
            stolen: OptionRole::Empty,
            stealer: None,
            has_first_8_buildings: false,
            crown: self.crown,
        };
        let mut roles = RoleSet::universal();
        proof {
            roles.lemma_finite();
            assert(Set::<Role>::full().len() == 8) by {
                let s = Set::<Role>::full();
                assert(s =~= set![Role::Assassin, Role::Thief, Role::Magician, Role::King, Role::Bishop, Role::Merchant, Role::Architect, Role::Warlord]);
            }
        }
        if n == 4 {
            let d0 = roles.random_choose(self.deck.rng());
            roles = roles.without(d0);
            let d1 = roles.random_choose(self.deck.rng());
            roles = roles.without(d1);
            let dropped = RoleSet::from_pair(d0, d1);
            self.stats.pub_drop_roles = dropped;
            effects.push(Effect::PublicDropRoles { round, roles: dropped });
            let ghost s1 = *self;
            let mut o: usize = 0;
            while o < n
                invariant
                    appended(old(effects)@, effects@),
                    o <= n,
                    n == self.num_players,
                    s1.inv_table(),
                    !(s1.phase is Created),
                    *self == (Game { observes: self.observes, ..s1 }),
                    Game::obs_roles_same(s1.observes@, self.observes@),
                decreases n - o,
            {
                let idx = PlayerIndex::from_usize(o);
                self.observes.get_mut(idx).set_roles_public_dropped(dropped);
                effects.push(Effect::ObsChanged { observer: idx, obs: self.observes.get(idx).clone() });
                o = o + 1;
            }
            proof {
                roles.lemma_finite();
                assert(roles@ =~= Set::<Role>::full().remove(d0).remove(d1));
                assert(roles@.disjoint(set![d0, d1]));
            }
        } else {
            proof {
                assert(self.stats.pub_drop_roles@.len() == 0);
            }
        }
        proof {
            roles.lemma_finite();
        }
        let d = roles.random_choose(self.deck.rng());
        roles = roles.without(d);
        let roles_chosen = RoleSet::empty().with(d);
        effects.push(Effect::SecretFirstDropRole { round, role: d });
        effects.push(Effect::FirstRoleDropped);
        self.roles = roles;
        self.roles_chosen = roles_chosen;
        proof {
            self.stats.pub_drop_roles.lemma_finite();
            assert(self.inv_table());
            assert(self.inv_selection(0)) by {
                assert forall|i: int| 0 <= i < n implies {
                    let p = #[trigger] order_seat(i, self.crown.spec_value() as int, n as int);
                    self.players@[p]@.role is None
                } by {
                    lemma_seat_round_trip(i, self.crown.spec_value() as int, n as int);
                }
            }
        }
        Ok(self.prepare_role_choice(0, effects))
    }

    /// Shows the player at place `pos` of the order who chose before and
    /// who chooses after it, and which roles are gone, then asks it for a role.
    #[verifier::rlimit(40)]
    fn prepare_role_choice(&mut self, pos: usize, effects: &mut Vec<Effect>) -> (r: Request)
        requires
            old(self).inv_table(),
            pos < old(self).num_players,
            old(self).inv_selection(pos as int),
            old(self).deck.spec_count() + players_cards(old(self).players@) == total_cards(),
            scores_fit(old(self).players@),
            !(old(self).phase is Created),
        ensures
            final(self).deck == old(self).deck,
            final(self).request_fits(r),
            appended(old(effects)@, final(effects)@),
            final(self).wf_body(),
            final(self).phase == (Phase::ChooseRole { pos }),
            final(self).players@ == old(self).players@,
            final(self).crown == old(self).crown,
            final(self).stats == old(self).stats,
            final(self).roles == old(self).roles,
            r == (Request::Role {
                actor: PlayerIndex::from_usize_spec(
                    order_seat(pos as int, old(self).crown.spec_value() as int, old(self).num_players as int) as usize,
                ),
                roles: old(self).roles,
            }),
    {
        let n = self.num_players;
        let actor = self.order_at(pos);
        let num_choices = self.roles.len();
        let mut j: usize = 0;
        while j < n
            invariant
                appended(old(effects)@, effects@),
                j <= n,
                n == self.num_players,
                n <= 6,
                actor.spec_value() < n,
            decreases n - j,
        {
            let observer = PlayerIndex::from_usize(j);
            effects.push(Effect::VillainChooseRoleReqed {
                observer,
                villain: PlayerOffset::from_index(actor, observer, n),
                num_choices,
            });
            j = j + 1;
        }
        let mut before = PlayerOffsetSet::empty();
        let mut idx: usize = 0;
        while idx < pos
            invariant
                appended(old(effects)@, effects@),
                idx <= pos < n,
                n == self.num_players,
                n <= 6,
                actor.spec_value() < n,
                self.crown.spec_value() < n,
                self.inv_table(),
            decreases pos - idx,
        {
            let p = self.order_at(idx);
            before = before.with(PlayerOffset::from_index(p, actor, n));
            idx = idx + 1;
        }
        let mut after = PlayerOffsetSet::empty();
        let mut idx: usize = pos + 1;
        while idx < n
            invariant
                appended(old(effects)@, effects@),
                pos < idx <= n,
                n == self.num_players,
                n <= 6,
                actor.spec_value() < n,
                self.crown.spec_value() < n,
                self.inv_table(),
            decreases n - idx,
        {
            let p = self.order_at(idx);
            after = after.with(PlayerOffset::from_index(p, actor, n));
            idx = idx + 1;
        }
        let ghost s0 = *self;
        let chosen_before = self.roles_chosen;
        let obs = self.observes.get_mut(actor);
        obs.set_players_choose_role_before(before);
        obs.set_players_choose_role_after(after);
        obs.set_roles_chosen_before(chosen_before);
        effects.push(Effect::ChooseRoleReq {
            actor,
            obs: self.observes.get(actor).clone(),
            choices: self.roles,
        });
        self.phase = Phase::ChooseRole { pos };
        proof {
            assert(Game::obs_roles_same(s0.observes@, self.observes@));
            assert(self.inv_table());
            assert(self.inv_selection(pos as int));
        }
        Request::Role { actor, roles: self.roles }
    }

    /// The player at the current place of the order takes `chosen`; then the
    /// next player is asked, or, when all have chosen, the remaining role is
    /// put aside face down and the roles start acting.
    #[verifier::rlimit(40)]
    pub(super) fn answer_role(&mut self, chosen: Role, effects: &mut Vec<Effect>) -> (r: Result<Request, GameError>)
        requires
            old(self).wf_body(),
            old(self).phase is ChooseRole,
        ensures
            r is Ok ==> final(self).request_fits(r->Ok_0),
            old(self).room_body() && old(self).roles@.contains(chosen) ==> r is Ok,
            r is Ok ==> records_answer(old(effects)@, final(effects)@, Answer::Role(chosen)),
            appended(old(effects)@, final(effects)@),
            final(self).wf_body(),
            !old(self).roles@.contains(chosen) ==> r == Err::<Request, GameError>(GameError::RoleNotAvailable) && *final(self) == *old(self) && final(effects)@ == old(effects)@,
            old(self).roles@.contains(chosen) && r is Err ==> final(self).phase is Halted,
            ({
                let pos = old(self).phase->ChooseRole_pos as int;
                let n = old(self).num_players as int;
                &&& old(self).roles@.contains(chosen) && pos + 1 < n ==> {
                    &&& r is Ok
                    &&& final(self).players@[order_seat(pos, old(self).crown.spec_value() as int, n)]@.role == Some(chosen)
                    &&& final(self).phase == (Phase::ChooseRole { pos: (pos + 1) as usize })
                }
                &&& old(self).roles@.contains(chosen) && pos + 1 == n && !(final(self).phase is ChooseRole
                    || final(self).phase is Finished || final(self).phase is Halted) ==> final(self).players@[order_seat(
                    pos,
                    old(self).crown.spec_value() as int,
                    n,
                )]@.role == Some(chosen)
                &&& old(self).roles@.contains(chosen) && pos + 1 == n && r is Ok ==> !(final(self).phase is ChooseRole
                    || final(self).phase is Finished)
                &&& old(self).roles@.contains(chosen) && pos + 1 == n ==> old(self).roles@.remove(chosen).len() == 1
            }),
    {
        let pos = match self.phase {
            Phase::ChooseRole { pos } => pos,
            _ => 0,
        };
        if !self.roles.contains(chosen) {
            return Err(GameError::RoleNotAvailable);
        }
        let n = self.num_players;
        let actor = self.order_at(pos);
        effects.push(Effect::ChooseRoleResp {
            actor,
            obs: self.observes.get(actor).clone(),
            choices: self.roles,
            chosen,
        });
        let ghost s0 = *self;
        proof {
            lemma_seat_round_trip(pos as int, self.crown.spec_value() as int, n as int);
            assert(self.players@[actor.spec_value() as int]@.role is None);
        }
        self.players.get_mut(actor).set_role(chosen);
        self.roles_chosen = self.roles_chosen.with(chosen);
        self.roles = self.roles.without(chosen);
        let roles = self.roles;
        let obs = self.observes.get_mut(actor);
        obs.set_roles_chosen_after(roles);
        obs.set_actor_role(chosen);
        proof {
            s0.roles.lemma_finite();
            self.roles.lemma_finite();
            crate::game::lemma_players_cards_update(s0.players@, actor.spec_value() as int, self.players@[actor.spec_value() as int]);
            assert(self.players@ =~= s0.players@.update(actor.spec_value() as int, self.players@[actor.spec_value() as int]));
            Game::lemma_first_8_kept(s0, *self);
            assert(self.inv_table());
            assert forall|q: int| 0 <= q < n && q != actor.spec_value() && (#[trigger] self.players@[q])@.role is Some implies !s0.roles@.contains(self.players@[q]@.role->0) by {
                lemma_offset_round_trip(q, self.crown.spec_value() as int, n as int);
                let i = spec_offset(q, self.crown.spec_value() as int, n as int);
                assert(order_seat(i, self.crown.spec_value() as int, n as int) == q);
            }
            assert(self.roles_distinct());
            assert(self.actor_roles_shown());
            assert(self.inv_selection(pos + 1)) by {
                assert forall|i: int| 0 <= i < n implies {
                    let p = #[trigger] order_seat(i, self.crown.spec_value() as int, n as int);
                    if i < pos + 1 {
                        &&& self.players@[p]@.role matches Some(r)
                        &&& !self.roles@.contains(r)
                    } else {
                        self.players@[p]@.role is None
                    }
                } by {
                    lemma_seat_round_trip(i, self.crown.spec_value() as int, n as int);
                    assert(order_seat(i, s0.crown.spec_value() as int, n as int) == order_seat(i, self.crown.spec_value() as int, n as int));
                }
            }
        }
        if pos + 1 < n {
            Ok(self.prepare_role_choice(pos + 1, effects))
        } else {
            let last = self.roles.into_role();
            effects.push(Effect::SecretLastDropRole { round: self.stats.round, role: last });
            effects.push(Effect::LastRoleDropped);
            proof {
                assert forall|q: int| 0 <= q < n implies (#[trigger] self.players@[q])@.role is Some by {
                    lemma_offset_round_trip(q, self.crown.spec_value() as int, n as int);
                    let i = spec_offset(q, self.crown.spec_value() as int, n as int);
                    assert(order_seat(i, self.crown.spec_value() as int, n as int) == q);
                }
            }
            self.next_role = 0;
            proof {
                crate::game::lemma_total_gold_same(s0.players@, self.players@);
            }
            let ghost s_sel = *self;
            let res = self.advance(effects);
            proof {
                if res is Ok && (self.phase is ChooseRole || self.phase is Finished) {
                    s_sel.unfold();
                    crate::domain::role::lemma_role_bits();
                    let k = chosen.spec_index();
                    assert(turn_passes(s_sel, k));
                    assert(s_sel.players@[actor.spec_value() as int]@.role == Some(chosen));
                }
            }
            res
        }
    }
}

} // verus!
