//! The roles acting in order: each holder's turn begins with what its role
//! does, then the holder takes operations until it ends the turn.

use vstd::prelude::*;

use crate::deck::total_cards;
use crate::domain::player_offset::{lemma_offset_round_trip, lemma_seat_round_trip, spec_offset, spec_seat};
use crate::domain::role::role_at;
use crate::domain::{Card, DestroyTarget, OptionRole, PlayerIndex, PlayerOffset, Role, RoleSet};
use crate::game::turn_fresh;
use crate::game::laws::phase_actor;
use crate::game::turn::{drawn_count, oper_offer};
use crate::player::{destroy_fee, PlayerState};
use crate::game::{appended, 
    build_base, lemma_players_cards_same, pending_cards, players_cards, Effect, Game, GameError, Phase, Request,
};
use crate::obs::{camp_scores, scores_fit, villain_seat, Obs, RoundInfo};

verus! {

/// The roles the assassin may name, given the roles put aside face up.
pub open spec fn kill_targets(pub_drop: Set<Role>) -> Set<Role> {
    Set::full().difference(pub_drop.insert(Role::Assassin))
}

/// The roles the thief may name, given the roles put aside face up and the
/// killed role.
pub open spec fn steal_targets(pub_drop: Set<Role>, killed: Option<Role>) -> Set<Role> {
    let banned = pub_drop.insert(Role::Assassin).insert(Role::Thief);
    Set::full().difference(
        match killed {
            Some(k) => banned.insert(k),
            None => banned,
        },
    )
}

/// `new` is the observation `old` of the observer at seat `o`, at a table
/// of `n`, with `fact` recorded.
pub(crate) open spec fn fact_recorded(old: Obs, new: Obs, fact: RoundFact, o: int, n: int) -> bool {
    match fact {
        RoundFact::Crown(p) => {
            &&& new.round_info.crown.spec_value() == spec_offset(p.spec_value() as int, o, n)
            &&& new == (Obs { round_info: RoundInfo { crown: new.round_info.crown, ..old.round_info }, ..old })
        },
        RoundFact::Killed(p) => {
            &&& new.round_info.killed.spec_offset().spec_value() == spec_offset(p.spec_value() as int, o, n)
            &&& new.round_info.killed.spec_role() == old.round_info.killed.spec_role()
            &&& new == (Obs { round_info: RoundInfo { killed: new.round_info.killed, ..old.round_info }, ..old })
        },
        RoundFact::Stolen(p) => {
            &&& new.round_info.stolen.spec_offset().spec_value() == spec_offset(p.spec_value() as int, o, n)
            &&& new.round_info.stolen.spec_role() == old.round_info.stolen.spec_role()
            &&& new == (Obs { round_info: RoundInfo { stolen: new.round_info.stolen, ..old.round_info }, ..old })
        },
        RoundFact::KilledRole(r) => {
            &&& new.round_info.killed.spec_role().spec_role() == Some(r)
            &&& new.round_info.killed.spec_offset() == old.round_info.killed.spec_offset()
            &&& new == (Obs { round_info: RoundInfo { killed: new.round_info.killed, ..old.round_info }, ..old })
        },
        RoundFact::StolenRole(r) => {
            &&& new.round_info.stolen.spec_role().spec_role() == Some(r)
            &&& new.round_info.stolen.spec_offset() == old.round_info.stolen.spec_offset()
            &&& new == (Obs { round_info: RoundInfo { stolen: new.round_info.stolen, ..old.round_info }, ..old })
        },
    }
}

/// In game `g`, the player at `actor`, holding `role`, has been asked by `r`
/// what its role's action needs: the assassin and the thief which role, the
/// magician what to do, the warlord which building; anyone else which
/// operation.
pub(crate) open spec fn role_asked(g: Game, actor: PlayerIndex, role: Role, r: Result<Option<Request>, GameError>) -> bool {
    match role {
        Role::Assassin => {
            &&& g.phase == (Phase::Kill { actor })
            &&& r matches Ok(Some(Request::KillTarget { actor: x, choices })) && x == actor && choices@ == kill_targets(
                g.stats.pub_drop_roles@,
            )
        },
        Role::Thief => {
            &&& g.phase == (Phase::Steal { actor })
            &&& r matches Ok(Some(Request::StealTarget { actor: x, choices })) && x == actor && choices@ == steal_targets(
                g.stats.pub_drop_roles@,
                g.stats.killed.spec_role(),
            )
        },
        Role::Magician => g.phase == (Phase::Magic { actor }) && r == Ok::<Option<Request>, GameError>(
            Some(Request::MagicTarget { actor }),
        ),
        Role::Warlord => {
            &&& g.phase == (Phase::Destroy { actor })
            &&& r matches Ok(Some(Request::DestroyTarget { actor: x, choices })) && x == actor
            &&& forall|k: int| 0 <= k < r->Ok_0->Some_0->DestroyTarget_choices@.len() ==> g.destroy_allowed(
                actor,
                #[trigger] r->Ok_0->Some_0->DestroyTarget_choices@[k],
            )
            &&& forall|t: DestroyTarget| g.destroy_allowed(actor, t) ==> #[trigger] r->Ok_0->Some_0->DestroyTarget_choices@.contains(t)
        },
        _ => {
            &&& g.phase == (Phase::Oper { actor })
            &&& r matches Ok(Some(Request::Oper { actor: x, choices })) && x == actor && oper_offer(
                choices@,
                g.players@[actor.spec_value() as int]@,
                g.turn,
            )
        },
    }
}

/// The turn of the role at place `k` of the acting order passes in game
/// `g` without anyone acting: nobody holds the role, or it was killed.
pub open spec fn turn_passes(g: Game, k: int) -> bool {
    let r = role_at(k);
    ||| forall|i: int| 0 <= i < g.spec_n() ==> (#[trigger] g.spec_players()[i])@.role != Some(r)
    ||| g.spec_stats().killed.spec_role() == Some(r)
}

/// The turns of the places `from` up to, not including, `to` pass.
pub open spec fn turns_pass(g: Game, from: int, to: int) -> bool {
    forall|k: int| from <= k < to ==> #[trigger] turn_passes(g, k)
}

/// The turn of the player at seat `a` began, in game `g`, and led to game
/// `h`: its role was not killed; the king took the crown and the thief was
/// recorded as the robber; a robbed player handed its gold to the thief;
/// the merchant earned one gold and the architect drew two cards.
pub open spec fn turn_began(g: Game, h: Game, a: int) -> bool {
    let p = g.spec_players()[a]@;
    let q = h.spec_players()[a]@;
    let role = p.role->0;
    let robbed = h.spec_stats().stolen.spec_role() == Some(role) && h.spec_stats().stealer is Some;
    let t = h.spec_stats().stealer->0.spec_value() as int;
    &&& p.role is Some
    &&& g.spec_stats().killed.spec_role() != Some(role)
    &&& h.spec_stats().killed == g.spec_stats().killed
    &&& h.spec_stats().stolen == g.spec_stats().stolen
    &&& role == Role::King ==> h.spec_stats().crown == PlayerIndex::from_usize_spec(a as usize)
    &&& role == Role::Thief ==> h.spec_stats().stealer == Some(PlayerIndex::from_usize_spec(a as usize))
    &&& turn_fresh(h.spec_turn())
    &&& robbed && t != a ==> h.spec_players()[t]@.gold == g.spec_players()[t]@.gold + p.gold
    &&& robbed ==> q.gold == (if role == Role::Merchant { 1u32 } else { 0u32 })
    &&& !robbed && role == Role::Merchant ==> q == (PlayerState { gold: (p.gold + 1) as u32, ..p })
    &&& role == Role::Architect ==> q.cards.len() == p.cards.len() + drawn_count(2, g.spec_deck().spec_count())
}

/// A fact of the round that every observation records.
#[derive(Clone, Copy)]
pub(crate) enum RoundFact {
    /// The crown went to this seat.
    Crown(PlayerIndex),
    /// The player at this seat lost its turn.
    Killed(PlayerIndex),
    /// The player at this seat was robbed.
    Stolen(PlayerIndex),
    /// The assassin named this role.
    KilledRole(Role),
    /// The thief named this role.
    StolenRole(Role),
}

/// What the player whose turn it is has done so far.
#[derive(Clone, Copy, Debug)]
pub struct TurnState {
    pub got_resources: bool,
    pub has_built_times: u32,
    pub has_bought_card: bool,
    pub has_sold_card: bool,
}

/// The role at place `i` of the acting order.
fn role_of_index(i: usize) -> (r: Role)
    requires
        i < 8,
    ensures
        r.spec_index() == i,
{
    let population = Role::population();
    let r = population[i];
    proof {
        assert(crate::domain::role::spec_population()[i as int].spec_index() == i);
    }
    r
}

impl Game {
    /// Every player holds a role and no cards wait for a choice: the roles
    /// from place `next_role` of the acting order on are still to act.
    pub(crate) open spec fn between_roles(self) -> bool {
        &&& self.inv_table()
        &&& self.inv_roles_acting()
        &&& !(self.phase is Created)
        &&& pending_cards(self.phase) == 0
        &&& self.deck.spec_count() + players_cards(self.players@) == total_cards()
        &&& scores_fit(self.players@)
    }

    /// The table and role facts carry over to players who keep their seats,
    /// their roles and a city of at most eight distinct buildings.
    pub(crate) proof fn lemma_roles_kept(a: Game, b: Game)
        requires
            a.inv_table(),
            a.inv_roles_acting(),
            b == (Game { players: b.players, deck: b.deck, ..a }),
            b.players@.len() == a.players@.len(),
            forall|i: int| 0 <= i < a.players@.len() ==> {
                &&& (#[trigger] b.players@[i])@.index == a.players@[i]@.index
                &&& b.players@[i]@.role == a.players@[i]@.role
                &&& b.players@[i]@.buildings.len() <= 8
                &&& b.players@[i]@.buildings.no_duplicates()
                &&& b.players@[i]@.first_8 == a.players@[i]@.first_8
                &&& a.players@[i]@.first_8 ==> b.players@[i]@.buildings.len() == 8
            },
        ensures
            b.inv_table(),
            b.inv_roles_acting(),
            scores_fit(b.players@),
            forall|actor: PlayerIndex| a.acting(actor) ==> #[trigger] b.acting(actor),
    {
        let n = a.num_players as int;
        Game::lemma_first_8_kept(a, b);
        assert forall|o: int, k: int| 0 <= o < b.observes@.len() && 0 <= k < b.observes@[o].villain_infos@.len()
            implies b.shown_role(o, k, b.next_role as int) == a.shown_role(o, k, a.next_role as int) by {
            lemma_seat_round_trip(k + 1, o, n);
        }
        assert(b.roles_distinct());
    }

    /// Seat of the player who holds `role`, if anyone does.
    fn holder_of(&self, role: Role) -> (r: Option<PlayerIndex>)
        requires
            self.inv_table(),
        ensures
            r matches Some(a) ==> a == PlayerIndex::from_usize_spec(a.spec_value()),
            r matches Some(a) ==> a.spec_value() < self.num_players && self.players@[a.spec_value() as int]@.role
                == Some(role),
            r is None ==> forall|i: int| 0 <= i < self.num_players ==> (#[trigger] self.players@[i])@.role != Some(role),
    {
        let n = self.num_players;
        let mut i: usize = 0;
        while i < n
            invariant
                i <= n,
                n == self.num_players,
                self.inv_table(),
                forall|j: int| 0 <= j < i ==> (#[trigger] self.players@[j])@.role != Some(role),
            decreases n - i,
        {
            let idx = PlayerIndex::from_usize(i);
            let held = match self.players.get(idx).role_option() {
                Some(x) => x == role,
                None => false,
            };
            if held {
                return Some(idx);
            }
            i = i + 1;
        }
        None
    }

    /// Reveals to every other player that `actor` holds `role`, the role
    /// whose turn begins now.
    #[verifier::rlimit(40)]
    fn reveal_holder(&mut self, actor: PlayerIndex, role: Role, effects: &mut Vec<Effect>)
        requires
            old(self).between_roles(),
            old(self).next_role < 8,
            role.spec_index() == old(self).next_role,
            actor.spec_value() < old(self).num_players,
            old(self).players@[actor.spec_value() as int]@.role == Some(role),
        ensures
            Game::roles_kept(*old(self), *final(self)),
            appended(old(effects)@, final(effects)@),
            final(self).between_roles(),
            final(self).acting(actor),
            final(self).next_role == old(self).next_role + 1,
            *final(self) == (Game { observes: final(self).observes, next_role: final(self).next_role, ..*old(self) }),
    {
        effects.push(Effect::RevealRole { actor, round: self.stats.round, role });
        let n = self.num_players;
        let next = self.next_role;
        let ghost s0 = *self;
        let mut o: usize = 0;
        while o < n
            invariant
                appended(old(effects)@, effects@),
                o <= n,
                n == self.num_players,
                s0.between_roles(),
                next == s0.next_role,
                next < 8,
                role.spec_index() == next,
                actor.spec_value() < n,
                s0.players@[actor.spec_value() as int]@.role == Some(role),
                *self == (Game { observes: self.observes, ..s0 }),
                self.observes@.len() == n,
                forall|q: int| 0 <= q < n ==> {
                    &&& (#[trigger] self.observes@[q]).num_players == s0.observes@[q].num_players
                    &&& self.observes@[q].villain_infos@.len() == s0.observes@[q].villain_infos@.len()
                    &&& self.observes@[q].actor_info.common.role == s0.observes@[q].actor_info.common.role
                    &&& forall|k: int| 0 <= k < self.observes@[q].villain_infos@.len() ==> (#[trigger] self.observes@[q].villain_infos@[k]).common.role
                        == s0.shown_role(q, k, if q < o { next + 1 } else { next as int })
                },
            decreases n - o,
        {
            let observer = PlayerIndex::from_usize(o);
            let ghost before = self.observes@;
            proof {
                assert forall|k: int| 0 <= k < n - 1 implies s0.shown_role(o as int, k, next + 1) == s0.shown_role(o as int, k, next as int)
                    || villain_seat(o as int, k, n as int) == actor.spec_value() by {
                    lemma_seat_round_trip(k + 1, o as int, n as int);
                    let s = villain_seat(o as int, k, n as int);
                    if s != actor.spec_value() {
                        assert(s0.players@[s]@.role != Some(role));
                    }
                }
            }
            if o != actor.value() {
                let offset = PlayerOffset::from_index(actor, observer, n);
                proof {
                    lemma_offset_round_trip(actor.spec_value() as int, o as int, n as int);
                    lemma_seat_round_trip(offset.spec_value() as int, o as int, n as int);
                }
                self.observes.get_mut(observer).set_villain_role(offset, role);
                effects.push(Effect::VillainChooseRoleResped { observer, villain: offset, role });
                proof {
                    assert forall|k: int| 0 <= k < self.observes@[o as int].villain_infos@.len() implies (#[trigger] self.observes@[o as int].villain_infos@[k]).common.role
                        == s0.shown_role(o as int, k, next + 1) by {
                        lemma_seat_round_trip(k + 1, o as int, n as int);
                        lemma_offset_round_trip(actor.spec_value() as int, o as int, n as int);
                    }
                }
            } else {
                proof {
                    assert forall|k: int| 0 <= k < self.observes@[o as int].villain_infos@.len() implies (#[trigger] self.observes@[o as int].villain_infos@[k]).common.role
                        == s0.shown_role(o as int, k, next + 1) by {
                        lemma_seat_round_trip(k + 1, o as int, n as int);
                    }
                }
            }
            o = o + 1;
        }
        self.next_role = next + 1;
        proof {
            assert(self.inv_table());
            assert(self.actor_roles_shown());
        }
    }

    /// Lets the remaining roles act until an answer is needed; at the end
    /// of the round, closes it.
    #[verifier::rlimit(40)]
    pub(super) fn advance(&mut self, effects: &mut Vec<Effect>) -> (r: Result<Request, GameError>)
        requires
            old(self).between_roles(),
        ensures
            r is Ok && (final(self).phase is ChooseRole || final(self).phase is Finished) ==> turns_pass(*old(self), old(self).next_role as int, 8),
            r is Ok && !(final(self).phase is ChooseRole || final(self).phase is Finished) ==> {
                &&& phase_actor(final(self).phase) is Some
                &&& turns_pass(*old(self), old(self).next_role as int, final(self).next_role - 1)
                &&& turn_began(*old(self), *final(self), phase_actor(final(self).phase)->0.spec_value() as int)
            },
            forall|w: int| 0 <= w < old(self).num_players && (#[trigger] old(self).players@[w])@.role == Some(Role::King)
                && old(self).next_role <= 3 && r is Ok ==> {
                &&& (final(self).phase is ChooseRole || final(self).phase is Finished) ==> final(self).crown
                    == PlayerIndex::from_usize_spec(w as usize)
                &&& !(final(self).phase is ChooseRole || final(self).phase is Finished) && 3 < final(self).next_role
                    ==> final(self).stats.crown == PlayerIndex::from_usize_spec(w as usize)
            },
            !(final(self).phase is ChooseRole || final(self).phase is Finished || final(self).phase is Halted) ==> Game::roles_kept(*old(self), *final(self)),
            appended(old(effects)@, final(effects)@),
            final(self).wf_body(),
            r is Err ==> final(self).phase is Halted,
            old(self).room_body() ==> r is Ok,
            r is Ok ==> final(self).request_fits(r->Ok_0),
            r is Ok ==> final(self).phase is ChooseRole || final(self).phase is Finished || final(self).next_role > old(self).next_role,
            final(self).phase is Finished ==> old(self).stats.has_first_8_buildings,
            final(self).phase is ChooseRole ==> !old(self).stats.has_first_8_buildings && final(self).stats.round == old(self).stats.round + 1
                && final(self).stats.killed == OptionRole::Empty && final(self).stats.stolen == OptionRole::Empty
                && final(self).stats.stealer is None,
            old(self).stats.has_first_8_buildings ==> !(final(self).phase is ChooseRole),
    {
        proof {
            old(self).unfold();
        }
        while self.next_role < 8
            invariant
                appended(old(effects)@, effects@),
                self.between_roles(),
                Game::roles_kept(*old(self), *self),
                old(self).room_body() ==> self.room_body(),
                self.stats.round == old(self).stats.round,
                self.stats.has_first_8_buildings == old(self).stats.has_first_8_buildings,
                self.next_role >= old(self).next_role,
                self.num_players == old(self).num_players,
                turns_pass(*old(self), old(self).next_role as int, self.next_role as int),
                self.players@ == old(self).players@,
                self.deck.spec_deck() == old(self).deck.spec_deck(),
                self.deck.spec_drop() == old(self).deck.spec_drop(),
                self.stats.killed == old(self).stats.killed,
                self.stats.stolen == old(self).stats.stolen,
                forall|w: int| 0 <= w < old(self).num_players && (#[trigger] old(self).players@[w])@.role == Some(Role::King)
                    && old(self).next_role <= 3 && 3 < self.next_role ==> self.stats.crown == PlayerIndex::from_usize_spec(w as usize),
            decreases 8 - self.next_role,
        {
            let role = role_of_index(self.next_role);
            let ghost k = self.next_role as int;
            proof {
                crate::domain::role::lemma_role_bits();
                assert(role_at(k) == role);
                old(self).unfold();
            }
            match self.holder_of(role) {
                Some(actor) => {
                    proof {
                        let a = actor.spec_value() as int;
                        assert forall|w: int| 0 <= w < old(self).num_players && (#[trigger] old(self).players@[w])@.role == Some(role)
                            implies w == a by {
                            assert(self.players@[w] == old(self).players@[w]);
                            assert(self.roles_distinct());
                            if w != a {
                                assert(self.players@[w]@.role != self.players@[a]@.role);
                            }
                        }
                    }
                    self.reveal_holder(actor, role, effects);
                    match self.begin_turn(actor, effects) {
                        Ok(Some(req)) => {
                            return Ok(req);
                        },
                        Ok(None) => {
                            proof {
                                assert(turn_passes(*old(self), k));
                            }
                        },
                        Err(e) => {
                            return Err(e);
                        },
                    }
                },
                None => {
                    proof {
                        assert forall|i: int| 0 <= i < old(self).spec_n() implies (#[trigger] old(self).spec_players()[i])@.role != Some(role_at(k)) by {
                            assert(self.players@[i] == old(self).players@[i]);
                        }
                        assert(turn_passes(*old(self), k));
                    }
                    let ghost s0 = *self;
                    self.next_role = self.next_role + 1;
                    proof {
                        let n = self.num_players as int;
                        assert forall|o: int, k: int| 0 <= o < self.observes@.len() && 0 <= k < self.observes@[o].villain_infos@.len()
                            implies self.shown_role(o, k, self.next_role as int) == s0.shown_role(o, k, s0.next_role as int) by {
                            lemma_seat_round_trip(k + 1, o, n);
                        }
                    }
                },
            }
        }
        self.end_round(effects)
    }

    /// Begins the turn of `actor`, whose role has just been revealed: the
    /// king takes the crown, a killed role loses its turn, a robbed role
    /// hands its gold to the thief, and the role's own action follows.
    #[verifier::rlimit(40)]
    fn begin_turn(&mut self, actor: PlayerIndex, effects: &mut Vec<Effect>) -> (r: Result<Option<Request>, GameError>)
        requires
            old(self).between_roles(),
            old(self).acting(actor),
        ensures
            old(self).players@[actor.spec_value() as int]@.role != Some(Role::King) ==> final(self).stats.crown == old(self).stats.crown,
            old(self).players@[actor.spec_value() as int]@.role != Some(Role::Thief) ==> final(self).stats.stealer == old(self).stats.stealer,
            r matches Ok(Some(req)) ==> final(self).request_fits(req),
            Game::roles_kept(*old(self), *final(self)),
            appended(old(effects)@, final(effects)@),
            final(self).next_role == old(self).next_role,
            r matches Ok(Some(_)) ==> final(self).wf_body(),
            r matches Ok(None) ==> final(self).between_roles(),
            r is Err ==> final(self).wf_body() && final(self).phase is Halted,
            ({
                let a = actor.spec_value() as int;
                let p = old(self).players@[a]@;
                let role = p.role->0;
                let killed = old(self).stats.killed.spec_role() == Some(role);
                let robbed = !killed && old(self).stats.stolen.spec_role() == Some(role) && old(self).stats.stealer is Some;
                let t = old(self).stats.stealer->0.spec_value() as int;
                let overflow = robbed && old(self).players@[t]@.gold + p.gold > u32::MAX;
                &&& role == Role::King ==> final(self).stats.crown == actor
                &&& role == Role::Thief ==> final(self).stats.stealer == Some(actor)
                &&& turn_fresh(final(self).turn)
                &&& killed ==> r == Ok::<Option<Request>, GameError>(None) && final(self).players@ == old(self).players@
                &&& killed ==> forall|o: int| 0 <= o < old(self).observes@.len() ==> (#[trigger] final(self).observes@[o]).round_info.killed.spec_offset().spec_value()
                    == spec_offset(a, o, old(self).num_players as int)
                &&& !killed ==> !(r matches Ok(None))
                &&& r is Err <==> (overflow || (!killed && !robbed && role == Role::Merchant && p.gold == u32::MAX))
                &&& r is Err ==> r == Err::<Option<Request>, GameError>(GameError::GoldOverflow)
                &&& r is Ok && !killed ==> role_asked(*final(self), actor, role, r)
                &&& robbed && !overflow && t != a ==> final(self).players@[t]@.gold == old(self).players@[t]@.gold + p.gold
                &&& robbed && !overflow ==> final(self).players@[a]@.gold == (if role == Role::Merchant { 1u32 } else { 0u32 })
            }),
            old(self).room_body() ==> r is Ok,
            ({
                let a = actor.spec_value() as int;
                let p = old(self).players@[a]@;
                let q = final(self).players@[a]@;
                let role = p.role->0;
                let killed = old(self).stats.killed.spec_role() == Some(role);
                let robbed = !killed && old(self).stats.stolen.spec_role() == Some(role) && old(self).stats.stealer is Some;
                &&& killed ==> final(self).deck.spec_deck() == old(self).deck.spec_deck() && final(self).deck.spec_drop()
                    == old(self).deck.spec_drop()
                &&& !killed && !robbed && role == Role::Merchant && r is Ok ==> q == (PlayerState { gold: (p.gold + 1) as u32, ..p })
                &&& !killed && role == Role::Architect && r is Ok ==> q.cards.len() == p.cards.len() + drawn_count(
                    2,
                    old(self).deck.spec_count(),
                )
            }),
            final(self).stats.round == old(self).stats.round,
            final(self).stats.killed == old(self).stats.killed,
            final(self).stats.stolen == old(self).stats.stolen,
            final(self).stats.has_first_8_buildings == old(self).stats.has_first_8_buildings,
            final(self).stats.pub_drop_roles == old(self).stats.pub_drop_roles,
    {
        let round = self.stats.round;
        let role = self.players.get(actor).role();
        self.turn = TurnState { got_resources: false, has_built_times: 0, has_bought_card: false, has_sold_card: false };
        if role == Role::Thief {
            self.stats.stealer = Some(actor);
        }
        if role == Role::King {
            self.stats.crown = actor;
            effects.push(Effect::MoveCrown { round, crown: actor });
            self.notify_all(RoundFact::Crown(actor), effects);
        }
        if self.stats.killed.is_role(role) {
            effects.push(Effect::SkipKilledTurn { actor, round });
            self.notify_all(RoundFact::Killed(actor), effects);
            return Ok(None);
        }
        self.act(actor, role, effects)
    }

    /// The turn of `actor`, whose role `role` was not killed: a robbed
    /// player hands its gold to the thief, then the role's own action.
    fn act(&mut self, actor: PlayerIndex, role: Role, effects: &mut Vec<Effect>) -> (r: Result<Option<Request>, GameError>)
        requires
            old(self).between_roles(),
            old(self).acting(actor),
            old(self).players@[actor.spec_value() as int]@.role == Some(role),
            turn_fresh(old(self).turn),
            old(self).stats.killed.spec_role() != Some(role),
            role == Role::Thief ==> old(self).stats.stealer == Some(actor),
        ensures
            r matches Ok(Some(req)) ==> final(self).request_fits(req),
            Game::roles_kept(*old(self), *final(self)),
            appended(old(effects)@, final(effects)@),
            final(self).next_role == old(self).next_role,
            r matches Ok(Some(_)) ==> final(self).wf_body(),
            r is Err ==> final(self).wf_body() && final(self).phase is Halted,
            !(r matches Ok(None)),
            final(self).stats == old(self).stats,
            turn_fresh(final(self).turn),
            old(self).room_body() ==> r is Ok,
            ({
                let a = actor.spec_value() as int;
                let p = old(self).players@[a]@;
                let q = final(self).players@[a]@;
                let robbed = old(self).stats.stolen.spec_role() == Some(role) && old(self).stats.stealer is Some;
                let t = old(self).stats.stealer->0.spec_value() as int;
                let overflow = robbed && old(self).players@[t]@.gold + p.gold > u32::MAX;
                &&& r is Err <==> (overflow || (!robbed && role == Role::Merchant && p.gold == u32::MAX))
                &&& r is Err ==> r == Err::<Option<Request>, GameError>(GameError::GoldOverflow)
                &&& r is Ok ==> role_asked(*final(self), actor, role, r)
                &&& robbed && !overflow && t != a ==> final(self).players@[t]@.gold == old(self).players@[t]@.gold + p.gold
                &&& robbed && !overflow ==> q.gold == (if role == Role::Merchant { 1u32 } else { 0u32 })
                &&& !robbed && role == Role::Merchant && r is Ok ==> q == (PlayerState { gold: (p.gold + 1) as u32, ..p })
                &&& role == Role::Architect && r is Ok ==> q.cards.len() == p.cards.len() + drawn_count(2, old(self).deck.spec_count())
            }),
    {
        proof {
            let a = actor.spec_value() as int;
            if old(self).room_body() {
                crate::game::lemma_total_gold(old(self).players@, a, a);
                if old(self).stats.stealer is Some {
                    let t = old(self).stats.stealer->0.spec_value() as int;
                    if t != a {
                        crate::game::lemma_total_gold(old(self).players@, t, a);
                    }
                }
            }
        }
        if self.stats.stolen.is_role(role) {
            if let Some(stealer) = self.stats.stealer {
                if let Err(e) = self.rob(actor, stealer, effects) {
                    return Err(e);
                }
            }
        }
        self.role_action(actor, role, effects)
    }

    /// The robbed player at `actor` hands all its gold to the thief at
    /// `stealer`; when the thief's purse would overflow, the game halts.
    fn rob(&mut self, actor: PlayerIndex, stealer: PlayerIndex, effects: &mut Vec<Effect>) -> (r: Result<(), GameError>)
        requires
            old(self).between_roles(),
            actor.spec_value() < old(self).num_players,
            stealer.spec_value() < old(self).num_players,
        ensures
            final(self).deck == old(self).deck,
            final(self).stats == old(self).stats,
            final(self).turn == old(self).turn,
            final(self).next_role == old(self).next_role,
            Game::roles_kept(*old(self), *final(self)),
            appended(old(effects)@, final(effects)@),
            r is Ok ==> final(self).between_roles() && Game::same_roles(*old(self), *final(self)),
            r is Err ==> final(self).wf_body() && final(self).phase is Halted && final(self).next_role == old(self).next_role,
            ({
                let a = actor.spec_value() as int;
                let t = stealer.spec_value() as int;
                let g = old(self).players@[a]@.gold;
                &&& r is Err <==> old(self).players@[t]@.gold + g > u32::MAX
                &&& r is Err ==> r == Err::<(), GameError>(GameError::GoldOverflow)
                &&& r is Ok ==> final(self).players@[a]@ == (PlayerState { gold: 0, ..old(self).players@[a]@ })
                &&& r is Ok && t != a ==> final(self).players@[t]@ == (PlayerState {
                    gold: (old(self).players@[t]@.gold + g) as u32,
                    ..old(self).players@[t]@
                })
                &&& r is Ok ==> forall|i: int| 0 <= i < old(self).players@.len() && i != a && i != t
                    ==> #[trigger] final(self).players@[i] == old(self).players@[i]
                &&& r is Ok ==> forall|o: int| 0 <= o < old(self).observes@.len() ==> fact_recorded(
                    old(self).observes@[o],
                    #[trigger] final(self).observes@[o],
                    RoundFact::Stolen(actor),
                    o,
                    old(self).num_players as int,
                )
            }),
    {
        let amount = self.players.get(actor).gold();
        if self.players.get(stealer).gold() > u32::MAX - amount {
            self.phase = Phase::Halted;
            return Err(GameError::GoldOverflow);
        }
        let ghost s0 = *self;
        self.players.get_mut(stealer).add_gold(amount);
        self.players.get_mut(actor).set_gold(0);
        proof {
            Game::lemma_roles_kept(s0, *self);
            lemma_players_cards_same(self.players@, s0.players@);
        }
        effects.push(Effect::StealGold { from: actor, to: stealer, round: self.stats.round, amount });
        self.notify_all(RoundFact::Stolen(actor), effects);
        Ok(())
    }

    /// The same table, order and roles: only purses, hands, cities, piles
    /// and observations may differ.
    pub(crate) open spec fn same_roles(a: Game, b: Game) -> bool {
        &&& b.num_players == a.num_players
        &&& b.players@.len() == a.players@.len()
        &&& forall|i: int| 0 <= i < a.players@.len() ==> {
            &&& (#[trigger] b.players@[i])@.role == a.players@[i]@.role
            &&& b.players@[i]@.index == a.players@[i]@.index
        }
        &&& b.next_role == a.next_role
        &&& b.turn == a.turn
        &&& b.stats == a.stats
        &&& b.phase == a.phase
        &&& b.crown == a.crown
    }

    /// Every player holds the role it held.
    pub(crate) open spec fn roles_kept(a: Game, b: Game) -> bool {
        &&& b.players@.len() == a.players@.len()
        &&& forall|i: int| 0 <= i < a.players@.len() ==> (#[trigger] b.players@[i])@.role == a.players@[i]@.role
    }

    /// What the role of `actor` does at the start of its turn: the
    /// assassin, thief, magician and warlord are asked for their target,
    /// the merchant earns one gold, the architect draws two cards; then
    /// the player is asked for an operation.
    fn role_action(&mut self, actor: PlayerIndex, role: Role, effects: &mut Vec<Effect>) -> (r: Result<Option<Request>, GameError>)
        requires
            old(self).between_roles(),
            old(self).acting(actor),
            old(self).players@[actor.spec_value() as int]@.role == Some(role),
            turn_fresh(old(self).turn),
            role == Role::Thief ==> old(self).stats.stealer == Some(actor),
        ensures
            Game::roles_kept(*old(self), *final(self)),
            appended(old(effects)@, final(effects)@),
            final(self).next_role == old(self).next_role,
            r matches Ok(Some(_)) ==> final(self).wf_body(),
            r matches Ok(None) ==> final(self).between_roles(),
            r is Err ==> final(self).wf_body() && final(self).phase is Halted,
            !(r matches Ok(None)),
            r is Err <==> (role == Role::Merchant && old(self).players@[actor.spec_value() as int]@.gold == u32::MAX),
            r is Err ==> r == Err::<Option<Request>, GameError>(GameError::GoldOverflow),
            r is Ok ==> role_asked(*final(self), actor, role, r),
            final(self).stats == old(self).stats,
            final(self).turn == old(self).turn,
            ({
                let a = actor.spec_value() as int;
                let p = old(self).players@[a]@;
                let q = final(self).players@[a]@;
                &&& r is Ok && role == Role::Merchant ==> q == (PlayerState { gold: (p.gold + 1) as u32, ..p })
                &&& role == Role::Architect ==> q == (PlayerState { cards: q.cards, ..p }) && q.cards.len() == p.cards.len()
                    + drawn_count(2, old(self).deck.spec_count())
                &&& r is Ok ==> final(self).players@ == old(self).players@.update(a, final(self).players@[a])
                &&& role != Role::Merchant && role != Role::Architect ==> final(self).players@ == old(self).players@
            }),
    {
        match role {
            Role::Assassin => {
                let choices = self.kill_choices();
                effects.push(Effect::KillReq { actor, obs: self.observes.get(actor).clone(), choices });
                self.phase = Phase::Kill { actor };
                Ok(Some(Request::KillTarget { actor, choices }))
            },
            Role::Thief => {
                let choices = self.steal_choices();
                effects.push(Effect::StealReq { actor, obs: self.observes.get(actor).clone(), choices });
                self.phase = Phase::Steal { actor };
                Ok(Some(Request::StealTarget { actor, choices }))
            },
            Role::Magician => {
                effects.push(Effect::MagicReq { actor, obs: self.observes.get(actor).clone() });
                self.phase = Phase::Magic { actor };
                Ok(Some(Request::MagicTarget { actor }))
            },
            Role::Warlord => {
                let choices = self.destroy_choices(actor);
                effects.push(Effect::DestroyReq { actor, obs: self.observes.get(actor).clone(), choices: choices.clone() });
                self.phase = Phase::Destroy { actor };
                Ok(Some(Request::DestroyTarget { actor, choices }))
            },
            Role::Merchant => self.merchant_income(actor, effects),
            Role::Architect => Ok(Some(self.architect_draw(actor, effects))),
            _ => Ok(Some(self.request_oper(actor, effects))),
        }
    }

    /// The merchant earns one gold, then is asked for an operation; when
    /// its purse would overflow, the game halts.
    fn merchant_income(&mut self, actor: PlayerIndex, effects: &mut Vec<Effect>) -> (r: Result<Option<Request>, GameError>)
        requires
            old(self).between_roles(),
            old(self).acting(actor),
            turn_fresh(old(self).turn),
        ensures
            Game::roles_kept(*old(self), *final(self)),
            appended(old(effects)@, final(effects)@),
            final(self).next_role == old(self).next_role,
            r matches Ok(Some(_)) ==> final(self).wf_body(),
            !(r matches Ok(None)),
            r is Err ==> final(self).wf_body() && final(self).phase is Halted,
            r is Err <==> old(self).players@[actor.spec_value() as int]@.gold == u32::MAX,
            r is Err ==> r == Err::<Option<Request>, GameError>(GameError::GoldOverflow),
            r is Ok ==> role_asked(*final(self), actor, Role::Merchant, r),
            r is Ok ==> final(self).players@ == old(self).players@.update(
                actor.spec_value() as int,
                final(self).players@[actor.spec_value() as int],
            ),
            r is Ok ==> final(self).players@[actor.spec_value() as int]@ == (PlayerState {
                gold: (old(self).players@[actor.spec_value() as int]@.gold + 1) as u32,
                ..old(self).players@[actor.spec_value() as int]@
            }),
            final(self).stats == old(self).stats,
            final(self).turn == old(self).turn,
    {
        effects.push(Effect::Merchant { actor, round: self.stats.round });
        if self.players.get(actor).gold() == u32::MAX {
            self.phase = Phase::Halted;
            return Err(GameError::GoldOverflow);
        }
        let ghost s0 = *self;
        self.players.get_mut(actor).add_gold(1);
        proof {
            assert(self.players@ =~= s0.players@.update(actor.spec_value() as int, self.players@[actor.spec_value() as int]));
            Game::lemma_roles_kept(s0, *self);
            lemma_players_cards_same(self.players@, s0.players@);
        }
        self.refresh_all(effects);
        Ok(Some(self.request_oper(actor, effects)))
    }

    /// The architect draws two cards, then is asked for an operation.
    fn architect_draw(&mut self, actor: PlayerIndex, effects: &mut Vec<Effect>) -> (r: Request)
        requires
            old(self).between_roles(),
            old(self).acting(actor),
            turn_fresh(old(self).turn),
        ensures
            Game::roles_kept(*old(self), *final(self)),
            appended(old(effects)@, final(effects)@),
            final(self).next_role == old(self).next_role,
            final(self).wf_body(),
            role_asked(*final(self), actor, Role::Architect, Ok(Some(r))),
            final(self).players@ == old(self).players@.update(
                actor.spec_value() as int,
                final(self).players@[actor.spec_value() as int],
            ),
            final(self).players@[actor.spec_value() as int]@ == (PlayerState {
                cards: final(self).players@[actor.spec_value() as int]@.cards,
                ..old(self).players@[actor.spec_value() as int]@
            }),
            final(self).players@[actor.spec_value() as int]@.cards.len() == old(self).players@[actor.spec_value()
                as int]@.cards.len() + drawn_count(2, old(self).deck.spec_count()),
            final(self).stats == old(self).stats,
            final(self).turn == old(self).turn,
    {
        let ghost s0 = *self;
        let c0 = self.deck.take();
        let c1 = self.deck.take();
        self.flush_shuffles(effects);
        effects.push(Effect::ArchitectDraw2Cards { actor, round: self.stats.round, c0, c1 });
        let ghost s1 = *self;
        self.players.get_mut(actor).add_option_card(c0);
        self.players.get_mut(actor).add_option_card(c1);
        proof {
            Game::lemma_roles_kept(s0, *self);
            crate::game::lemma_players_cards_update(s1.players@, actor.spec_value() as int, self.players@[actor.spec_value() as int]);
            assert(self.players@ =~= s1.players@.update(actor.spec_value() as int, self.players@[actor.spec_value() as int]));
        }
        self.refresh_all(effects);
        self.request_oper(actor, effects)
    }

    /// Refreshes every observation, keeping the rules on the state.
    pub(crate) fn refresh_all(&mut self, effects: &mut Vec<Effect>)
        requires
            old(self).between_roles(),
        ensures
            Game::all_refreshed(*old(self), *final(self)),
            Game::roles_kept(*old(self), *final(self)),
            appended(old(effects)@, final(effects)@),
            final(self).between_roles(),
            *final(self) == (Game { observes: final(self).observes, ..*old(self) }),
    {
        let ghost s0 = *self;
        self.update_all_obs(effects);
        proof {
            Game::lemma_obs_refresh(s0, *self);
        }
    }

    /// Draws recorded shuffles out of the deck as history records.
    pub(crate) fn flush_shuffles(&mut self, effects: &mut Vec<Effect>)
        ensures
            appended(old(effects)@, final(effects)@),
            *final(self) == (Game { deck: final(self).deck, ..*old(self) }),
            final(self).deck.spec_deck() == old(self).deck.spec_deck(),
            final(self).deck.spec_drop() == old(self).deck.spec_drop(),
            final(self).deck.spec_shuffles() == Seq::<Seq<Card>>::empty(),
            final(effects)@.len() == old(effects)@.len() + old(self).deck.spec_shuffles().len(),
            forall|k: int| 0 <= k < old(self).deck.spec_shuffles().len() ==> {
                &&& (#[trigger] final(effects)@[old(effects)@.len() + k]) is ShuffleDeck
                &&& final(effects)@[old(effects)@.len() + k]->ShuffleDeck_deck@ == old(self).deck.spec_shuffles()[k]
            },
    {
        let shuffles = self.deck.take_shuffles();
        let ghost orders = old(self).deck.spec_shuffles();
        let mut k: usize = 0;
        while k < shuffles.len()
            invariant
                appended(old(effects)@, effects@),
                k <= shuffles@.len(),
                shuffles@.map_values(|v: Vec<Card>| v@) == orders,
                effects@.len() == old(effects)@.len() + k,
                forall|j: int| 0 <= j < k ==> {
                    &&& (#[trigger] effects@[old(effects)@.len() + j]) is ShuffleDeck
                    &&& effects@[old(effects)@.len() + j]->ShuffleDeck_deck@ == orders[j]
                },
            decreases shuffles.len() - k,
        {
            effects.push(Effect::ShuffleDeck { deck: crate::deck::copy_cards(&shuffles[k]) });
            proof {
                assert(orders[k as int] == shuffles@[k as int]@);
            }
            k = k + 1;
        }
    }

    /// Records a round fact in every observation and shows each its update.
    pub(crate) fn notify_all(&mut self, fact: RoundFact, effects: &mut Vec<Effect>)
        requires
            old(self).inv_table(),
            !(old(self).phase is Created),
            match fact {
                RoundFact::Crown(p) => p.spec_value() < old(self).num_players,
                RoundFact::Killed(p) => p.spec_value() < old(self).num_players,
                RoundFact::Stolen(p) => p.spec_value() < old(self).num_players,
                _ => true,
            },
        ensures
            Game::roles_kept(*old(self), *final(self)),
            appended(old(effects)@, final(effects)@),
            Game::obs_roles_same(old(self).observes@, final(self).observes@),
            *final(self) == (Game { observes: final(self).observes, ..*old(self) }),
            forall|o: int| 0 <= o < old(self).observes@.len() ==> fact_recorded(
                old(self).observes@[o],
                #[trigger] final(self).observes@[o],
                fact,
                o,
                old(self).num_players as int,
            ),
    {
        let n = self.num_players;
        let mut o: usize = 0;
        while o < n
            invariant
                appended(old(effects)@, effects@),
                o <= n,
                n == self.num_players,
                n <= 6,
                *self == (Game { observes: self.observes, ..*old(self) }),
                old(self).inv_table(),
                !(old(self).phase is Created),
                match fact {
                    RoundFact::Crown(p) => p.spec_value() < n,
                    RoundFact::Killed(p) => p.spec_value() < n,
                    RoundFact::Stolen(p) => p.spec_value() < n,
                    _ => true,
                },
                Game::obs_roles_same(old(self).observes@, self.observes@),
                forall|q: int| 0 <= q < n ==> if q < o {
                    fact_recorded(old(self).observes@[q], #[trigger] self.observes@[q], fact, q, n as int)
                } else {
                    self.observes@[q] == old(self).observes@[q]
                },
            decreases n - o,
        {
            let observer = PlayerIndex::from_usize(o);
            let obs = self.observes.get_mut(observer);
            match fact {
                RoundFact::Crown(p) => obs.set_crown(PlayerOffset::from_index(p, observer, n)),
                RoundFact::Killed(p) => obs.set_killed(PlayerOffset::from_index(p, observer, n)),
                RoundFact::Stolen(p) => obs.set_stolen(PlayerOffset::from_index(p, observer, n)),
                RoundFact::KilledRole(r) => obs.set_killed_role(r),
                RoundFact::StolenRole(r) => obs.set_stolen_role(r),
            }
            effects.push(Effect::ObsChanged { observer, obs: self.observes.get(observer).clone() });
            o = o + 1;
        }
    }

    /// The roles the assassin may name: all but the roles put aside face
    /// up and the assassin.
    pub(crate) fn kill_choices(&self) -> (r: RoleSet)
        ensures
            r@ == kill_targets(self.stats.pub_drop_roles@),
    {
        RoleSet::universal().difference(self.stats.pub_drop_roles.with(Role::Assassin))
    }

    /// The roles the thief may name: all but the roles put aside face up,
    /// the assassin, the killed role and the thief.
    pub(crate) fn steal_choices(&self) -> (r: RoleSet)
        ensures
            r@ == steal_targets(self.stats.pub_drop_roles@, self.stats.killed.spec_role()),
    {
        let banned = self.stats.pub_drop_roles.with(Role::Assassin).with_option(self.stats.killed).with(Role::Thief);
        let r = RoleSet::universal().difference(banned);
        proof {
            assert(r@ =~= steal_targets(self.stats.pub_drop_roles@, self.stats.killed.spec_role()));
        }
        r
    }

    /// Whether the warlord at `actor` may destroy target `t`: a building of
    /// another player that can be destroyed for a fee within its purse.
    pub(crate) open spec fn destroy_allowed(self, actor: PlayerIndex, t: DestroyTarget) -> bool {
        let n = self.num_players as int;
        let off = t.player_offset.spec_value() as int;
        let j = spec_seat(off, actor.spec_value() as int, n);
        &&& 0 < off < n
        &&& self.players@[j]@.buildings.contains(t.card)
        &&& destroy_fee(self.players@[j]@.role, self.players@[j]@.buildings, t.card) matches Some(f)
        &&& f <= self.players@[actor.spec_value() as int]@.gold
    }

    /// The buildings the warlord at `actor` may destroy, player by player
    /// from seat 0, each city in order.
    #[verifier::rlimit(40)]
    pub(crate) fn destroy_choices(&self, actor: PlayerIndex) -> (r: Vec<DestroyTarget>)
        requires
            self.inv_table(),
            actor.spec_value() < self.num_players,
        ensures
            forall|k: int| 0 <= k < r@.len() ==> self.destroy_allowed(actor, #[trigger] r@[k]),
            forall|t: DestroyTarget| self.destroy_allowed(actor, t) ==> #[trigger] r@.contains(t),
    {
        let n = self.num_players;
        let gold = self.players.get(actor).gold();
        let mut choices: Vec<DestroyTarget> = Vec::new();
        let mut i: usize = 0;
        while i < n
            invariant
                i <= n,
                n == self.num_players,
                self.inv_table(),
                actor.spec_value() < n,
                gold == self.players@[actor.spec_value() as int]@.gold,
                forall|k: int| 0 <= k < choices@.len() ==> self.destroy_allowed(actor, #[trigger] choices@[k]),
                forall|t: DestroyTarget| self.destroy_allowed(actor, t) && spec_seat(t.player_offset.spec_value() as int, actor.spec_value() as int, n as int) < i
                    ==> #[trigger] choices@.contains(t),
            decreases n - i,
        {
            let idx = PlayerIndex::from_usize(i);
            if i != actor.value() {
                let q = self.players.get(idx);
                let buildings = q.buildings();
                let offset = PlayerOffset::from_index(idx, actor, n);
                proof {
                    lemma_offset_round_trip(i as int, actor.spec_value() as int, n as int);
                }
                let mut m: usize = 0;
                while m < buildings.len()
                    invariant
                        m <= buildings@.len(),
                        buildings@ == q@.buildings,
                        q == self.players@[i as int],
                        i < n,
                        i != actor.spec_value(),
                        n == self.num_players,
                        self.inv_table(),
                        actor.spec_value() < n,
                        offset.spec_value() == spec_offset(i as int, actor.spec_value() as int, n as int),
                        0 < offset.spec_value() < n,
                        spec_seat(offset.spec_value() as int, actor.spec_value() as int, n as int) == i,
                        gold == self.players@[actor.spec_value() as int]@.gold,
                        forall|k: int| 0 <= k < choices@.len() ==> self.destroy_allowed(actor, #[trigger] choices@[k]),
                        forall|t: DestroyTarget| self.destroy_allowed(actor, t) && (spec_seat(t.player_offset.spec_value() as int, actor.spec_value() as int, n as int) < i
                            || (spec_seat(t.player_offset.spec_value() as int, actor.spec_value() as int, n as int) == i && exists|mm: int| 0 <= mm < m && buildings@[mm] == t.card))
                            ==> #[trigger] choices@.contains(t),
                    decreases buildings@.len() - m,
                {
                    let b = buildings[m];
                    let fee = q.building_destroy_fee(b);
                    let target = DestroyTarget { player_offset: offset, card: b };
                    let ghost before = choices@;
                    match fee {
                        Some(f) => {
                            if f <= gold {
                                proof {
                                    assert(q@.buildings.contains(b)) by {
                                        assert(q@.buildings[m as int] == b);
                                    }
                                }
                                choices.push(target);
                                proof {
                                    assert(choices@[before.len() as int] == target);
                                    assert forall|t: DestroyTarget| before.contains(t) implies #[trigger] choices@.contains(t) by {
                                        let k = choose|k: int| 0 <= k < before.len() && before[k] == t;
                                        assert(choices@[k] == t);
                                    }
                                }
                            }
                        },
                        None => {},
                    }
                    proof {
                        assert forall|t: DestroyTarget| self.destroy_allowed(actor, t) && (spec_seat(t.player_offset.spec_value() as int, actor.spec_value() as int, n as int) < i
                            || (spec_seat(t.player_offset.spec_value() as int, actor.spec_value() as int, n as int) == i && exists|mm: int| 0 <= mm < m + 1 && buildings@[mm] == t.card))
                            implies #[trigger] choices@.contains(t) by {
                            if spec_seat(t.player_offset.spec_value() as int, actor.spec_value() as int, n as int) == i && t.card == b {
                                lemma_offset_round_trip(i as int, actor.spec_value() as int, n as int);
                                lemma_seat_round_trip(t.player_offset.spec_value() as int, actor.spec_value() as int, n as int);
                                t.player_offset.lemma_eq(offset);
                                assert(t == target);
                                assert(choices@[before.len() as int] == target);
                            } else if spec_seat(t.player_offset.spec_value() as int, actor.spec_value() as int, n as int) == i {
                                let mm = choose|mm: int| 0 <= mm < m + 1 && buildings@[mm] == t.card;
                                assert(mm < m);
                            }
                        }
                    }
                    m = m + 1;
                }
                proof {
                    assert forall|t: DestroyTarget| self.destroy_allowed(actor, t) && spec_seat(t.player_offset.spec_value() as int, actor.spec_value() as int, n as int) < i + 1
                        implies #[trigger] choices@.contains(t) by {
                        if spec_seat(t.player_offset.spec_value() as int, actor.spec_value() as int, n as int) == i {
                            let mm = choose|mm: int| 0 <= mm < buildings@.len() && buildings@[mm] == t.card;
                        }
                    }
                }
            } else {
                proof {
                    assert forall|t: DestroyTarget| self.destroy_allowed(actor, t) && spec_seat(t.player_offset.spec_value() as int, actor.spec_value() as int, n as int) < i + 1
                        implies #[trigger] choices@.contains(t) by {
                        lemma_seat_round_trip(t.player_offset.spec_value() as int, actor.spec_value() as int, n as int);
                        lemma_offset_round_trip(actor.spec_value() as int, actor.spec_value() as int, n as int);
                    }
                }
            }
            i = i + 1;
        }
        proof {
            assert forall|t: DestroyTarget| self.destroy_allowed(actor, t) implies #[trigger] choices@.contains(t) by {
                lemma_seat_round_trip(t.player_offset.spec_value() as int, actor.spec_value() as int, n as int);
            }
        }
        choices
    }

    /// Closes the round: the crown moves to where the king put it, every
    /// role is taken back, and the game ends if someone completed eight
    /// buildings; else the next round begins.
    #[verifier::rlimit(40)]
    fn end_round(&mut self, effects: &mut Vec<Effect>) -> (r: Result<Request, GameError>)
        requires
            old(self).between_roles(),
            old(self).next_role == 8,
        ensures
            final(self).crown == old(self).stats.crown,
            final(self).phase is ChooseRole || final(self).phase is Finished || final(self).phase is Halted,
            appended(old(effects)@, final(effects)@),
            final(self).wf_body(),
            r is Err ==> final(self).phase is Halted,
            r is Err <==> (!old(self).stats.has_first_8_buildings && old(self).stats.round == u32::MAX),
            r is Ok ==> final(self).request_fits(r->Ok_0),
            old(self).stats.has_first_8_buildings ==> final(self).phase is Finished,
            !old(self).stats.has_first_8_buildings && r is Ok ==> final(self).phase == (Phase::ChooseRole { pos: 0 })
                && final(self).stats.round == old(self).stats.round + 1,
    {
        let n = self.num_players;
        let ghost s0 = *self;
        let mut o: usize = 0;
        while o < n
            invariant
                appended(old(effects)@, effects@),
                o <= n,
                n == self.num_players,
                s0.between_roles(),
                s0.next_role == 8,
                *self == (Game { observes: self.observes, ..s0 }),
                self.observes@.len() == n,
                forall|q: int| 0 <= q < n ==> {
                    &&& (#[trigger] self.observes@[q]).num_players == s0.observes@[q].num_players
                    &&& self.observes@[q].villain_infos@.len() == s0.observes@[q].villain_infos@.len()
                    &&& q < o ==> {
                        &&& self.observes@[q].actor_info.common.role is None
                        &&& forall|k: int| 0 <= k < self.observes@[q].villain_infos@.len() ==> (#[trigger] self.observes@[q].villain_infos@[k]).common.role is None
                    }
                    &&& q >= o ==> self.observes@[q] == s0.observes@[q]
                },
            decreases n - o,
        {
            let idx = PlayerIndex::from_usize(o);
            proof {
                assert(s0.observes@[o as int].roles_known());
            }
            self.observes.get_mut(idx).reset();
            o = o + 1;
        }
        let ghost s1 = *self;
        let mut i: usize = 0;
        while i < n
            invariant
                appended(old(effects)@, effects@),
                i <= n,
                n == self.num_players,
                s0.between_roles(),
                n == s0.num_players,
                s1 == (Game { observes: s1.observes, ..s0 }),
                *self == (Game { players: self.players, ..s1 }),
                self.players@.len() == n,
                forall|j: int| 0 <= j < n ==> #[trigger] self.players@[j]@ == if j < i {
                    crate::player::PlayerState { role: None, ..s0.players@[j]@ }
                } else {
                    s0.players@[j]@
                },
            decreases n - i,
        {
            let idx = PlayerIndex::from_usize(i);
            proof {
                assert(s0.players@[i as int]@.role is Some);
                assert(self.players@[i as int]@ == s0.players@[i as int]@);
            }
            self.players.get_mut(idx).unset_role();
            i = i + 1;
        }
        self.crown = self.stats.crown;
        proof {
            Game::lemma_first_8_kept(s0, *self);
            lemma_players_cards_same(self.players@, s0.players@);
            assert(self.inv_table());
            assert(self.inv_no_roles());
        }
        if self.stats.has_first_8_buildings {
            self.phase = Phase::Finished;
            effects.push(Effect::FinishGame);
            let score = camp_scores(&self.players);
            proof {
                assert(score@[0] == score[0]);
            }
            return Ok(Request::Finished { score });
        }
        match self.begin_round(effects) {
            Ok(req) => Ok(req),
            Err(e) => {
                self.phase = Phase::Halted;
                Err(e)
            },
        }
    }
}

} // verus!
