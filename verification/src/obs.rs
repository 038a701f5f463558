//! What one player observes of the game.

pub mod building_extra_score;
pub mod building_info;
pub mod common_player_info;
pub mod hero_info;
pub mod round_info;
pub mod villain_info;

use vstd::prelude::*;

use crate::deck::Deck;
use crate::domain::player_offset::spec_seat;
use crate::domain::{Camp, Card, PlayerIndex, PlayerOffset, PlayerOffsetSet, Role, RoleSet};
use crate::player::Player;
use crate::player_indexed_vec::PlayerIndexedVec;

pub use hero_info::HeroInfo;
pub use round_info::RoundInfo;
pub use villain_info::VillainInfo;

verus! {

/// Total score of the players of `camp` among `s`.
pub open spec fn camp_total(s: Seq<Player>, camp: Camp) -> nat
    decreases s.len(),
{
    if s.len() == 0 {
        0
    } else {
        camp_total(s.drop_last(), camp) + if s.last()@.camp == camp {
            s.last()@.score()
        } else {
            0
        }
    }
}

/// A camp's total is the sum of its players' scores: a lone player adds its
/// buildings' points and its bonus points when it belongs to the camp and
/// nothing otherwise, and the totals of two groups of players add up.
pub proof fn lemma_camp_total(s: Seq<Player>, t: Seq<Player>, p: Player, camp: Camp)
    ensures
        camp_total(Seq::<Player>::empty(), camp) == 0,
        camp_total(seq![p], camp) == if p@.camp == camp {
            crate::player::sum_scores(p@.buildings) + crate::player::extra_score(p@.buildings, p@.first_8)
        } else {
            0
        },
        camp_total(s + t, camp) == camp_total(s, camp) + camp_total(t, camp),
    decreases t.len(),
{
    assert(seq![p].drop_last() =~= Seq::<Player>::empty());
    assert(seq![p].last() == p);
    assert(camp_total(Seq::<Player>::empty(), camp) == 0);
    assert(camp_total(seq![p], camp) == camp_total(seq![p].drop_last(), camp) + if p@.camp == camp {
        p@.score()
    } else {
        0
    });
    if t.len() > 0 {
        lemma_camp_total(s, t.drop_last(), p, camp);
        assert((s + t).drop_last() =~= s + t.drop_last());
    } else {
        assert(s + t =~= s);
    }
}

/// Every player of `s` has at most `0x100000` buildings, so that scores
/// and their sums fit in a `u32`.
pub open spec fn scores_fit(s: Seq<Player>) -> bool {
    &&& s.len() <= 256
    &&& forall|i: int| 0 <= i < s.len() ==> #[trigger] s[i]@.buildings.len() <= 0x100000
}

/// Seat of the player shown at place `k` of an observer's villains.
pub open spec fn villain_seat(observer: int, k: int, n: int) -> int {
    spec_seat(k + 1, observer, n)
}

proof fn lemma_score_bound(s: Seq<Player>, i: int)
    requires
        scores_fit(s),
        0 <= i < s.len(),
    ensures
        s[i]@.score() <= 0x900000,
{
    lemma_sum_scores_bound(s[i]@.buildings);
}

proof fn lemma_sum_scores_bound(b: Seq<Card>)
    ensures
        crate::player::sum_scores(b) <= 8 * b.len(),
    decreases b.len(),
{
    if b.len() > 0 {
        lemma_sum_scores_bound(b.drop_last());
    }
}

proof fn lemma_camp_total_bound(s: Seq<Player>, camp: Camp)
    requires
        scores_fit(s),
    ensures
        camp_total(s, camp) <= 0x900000 * s.len(),
    decreases s.len(),
{
    if s.len() > 0 {
        assert(scores_fit(s.drop_last())) by {
            assert forall|i: int| 0 <= i < s.drop_last().len() implies #[trigger] s.drop_last()[i]@.buildings.len() <= 0x100000 by {
                assert(s.drop_last()[i] == s[i]);
            }
        }
        lemma_camp_total_bound(s.drop_last(), camp);
        lemma_score_bound(s, s.len() - 1);
    }
}

/// The camps' total scores, Chu first.
pub fn camp_scores(players: &PlayerIndexedVec<Player>) -> (r: [u32; 2])
    requires
        scores_fit(players@),
    ensures
        r@ == seq![camp_total(players@, Camp::Chu) as u32, camp_total(players@, Camp::Han) as u32],
        camp_total(players@, Camp::Chu) <= u32::MAX,
        camp_total(players@, Camp::Han) <= u32::MAX,
{
    let n = players.len();
    let mut chu: u32 = 0;
    let mut han: u32 = 0;
    let mut i: usize = 0;
    while i < n
        invariant
            i <= n,
            n == players@.len(),
            scores_fit(players@),
            chu == camp_total(players@.take(i as int), Camp::Chu),
            han == camp_total(players@.take(i as int), Camp::Han),
        decreases n - i,
    {
        let p = players.get(PlayerIndex::from_usize(i));
        proof {
            assert(players@.take(i + 1).drop_last() =~= players@.take(i as int));
            assert(scores_fit(players@.take(i as int))) by {
                assert forall|j: int| 0 <= j < players@.take(i as int).len() implies #[trigger] players@.take(i as int)[j]@.buildings.len() <= 0x100000 by {
                    assert(players@.take(i as int)[j] == players@[j]);
                }
            }
            lemma_camp_total_bound(players@.take(i as int), Camp::Chu);
            lemma_camp_total_bound(players@.take(i as int), Camp::Han);
            lemma_score_bound(players@, i as int);
        }
        let s = p.score();
        if p.camp().index() == 0 {
            chu = chu + s;
        } else {
            han = han + s;
        }
        i = i + 1;
    }
    proof {
        assert(players@.take(n as int) =~= players@);
        lemma_camp_total_bound(players@, Camp::Chu);
        lemma_camp_total_bound(players@, Camp::Han);
    }
    let r = [chu, han];
    assert(r@ =~= seq![chu, han]);
    r
}

/// What one player observes: the round, itself, the other players from
/// its next seat onwards, the pile sizes and the camps' scores.
#[derive(Clone, Debug)]
pub struct Obs {
    pub num_players: usize,
    pub round_info: RoundInfo,
    pub actor_info: HeroInfo,
    pub villain_infos: Vec<VillainInfo>,
    pub deck_cnt: usize,
    pub drop_cnt: usize,
    pub total_score: [u32; 2],
}

impl Obs {
    /// A fresh observation of round `round`.
    pub fn new(
        num_players: usize,
        round: u32,
        crown: PlayerOffset,
        actor_info: HeroInfo,
        villain_infos: Vec<VillainInfo>,
        deck: &Deck,
    ) -> (r: Obs)
        ensures
            r.num_players == num_players,
            r.round_info.fresh(round, crown),
            r.actor_info == actor_info,
            r.villain_infos == villain_infos,
            r.deck_cnt == deck.spec_deck().len(),
            r.drop_cnt == deck.spec_drop().len(),
            r.total_score@ == seq![0u32, 0u32],
    {
        let r = Obs {
            num_players,
            round_info: RoundInfo::new(round, crown),
            actor_info,
            villain_infos,
            deck_cnt: deck.peek_deck().len(),
            drop_cnt: deck.peek_drop().len(),
            total_score: [0, 0],
        };
        assert(r.total_score@ =~= seq![0u32, 0u32]);
        r
    }

    /// The round number.
    pub fn round(&self) -> (r: u32)
        ensures
            r == self.round_info.round,
    {
        self.round_info.round()
    }

    pub fn set_crown(&mut self, crown: PlayerOffset)
        ensures
            *final(self) == (Obs { round_info: RoundInfo { crown, ..old(self).round_info }, ..*old(self) }),
    {
        self.round_info.set_crown(crown);
    }

    /// Records the offset of the killed player.
    pub fn set_killed(&mut self, killed: PlayerOffset)
        ensures
            final(self).round_info.killed.spec_offset().spec_value() == killed.spec_value(),
            final(self).round_info.killed.spec_role() == old(self).round_info.killed.spec_role(),
            *final(self) == (Obs { round_info: RoundInfo { killed: final(self).round_info.killed, ..old(self).round_info }, ..*old(self) }),
    {
        self.round_info.set_killed_offset(killed);
    }

    /// Records the offset of the robbed player.
    pub fn set_stolen(&mut self, stolen: PlayerOffset)
        ensures
            final(self).round_info.stolen.spec_offset().spec_value() == stolen.spec_value(),
            final(self).round_info.stolen.spec_role() == old(self).round_info.stolen.spec_role(),
            *final(self) == (Obs { round_info: RoundInfo { stolen: final(self).round_info.stolen, ..old(self).round_info }, ..*old(self) }),
    {
        self.round_info.set_stolen_offset(stolen);
    }

    pub fn set_round(&mut self, round: u32)
        ensures
            *final(self) == (Obs { round_info: RoundInfo { round, ..old(self).round_info }, ..*old(self) }),
    {
        self.round_info.set_round(round);
    }

    pub fn set_roles_public_dropped(&mut self, roles: RoleSet)
        ensures
            *final(self) == (Obs { round_info: RoundInfo { roles_public_dropped: roles, ..old(self).round_info }, ..*old(self) }),
    {
        self.round_info.set_roles_public_dropped(roles);
    }

    pub fn set_players_choose_role_before(&mut self, offsets: PlayerOffsetSet)
        ensures
            *final(self) == (Obs { round_info: RoundInfo { players_choose_role_before: offsets, ..old(self).round_info }, ..*old(self) }),
    {
        self.round_info.set_players_choose_role_before(offsets);
    }

    pub fn set_players_choose_role_after(&mut self, offsets: PlayerOffsetSet)
        ensures
            *final(self) == (Obs { round_info: RoundInfo { players_choose_role_after: offsets, ..old(self).round_info }, ..*old(self) }),
    {
        self.round_info.set_players_choose_role_after(offsets);
    }

    pub fn set_roles_chosen_before(&mut self, roles: RoleSet)
        ensures
            *final(self) == (Obs { round_info: RoundInfo { roles_chosen_before: roles, ..old(self).round_info }, ..*old(self) }),
    {
        self.round_info.set_roles_chosen_before(roles);
    }

    pub fn set_roles_chosen_after(&mut self, roles: RoleSet)
        ensures
            *final(self) == (Obs { round_info: RoundInfo { roles_chosen_after: Some(roles), ..old(self).round_info }, ..*old(self) }),
    {
        self.round_info.set_roles_chosen_after(roles);
    }

    /// Reveals the role of the player at `offset`; it must be another
    /// player whose role is not revealed yet.
    pub fn set_villain_role(&mut self, offset: PlayerOffset, role: Role)
        requires
            1 <= offset.spec_value() <= old(self).villain_infos@.len(),
            old(self).villain_infos@[offset.spec_value() - 1].common.role is None,
        ensures
            final(self).villain_infos@.len() == old(self).villain_infos@.len(),
            final(self).villain_infos@[offset.spec_value() - 1].common.role == Some(role),
            final(self).villain_infos@[offset.spec_value() - 1].common.camp == old(self).villain_infos@[offset.spec_value() - 1].common.camp,
            final(self).villain_infos@[offset.spec_value() - 1].shows_same(old(self).villain_infos@[offset.spec_value() - 1]),
            forall|k: int| 0 <= k < old(self).villain_infos@.len() && k != offset.spec_value() - 1
                ==> #[trigger] final(self).villain_infos@[k] == old(self).villain_infos@[k],
            *final(self) == (Obs { villain_infos: final(self).villain_infos, ..*old(self) }),
    {
        let k = offset.value() - 1;
        self.villain_infos[k].set_role(role);
    }

    /// Records the killed role.
    pub fn set_killed_role(&mut self, role: Role)
        ensures
            final(self).round_info.killed.spec_role().spec_role() == Some(role),
            final(self).round_info.killed.spec_offset() == old(self).round_info.killed.spec_offset(),
            *final(self) == (Obs { round_info: RoundInfo { killed: final(self).round_info.killed, ..old(self).round_info }, ..*old(self) }),
    {
        self.round_info.set_killed_role(role);
    }

    /// Records the robbed role.
    pub fn set_stolen_role(&mut self, role: Role)
        ensures
            final(self).round_info.stolen.spec_role().spec_role() == Some(role),
            final(self).round_info.stolen.spec_offset() == old(self).round_info.stolen.spec_offset(),
            *final(self) == (Obs { round_info: RoundInfo { stolen: final(self).round_info.stolen, ..old(self).round_info }, ..*old(self) }),
    {
        self.round_info.set_stolen_role(role);
    }

    /// Every role is known: the observer's own and every other player's.
    pub open spec fn roles_known(self) -> bool {
        &&& self.actor_info.common.role is Some
        &&& forall|k: int| 0 <= k < self.villain_infos@.len() ==> (#[trigger] self.villain_infos@[k]).common.role is Some
    }

    /// Forgets the round: hides every role and clears the round facts.
    /// Every role must be known.
    pub fn reset(&mut self)
        requires
            old(self).roles_known(),
        ensures
            final(self).round_info.fresh(old(self).round_info.round, old(self).round_info.crown),
            final(self).actor_info.common.role is None,
            final(self).actor_info.common.camp == old(self).actor_info.common.camp,
            final(self).actor_info.shows_same(old(self).actor_info),
            final(self).villain_infos@.len() == old(self).villain_infos@.len(),
            forall|k: int| 0 <= k < old(self).villain_infos@.len() ==> {
                &&& (#[trigger] final(self).villain_infos@[k]).common.role is None
                &&& final(self).villain_infos@[k].common.camp == old(self).villain_infos@[k].common.camp
                &&& final(self).villain_infos@[k].shows_same(old(self).villain_infos@[k])
            },
            final(self).num_players == old(self).num_players,
            final(self).deck_cnt == old(self).deck_cnt,
            final(self).drop_cnt == old(self).drop_cnt,
            final(self).total_score == old(self).total_score,
    {
        self.actor_info.unset_role();
        let ghost snap = *self;
        let mut k: usize = 0;
        while k < self.villain_infos.len()
            invariant
                k <= self.villain_infos@.len(),
                *self == (Obs { villain_infos: self.villain_infos, ..snap }),
                self.villain_infos@.len() == old(self).villain_infos@.len(),
                forall|j: int| 0 <= j < k ==> {
                    &&& (#[trigger] self.villain_infos@[j]).common.role is None
                    &&& self.villain_infos@[j].common.camp == old(self).villain_infos@[j].common.camp
                    &&& self.villain_infos@[j].shows_same(old(self).villain_infos@[j])
                },
                forall|j: int| k <= j < self.villain_infos@.len() ==> #[trigger] self.villain_infos@[j] == old(self).villain_infos@[j],
                old(self).roles_known(),
            decreases self.villain_infos@.len() - k,
        {
            self.villain_infos[k].unset_role();
            k = k + 1;
        }
        self.round_info.reset();
    }

    /// Records the observer's own role; it must not be recorded yet.
    pub fn set_actor_role(&mut self, role: Role)
        requires
            old(self).actor_info.common.role is None,
        ensures
            final(self).actor_info.common.role == Some(role),
            final(self).actor_info.common.camp == old(self).actor_info.common.camp,
            final(self).actor_info.shows_same(old(self).actor_info),
            *final(self) == (Obs { actor_info: final(self).actor_info, ..*old(self) }),
    {
        self.actor_info.set_role(role);
    }

    /// Number of cards in the observer's hand.
    pub fn actor_num_cards(&self) -> (r: usize)
        ensures
            r == self.actor_info.cards@.len(),
    {
        self.actor_info.num_cards()
    }

    /// Number of players at the table.
    pub fn num_players(&self) -> (r: usize)
        ensures
            r == self.num_players,
    {
        self.num_players
    }

    /// The card at place `index` of the observer's hand.
    pub fn hero_card_at(&self, index: usize) -> (r: Card)
        requires
            index < self.actor_info.cards@.len(),
        ensures
            r == self.actor_info.cards@[index as int],
    {
        self.actor_info.card_at(index)
    }

    /// The observer's camp.
    pub fn hero_camp(&self) -> (r: Camp)
        ensures
            r == self.actor_info.common.camp,
    {
        self.actor_info.camp()
    }

    /// `self` is `old` refreshed for the observer at seat `actor` from the
    /// piles of `deck` and the players `players`: pile sizes, own view,
    /// views of the others from the next seat on, and the camps' totals are
    /// theirs; camps, roles and round facts are those of `old`.
    pub open spec fn refreshed_from(self, old: Obs, deck: Deck, players: Seq<Player>, actor: int) -> bool {
        &&& self.num_players == old.num_players
        &&& self.round_info == old.round_info
        &&& self.deck_cnt == deck.spec_deck().len()
        &&& self.drop_cnt == deck.spec_drop().len()
        &&& self.actor_info.shows(players[actor]@)
        &&& self.actor_info.common.camp == old.actor_info.common.camp
        &&& self.actor_info.common.role == old.actor_info.common.role
        &&& self.villain_infos@.len() == old.villain_infos@.len()
        &&& forall|k: int| 0 <= k < old.villain_infos@.len() ==> {
            &&& (#[trigger] self.villain_infos@[k]).shows(players[villain_seat(actor, k, players.len() as int)]@)
            &&& self.villain_infos@[k].common.camp == old.villain_infos@[k].common.camp
            &&& self.villain_infos@[k].common.role == old.villain_infos@[k].common.role
        }
        &&& self.total_score@ == seq![camp_total(players, Camp::Chu) as u32, camp_total(players, Camp::Han) as u32]
    }

    /// Refreshes the observation of seat `actor` from the piles and the
    /// players: the pile sizes, the observer's own view, the views of the
    /// other players from the next seat onwards, and the camps' totals.
    /// Camps, roles and round facts stay as they were.
    pub fn update_infos(&mut self, deck: &Deck, players: &PlayerIndexedVec<Player>, actor: PlayerIndex)
        requires
            actor.spec_value() < players@.len(),
            old(self).villain_infos@.len() < players@.len(),
            scores_fit(players@),
        ensures
            final(self).num_players == old(self).num_players,
            final(self).round_info == old(self).round_info,
            final(self).deck_cnt == deck.spec_deck().len(),
            final(self).drop_cnt == deck.spec_drop().len(),
            final(self).actor_info.shows(players@[actor.spec_value() as int]@),
            final(self).actor_info.common.camp == old(self).actor_info.common.camp,
            final(self).actor_info.common.role == old(self).actor_info.common.role,
            final(self).villain_infos@.len() == old(self).villain_infos@.len(),
            forall|k: int| 0 <= k < old(self).villain_infos@.len() ==> {
                &&& (#[trigger] final(self).villain_infos@[k]).shows(players@[villain_seat(actor.spec_value() as int, k, players@.len() as int)]@)
                &&& final(self).villain_infos@[k].common.camp == old(self).villain_infos@[k].common.camp
                &&& final(self).villain_infos@[k].common.role == old(self).villain_infos@[k].common.role
            },
            final(self).total_score@ == seq![camp_total(players@, Camp::Chu) as u32, camp_total(players@, Camp::Han) as u32],
            final(self).refreshed_from(*old(self), *deck, players@, actor.spec_value() as int),
    {
        self.deck_cnt = deck.peek_deck().len();
        self.drop_cnt = deck.peek_drop().len();
        let n = players.len();
        self.actor_info.update_info(players.get(actor));
        let ghost snap = *self;
        let mut k: usize = 0;
        while k < self.villain_infos.len()
            invariant
                k <= self.villain_infos@.len(),
                *self == (Obs { villain_infos: self.villain_infos, ..snap }),
                n <= 256,
                n == players@.len(),
                actor.spec_value() < n,
                self.villain_infos@.len() == old(self).villain_infos@.len(),
                self.villain_infos@.len() < n,
                forall|j: int| 0 <= j < k ==> {
                    &&& (#[trigger] self.villain_infos@[j]).shows(players@[villain_seat(actor.spec_value() as int, j, n as int)]@)
                    &&& self.villain_infos@[j].common.camp == old(self).villain_infos@[j].common.camp
                    &&& self.villain_infos@[j].common.role == old(self).villain_infos@[j].common.role
                },
                forall|j: int| k <= j < self.villain_infos@.len() ==> #[trigger] self.villain_infos@[j] == old(self).villain_infos@[j],
            decreases self.villain_infos@.len() - k,
        {
            let seat = if actor.value() + 1 + k < n {
                actor.value() + 1 + k
            } else {
                actor.value() + 1 + k - n
            };
            self.villain_infos[k].update_info(players.get(PlayerIndex::from_usize(seat)));
            k = k + 1;
        }
        self.total_score = camp_scores(players);
    }
}

} // verus!
