//! Setting up a game: gold, observations and the first cards.

use vstd::prelude::*;

use crate::deck::total_cards;
use crate::domain::player_offset::spec_offset;
use crate::domain::{Card, PlayerIndex, PlayerOffset};
use crate::game::{appended, records_answer, Answer, pending_pairs, players_cards, Effect, Game, GameError, Phase, Request};
use crate::obs::{HeroInfo, Obs, VillainInfo};
use crate::player::PlayerState;

verus! {

/// Taking a pair out of the offers takes two cards out of the count.
proof fn lemma_pending_pairs_update(s: Seq<Option<(Card, Card)>>, i: int, v: Option<(Card, Card)>)
    requires
        0 <= i < s.len(),
    ensures
        pending_pairs(s.update(i, v)) + (if s[i] is Some { 2int } else { 0int }) == pending_pairs(s)
            + (if v is Some { 2int } else { 0int }),
    decreases s.len(),
{
    if i < s.len() - 1 {
        lemma_pending_pairs_update(s.drop_last(), i, v);
        assert(s.update(i, v).drop_last() =~= s.drop_last().update(i, v));
    } else {
        assert(s.update(i, v).drop_last() =~= s.drop_last());
    }
}

/// No offers are pending when every entry is empty.
proof fn lemma_pending_pairs_none(s: Seq<Option<(Card, Card)>>)
    requires
        forall|i: int| 0 <= i < s.len() ==> (#[trigger] s[i]) is None,
    ensures
        pending_pairs(s) == 0,
    decreases s.len(),
{
    if s.len() > 0 {
        lemma_pending_pairs_none(s.drop_last());
    }
}

impl Game {
    /// Gives every player two gold.
    pub(super) fn init_gold(&mut self, effects: &mut Vec<Effect>)
        requires
            old(self).wf(),
            old(self).spec_phase() is Created,
        ensures
            appended(old(effects)@, final(effects)@),
            final(self).wf(),
            final(self).spec_phase() is Created,
            forall|i: int| 0 <= i < old(self).spec_n() ==> #[trigger] final(self).player(i) == (PlayerState { gold: 2, ..old(self).player(i) }),
            *final(self) == (Game { players: final(self).players, ..*old(self) }),
    {
        proof {
            old(self).unfold();
        }
        let n = self.players.len();
        let mut i: usize = 0;
        while i < n
            invariant
                appended(old(effects)@, effects@),
                i <= n,
                n == old(self).players@.len(),
                self.players@.len() == n,
                *self == (Game { players: self.players, ..*old(self) }),
                forall|j: int| 0 <= j < n ==> #[trigger] self.players@[j]@ == (PlayerState {
                    gold: if j < i { 2 } else { old(self).players@[j]@.gold },
                    ..old(self).players@[j]@
                }),
            decreases n - i,
        {
            let idx = PlayerIndex::from_usize(i);
            self.players.get_mut(idx).set_gold(2);
            effects.push(Effect::InitGold { actor: self.players.get(idx).index(), gold: self.players.get(idx).gold() });
            i = i + 1;
        }
        proof {
            self.lemma_same_cards(*old(self));
            self.unfold();
        }
    }

    /// Players whose hands and cities are unchanged hold the same cards.
    pub(super) proof fn lemma_same_cards(self, other: Game)
        requires
            self.players@.len() == other.players@.len(),
            forall|j: int| 0 <= j < self.players@.len() ==> {
                &&& (#[trigger] self.players@[j])@.cards == other.players@[j]@.cards
                &&& self.players@[j]@.buildings == other.players@[j]@.buildings
            },
        ensures
            players_cards(self.players@) == players_cards(other.players@),
    {
        crate::game::lemma_players_cards_same(self.players@, other.players@);
    }

    /// Builds each player's first observation: itself, and the others from
    /// its next seat onwards.
    #[verifier::rlimit(40)]
    pub(super) fn init_obs(&mut self)
        requires
            old(self).wf(),
            old(self).spec_phase() is Created,
        ensures
            final(self).players@ == old(self).players@,
            final(self).deck == old(self).deck,
            final(self).observes@.len() == old(self).spec_n(),
            forall|o: int| 0 <= o < old(self).spec_n() ==> {
                &&& (#[trigger] final(self).observes@[o]).villain_infos@.len() == old(self).spec_n() - 1
                &&& final(self).observes@[o].num_players == old(self).spec_n()
                &&& final(self).observes@[o].actor_info.common.role is None
                &&& forall|k: int| 0 <= k < final(self).observes@[o].villain_infos@.len() ==> (#[trigger] final(self).observes@[o].villain_infos@[k]).common.role is None
                &&& final(self).observes@[o].round_info.fresh(0, final(self).observes@[o].round_info.crown)
                &&& final(self).observes@[o].round_info.crown.spec_value() == spec_offset(old(self).crown.spec_value() as int, o, old(self).num_players as int)
            },
            *final(self) == (Game { observes: final(self).observes, ..*old(self) }),
    {
        proof {
            old(self).unfold();
        }
        let n = self.players.len();
        let mut a: usize = 0;
        while a < n
            invariant
                a <= n,
                n == self.num_players,
                old(self).wf_body(),
                old(self).phase is Created,
                *self == (Game { observes: self.observes, ..*old(self) }),
                self.observes@.len() == a,
                forall|o: int| 0 <= o < a ==> {
                    &&& (#[trigger] self.observes@[o]).villain_infos@.len() == n - 1
                    &&& self.observes@[o].num_players == n
                    &&& self.observes@[o].actor_info.common.role is None
                    &&& forall|k: int| 0 <= k < self.observes@[o].villain_infos@.len() ==> (#[trigger] self.observes@[o].villain_infos@[k]).common.role is None
                    &&& self.observes@[o].round_info.fresh(0, self.observes@[o].round_info.crown)
                    &&& self.observes@[o].round_info.crown.spec_value() == spec_offset(old(self).crown.spec_value() as int, o, n as int)
                },
            decreases n - a,
        {
            proof {
                assert(self.observes@.len() == old(self).observes@.len() + a) by {
                    assert(old(self).observes@.len() == 0);
                }
            }
            let actor = PlayerIndex::from_usize(a);
            let mut villain_infos: Vec<VillainInfo> = Vec::new();
            let mut i: usize = a + 1;
            while i < n
                invariant
                    a < i <= n,
                    n == self.num_players,
                    self.players@.len() == n,
                    villain_infos@.len() == i - a - 1,
                    forall|k: int| 0 <= k < villain_infos@.len() ==> (#[trigger] villain_infos@[k]).common.role is None,
                decreases n - i,
            {
                villain_infos.push(VillainInfo::from_player(self.players.get(PlayerIndex::from_usize(i))));
                i = i + 1;
            }
            let mut i: usize = 0;
            while i < a
                invariant
                    i <= a < n,
                    n == self.num_players,
                    self.players@.len() == n,
                    villain_infos@.len() == n - a - 1 + i,
                    forall|k: int| 0 <= k < villain_infos@.len() ==> (#[trigger] villain_infos@[k]).common.role is None,
                decreases a - i,
            {
                villain_infos.push(VillainInfo::from_player(self.players.get(PlayerIndex::from_usize(i))));
                i = i + 1;
            }
            let obs = Obs::new(
                n,
                0,
                PlayerOffset::from_index(self.crown, actor, n),
                HeroInfo::from_player(self.players.get(actor)),
                villain_infos,
                &self.deck,
            );
            self.observes.push(obs);
            a = a + 1;
        }
    }

    /// Starts the game: records the deck's shuffle and the first crown,
    /// gives each player two gold, builds the observations, and offers
    /// each player two cards, of which it will keep one.
    #[verifier::rlimit(40)]
    pub(super) fn start(&mut self, effects: &mut Vec<Effect>) -> (r: Request)
        requires
            old(self).wf(),
            old(self).spec_phase() is Created,
        ensures
            forall|o: int| 0 <= o < old(self).num_players ==> {
                &&& (#[trigger] final(self).observes@[o]).round_info.fresh(0, final(self).observes@[o].round_info.crown)
                &&& final(self).observes@[o].round_info.crown.spec_value() == spec_offset(
                    old(self).crown.spec_value() as int,
                    o,
                    old(self).num_players as int,
                )
            },
            final(self).observes@.len() == old(self).num_players,
            final(self).request_fits(r),
            appended(old(effects)@, final(effects)@),
            final(self).wf(),
            final(self).phase is InitCards,
            forall|i: int| 0 <= i < old(self).num_players ==> #[trigger] final(self).players@[i]@ == (PlayerState {
                gold: 2,
                ..old(self).players@[i]@
            }),
            r is InitCards,
            r->InitCards_choices@.len() == old(self).num_players,
            forall|i: int| 0 <= i < old(self).num_players ==> {
                let pair = (#[trigger] final(self).phase->InitCards_pending@[i])->0;
                &&& final(self).phase->InitCards_pending@[i] is Some
                &&& r->InitCards_choices@[i] == (PlayerIndex::from_usize_spec(i as usize), pair.0, pair.1)
            },
    {
        proof {
            old(self).unfold();
        }
        self.flush_shuffles(effects);
        effects.push(Effect::StartGame { init_crown: self.crown });
        self.init_gold(effects);
        proof {
            self.unfold();
            assert forall|i: int| 0 <= i < old(self).num_players implies #[trigger] self.players@[i]@ == (PlayerState {
                gold: 2,
                ..old(self).players@[i]@
            }) by {
                assert(self.player(i) == (PlayerState { gold: 2, ..old(self).player(i) }));
            }
        }
        self.init_obs();
        let n = self.players.len();
        let ghost before = *self;
        let mut pending: Vec<Option<(Card, Card)>> = Vec::new();
        let mut choices: Vec<(PlayerIndex, Card, Card)> = Vec::new();
        proof {
            assert(self.deck.spec_count() == total_cards());
            assert(self.deck.spec_deck().len() == total_cards());
        }
        let mut a: usize = 0;
        while a < n
            invariant
                appended(old(effects)@, effects@),
                a <= n,
                n == self.num_players,
                pending@.len() == a,
                self.deck.spec_deck().len() + pending_pairs(pending@) == total_cards(),
                self.deck.spec_drop().len() == 0,
                self.deck.spec_count() + pending_pairs(pending@) == total_cards(),
                pending_pairs(pending@) == 2 * a,
                choices@.len() == a,
                forall|i: int| 0 <= i < a ==> {
                    let pair = (#[trigger] pending@[i])->0;
                    &&& pending@[i] is Some
                    &&& choices@[i] == (PlayerIndex::from_usize_spec(i as usize), pair.0, pair.1)
                },
                n <= 6,
                before.observes@.len() == n,
                *self == (Game { deck: self.deck, ..before }),
            decreases n - a,
        {
            let actor = PlayerIndex::from_usize(a);
            let c0 = self.deck.take();
            let c1 = self.deck.take();
            let c0 = c0.unwrap();
            let c1 = c1.unwrap();
            let ghost old_pending = pending@;
            pending.push(Some((c0, c1)));
            proof {
                assert(pending@.drop_last() =~= old_pending);
            }
            choices.push((actor, c0, c1));
            effects.push(Effect::InitCardReq { actor, obs: self.observes.get(actor).clone(), c0, c1 });
            a = a + 1;
        }
        self.phase = Phase::InitCards { pending };
        proof {
            self.unfold();
            assert(players_cards(self.players@) == 0);
            assert(self.inv_table());
            assert(self.inv_no_roles());
        }
        Request::InitCards { choices }
    }

    /// The player at `actor` keeps `chosen` of its two setup cards and
    /// discards the other; once every player has answered, the first round
    /// begins.
    #[verifier::rlimit(40)]
    pub(super) fn answer_init_card(&mut self, actor: PlayerIndex, chosen: Card, effects: &mut Vec<Effect>) -> (r: Result<Request, GameError>)
        requires
            old(self).wf_body(),
            old(self).phase is InitCards,
        ensures
            ({
                let pending = old(self).phase->InitCards_pending@;
                let a = actor.spec_value() as int;
                let pair = pending[a]->0;
                old(self).refusal(Answer::InitCard { actor, chosen }) is None ==> final(self).deck.spec_drop()
                    == old(self).deck.spec_drop().push(if chosen == pair.0 { pair.1 } else { pair.0 })
            }),
            r is Ok ==> final(self).request_fits(r->Ok_0),
            old(self).room_body() && old(self).refusal(Answer::InitCard { actor, chosen }) is None ==> r is Ok,
            r is Ok ==> records_answer(old(effects)@, final(effects)@, Answer::InitCard { actor, chosen }),
            appended(old(effects)@, final(effects)@),
            final(self).wf_body(),
            ({
                let pending = old(self).phase->InitCards_pending@;
                let a = actor.spec_value() as int;
                &&& (a >= old(self).num_players || pending[a] is None) ==> r == Err::<Request, GameError>(GameError::UnexpectedAnswer)
                    && *final(self) == *old(self) && final(effects)@ == old(effects)@
                &&& (a < old(self).num_players && pending[a] is Some) ==> {
                    let pair = pending[a]->0;
                    &&& (chosen != pair.0 && chosen != pair.1) ==> r == Err::<Request, GameError>(GameError::CardNotOffered)
                        && *final(self) == *old(self) && final(effects)@ == old(effects)@
                    &&& (chosen == pair.0 || chosen == pair.1) ==> {
                        &&& r is Ok || final(self).phase is Halted
                        &&& final(self).players@[a]@ == (PlayerState { cards: old(self).players@[a]@.cards.push(chosen), ..old(self).players@[a]@ })
                    }
                }
            }),
    {
        let idx = actor.value();
        let n = self.num_players;
        if idx >= n {
            return Err(GameError::UnexpectedAnswer);
        }
        let pair = match &self.phase {
            Phase::InitCards { pending } => pending[idx],
            _ => None,
        };
        let (c0, c1) = match pair {
            Some(p) => p,
            None => {
                return Err(GameError::UnexpectedAnswer);
            },
        };
        if chosen != c0 && chosen != c1 {
            return Err(GameError::CardNotOffered);
        }
        let drop = if chosen == c0 {
            c1
        } else {
            c0
        };
        let ghost s0 = *self;
        let mut phase = Phase::Halted;
        std::mem::swap(&mut self.phase, &mut phase);
        let mut pending = match phase {
            Phase::InitCards { pending } => pending,
            _ => Vec::new(),
        };
        let ghost old_pending = pending@;
        pending.set(idx, None);
        proof {
            lemma_pending_pairs_update(old_pending, idx as int, None);
        }
        effects.push(Effect::InitCardResp { actor, obs: self.observes.get(actor).clone(), chosen, drop });
        self.players.get_mut(actor).add_card(chosen);
        self.deck.drop(drop);
        let mut done = true;
        let mut k: usize = 0;
        while k < pending.len()
            invariant
                appended(old(effects)@, effects@),
                k <= pending@.len(),
                done <==> forall|j: int| 0 <= j < k ==> (#[trigger] pending@[j]) is None,
            decreases pending@.len() - k,
        {
            if pending[k].is_some() {
                done = false;
            }
            k = k + 1;
        }
        self.phase = Phase::InitCards { pending };
        proof {
            let a = idx as int;
            assert(self.players@ =~= s0.players@.update(a, self.players@[a]));
            crate::game::lemma_players_cards_update(s0.players@, a, self.players@[a]);
            assert(self.inv_table());
            assert(self.inv_no_roles());
        }
        self.update_all_obs(effects);
        proof {
            assert(self.inv_table());
            assert(self.inv_no_roles());
        }
        if done {
            proof {
                lemma_pending_pairs_none(pending@);
            }
            match self.begin_round(effects) {
                Ok(req) => Ok(req),
                Err(e) => {
                    self.phase = Phase::Halted;
                    Err(e)
                },
            }
        } else {
            Ok(Request::Wait)
        }
    }
}

} // verus!
