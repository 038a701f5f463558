//! The game: its state, the answers it waits for and what it asks next.
//!
//! A game is driven by answers. Each call of [`Game::step`] takes the answer
//! to the last request, changes the state by the rules, and returns the next
//! request together with the notices (records for the game history and
//! updates for spectators) that the change produced, in order.

mod init_service;
pub mod laws;
mod role_execution_service;
mod role_answers;
mod role_selection_service;
mod turn;

use rand::rngs::StdRng;
use vstd::prelude::*;

use crate::deck::{full_deck, total_cards, Deck};
use crate::domain::player_offset::{spec_offset, spec_seat};
use crate::domain::{Camp, Card, DestroyTarget, MagicianSkill, Oper, OptionRole, PlayerIndex, PlayerOffset, Role, RoleSet};
use crate::obs::{camp_scores, camp_total, scores_fit, villain_seat, Obs};
use crate::player::{destroy_fee, Player, PlayerState};
use crate::player_indexed_vec::PlayerIndexedVec;
use crate::rng::random_below;
pub use role_answers::{first_graveyard, graveyard_at};
pub use role_execution_service::{kill_targets, steal_targets, turn_began, turn_passes, turns_pass};
pub use turn::{gold_amount, drawn_count, drawn_into_hand, oper_allowed, oper_done, oper_offer, oper_overflows};
pub use crate::deck::top_cards;

pub use role_execution_service::TurnState;

verus! {

/// What happened in the round so far that later turns depend on.
#[derive(Clone, Copy, Debug)]
pub struct RoundStats {
    /// The round number; round 0 is the setup.
    pub round: u32,
    pub pub_drop_roles: RoleSet,
    pub killed: OptionRole,
    pub stolen: OptionRole,
    pub stealer: Option<PlayerIndex>,
    pub has_first_8_buildings: bool,
    pub crown: PlayerIndex,
}

/// A record for the game history, or an update for a spectator, in the
/// order in which the game produced them.
#[derive(Clone, Debug)]
pub enum Effect {
    ShuffleDeck { deck: Vec<Card> },
    StartGame { init_crown: PlayerIndex },
    InitGold { actor: PlayerIndex, gold: u32 },
    InitCardReq { actor: PlayerIndex, obs: Obs, c0: Card, c1: Card },
    InitCardResp { actor: PlayerIndex, obs: Obs, chosen: Card, drop: Card },
    StartRound { round: u32, crown: PlayerIndex },
    PublicDropRoles { round: u32, roles: RoleSet },
    SecretFirstDropRole { round: u32, role: Role },
    SecretLastDropRole { round: u32, role: Role },
    ChooseRoleReq { actor: PlayerIndex, obs: Obs, choices: RoleSet },
    ChooseRoleResp { actor: PlayerIndex, obs: Obs, choices: RoleSet, chosen: Role },
    KillReq { actor: PlayerIndex, obs: Obs, choices: RoleSet },
    KillResp { chosen: Role },
    StealReq { actor: PlayerIndex, obs: Obs, choices: RoleSet },
    StealResp { chosen: Role },
    MagicReq { actor: PlayerIndex, obs: Obs },
    MagicResp { chosen: MagicianSkill },
    Merchant { actor: PlayerIndex, round: u32 },
    ArchitectDraw2Cards { actor: PlayerIndex, round: u32, c0: Option<Card>, c1: Option<Card> },
    DestroyReq { actor: PlayerIndex, obs: Obs, choices: Vec<DestroyTarget> },
    DestroyResp { chosen_index: Option<PlayerIndex>, chosen_card: Option<Card> },
    TombReq { actor: PlayerIndex, obs: Obs, card: Card },
    TombResp { chosen: bool },
    OperReq { actor: PlayerIndex, obs: Obs, choices: Vec<Oper> },
    OperResp { chosen: Oper },
    Draw2Cards { round: u32, actor: PlayerIndex, c0: Option<Card>, c1: Option<Card> },
    Draw3Cards { actor: PlayerIndex, round: u32, c0: Option<Card>, c1: Option<Card>, c2: Option<Card> },
    Peek2Cards { actor: PlayerIndex, round: u32, c0: Option<Card>, c1: Option<Card> },
    Peek3Cards { actor: PlayerIndex, round: u32, c0: Option<Card>, c1: Option<Card>, c2: Option<Card> },
    ChooseFrom1 { actor: PlayerIndex, round: u32, c: Card },
    ChooseFrom2Req { actor: PlayerIndex, obs: Obs, c0: Card, c1: Card },
    ChooseFrom2Resp { chosen: Card, drop: Card },
    ChooseFrom3Req { actor: PlayerIndex, obs: Obs, c0: Card, c1: Card, c2: Card },
    ChooseFrom3Resp { chosen: Card, drop0: Card, drop1: Card },
    Gold { actor: PlayerIndex, round: u32, amount: u32 },
    Build { actor: PlayerIndex, round: u32, card: Card },
    First8Buildings { actor: PlayerIndex, round: u32 },
    Nonfirst8Buildings { actor: PlayerIndex, round: u32 },
    SellCard { actor: PlayerIndex, round: u32, card: Card },
    RevealRole { actor: PlayerIndex, round: u32, role: Role },
    MoveCrown { round: u32, crown: PlayerIndex },
    SkipKilledTurn { actor: PlayerIndex, round: u32 },
    StealGold { from: PlayerIndex, to: PlayerIndex, round: u32, amount: u32 },
    SwapCards { actor: PlayerIndex, round: u32, i: PlayerIndex, j: PlayerIndex },
    ReplaceCards { actor: PlayerIndex, round: u32, removed: Vec<Card>, drawn: Vec<Card> },
    FinishGame,
    /// The observation of `observer` changed.
    ObsChanged { observer: PlayerIndex, obs: Obs },
    /// The first role was put aside face down.
    FirstRoleDropped,
    /// The last role was put aside face down.
    LastRoleDropped,
    /// The player at `villain`, seen from `observer`, is asked to choose
    /// among `num_choices` roles.
    VillainChooseRoleReqed { observer: PlayerIndex, villain: PlayerOffset, num_choices: usize },
    /// The player at `villain`, seen from `observer`, holds `role`.
    VillainChooseRoleResped { observer: PlayerIndex, villain: PlayerOffset, role: Role },
}

/// What the game waits for next.
#[derive(Clone, Debug)]
pub enum Request {
    /// Each listed player keeps one of two cards; the answers may come in
    /// any order.
    InitCards { choices: Vec<(PlayerIndex, Card, Card)> },
    /// More answers to the setup choices are due.
    Wait,
    Role { actor: PlayerIndex, roles: RoleSet },
    KillTarget { actor: PlayerIndex, choices: RoleSet },
    StealTarget { actor: PlayerIndex, choices: RoleSet },
    MagicTarget { actor: PlayerIndex },
    DestroyTarget { actor: PlayerIndex, choices: Vec<DestroyTarget> },
    /// `observer`, who owns the graveyard, decides whether to buy the
    /// building `card` that the warlord at `actor` destroyed, for one gold.
    Tomb { actor: PlayerIndex, observer: PlayerIndex, card: Card },
    Oper { actor: PlayerIndex, choices: Vec<Oper> },
    From2 { actor: PlayerIndex, c0: Card, c1: Card },
    From3 { actor: PlayerIndex, c0: Card, c1: Card, c2: Card },
    /// The game is over; the camps' total scores.
    Finished { score: [u32; 2] },
}

/// An answer to a request.
#[derive(Clone, Debug)]
pub enum Answer {
    /// Starts a new game.
    Start,
    InitCard { actor: PlayerIndex, chosen: Card },
    Role(Role),
    KillTarget(Role),
    StealTarget(Role),
    MagicTarget(MagicianSkill),
    DestroyTarget(Option<DestroyTarget>),
    Tomb(bool),
    Oper(Oper),
    From2(Card),
    From3(Card),
}

/// Why an answer was refused, leaving the game unchanged, or why carrying
/// it out halted the game.
#[derive(Clone, Copy, Debug, PartialEq, Eq, Structural)]
pub enum GameError {
    /// The answer does not answer the pending request.
    UnexpectedAnswer,
    /// The role chosen is not among the roles offered.
    RoleNotAvailable,
    /// The magician named itself, or a seat beyond the table.
    InvalidSwapTarget,
    /// The magician named cards that are not in its hand.
    CardsNotInHand,
    /// The warlord named a building that cannot be destroyed for it.
    InvalidDestroyTarget,
    /// The operation is not among those offered: a card not in hand, gold
    /// missing, no building left this turn, or the resources already taken.
    InvalidOper,
    /// The card chosen is not among the cards offered.
    CardNotOffered,
    /// A purse would overflow: the operation is refused, or the game halts
    /// when a role's own income or a robbery would overflow it.
    GoldOverflow,
    /// The round counter would overflow; the game halts.
    RoundOverflow,
}

/// Who won a finished game.
#[derive(Clone, Copy, Debug, PartialEq, Eq, Structural)]
pub enum Outcome {
    /// Chu's total score is higher.
    ChuWins,
    /// Han's total score is higher.
    HanWins,
    /// Both camps scored the same.
    Draw,
}

/// Where the game stands.
#[derive(Clone, Debug)]
pub enum Phase {
    /// Not started.
    Created,
    /// Waiting for the setup choices; `pending[i]` holds the two cards
    /// offered to seat `i` until it answers.
    InitCards { pending: Vec<Option<(Card, Card)>> },
    /// Waiting for the role of the player at place `pos` of the order.
    ChooseRole { pos: usize },
    Kill { actor: PlayerIndex },
    Steal { actor: PlayerIndex },
    Magic { actor: PlayerIndex },
    Destroy { actor: PlayerIndex },
    /// The destroyed `card` waits for the decision of `owner`, who owns
    /// the graveyard.
    Tomb { actor: PlayerIndex, owner: PlayerIndex, card: Card },
    Oper { actor: PlayerIndex },
    /// Two drawn cards wait for the player's choice.
    From2 { actor: PlayerIndex, c0: Card, c1: Card },
    /// Three drawn cards wait for the player's choice.
    From3 { actor: PlayerIndex, c0: Card, c1: Card, c2: Card },
    Finished,
    /// Stopped because a purse or the round counter would overflow; a game
    /// with room for its step (`Game::room`) never comes here.
    Halted,
}

/// `new` keeps every record and notice of `old`, in place, and may add
/// more after them.
pub open spec fn appended(old: Seq<Effect>, new: Seq<Effect>) -> bool {
    &&& old.len() <= new.len()
    &&& forall|i: int| 0 <= i < old.len() ==> #[trigger] new[i] == old[i]
}

/// `e` is the history record of `answer`.
pub open spec fn answer_record(answer: Answer, e: Effect) -> bool {
    match answer {
        Answer::Start => true,
        Answer::InitCard { actor, chosen } => e matches Effect::InitCardResp { actor: a, chosen: c, .. } && a == actor && c
            == chosen,
        Answer::Role(role) => e matches Effect::ChooseRoleResp { chosen, .. } && chosen == role,
        Answer::KillTarget(role) => e == (Effect::KillResp { chosen: role }),
        Answer::StealTarget(role) => e == (Effect::StealResp { chosen: role }),
        Answer::MagicTarget(_) => e is MagicResp,
        Answer::DestroyTarget(_) => e is DestroyResp,
        Answer::Tomb(chosen) => e == (Effect::TombResp { chosen }),
        Answer::Oper(op) => e == (Effect::OperResp { chosen: op }),
        Answer::From2(card) => e matches Effect::ChooseFrom2Resp { chosen, .. } && chosen == card,
        Answer::From3(card) => e matches Effect::ChooseFrom3Resp { chosen, .. } && chosen == card,
    }
}

/// `new` holds more records than `old`, the first of them the record of
/// `answer`.
pub open spec fn records_answer(old: Seq<Effect>, new: Seq<Effect>, answer: Answer) -> bool {
    &&& new.len() > old.len()
    &&& answer_record(answer, new[old.len() as int])
}

/// Whether `answer` answers what a game in `phase` waits for.
pub open spec fn answer_expected(phase: Phase, answer: Answer) -> bool {
    match answer {
        Answer::Start => phase is Created,
        Answer::InitCard { .. } => phase is InitCards,
        Answer::Role(_) => phase is ChooseRole,
        Answer::KillTarget(_) => phase is Kill,
        Answer::StealTarget(_) => phase is Steal,
        Answer::MagicTarget(_) => phase is Magic,
        Answer::DestroyTarget(_) => phase is Destroy,
        Answer::Tomb(_) => phase is Tomb,
        Answer::Oper(_) => phase is Oper,
        Answer::From2(_) => phase is From2,
        Answer::From3(_) => phase is From3,
    }
}

/// Number of cards held by the players, in hand and in cities.
pub open spec fn players_cards(s: Seq<Player>) -> nat
    decreases s.len(),
{
    if s.len() == 0 {
        0
    } else {
        players_cards(s.drop_last()) + s.last()@.card_count()
    }
}

/// Replacing one player changes the count by that player's difference.
pub proof fn lemma_players_cards_update(s: Seq<Player>, i: int, p: Player)
    requires
        0 <= i < s.len(),
    ensures
        players_cards(s.update(i, p)) + s[i]@.card_count() == players_cards(s) + p@.card_count(),
    decreases s.len(),
{
    if i < s.len() - 1 {
        lemma_players_cards_update(s.drop_last(), i, p);
        assert(s.update(i, p).drop_last() =~= s.drop_last().update(i, p));
    } else {
        assert(s.update(i, p).drop_last() =~= s.drop_last());
    }
}

/// Gold in the purses of the players `s`.
pub open spec fn total_gold(s: Seq<Player>) -> nat
    decreases s.len(),
{
    if s.len() == 0 {
        0
    } else {
        total_gold(s.drop_last()) + s.last()@.gold as nat
    }
}

/// Each purse holds at most the total, and two purses together too.
pub proof fn lemma_total_gold(s: Seq<Player>, i: int, j: int)
    requires
        0 <= i < s.len(),
        0 <= j < s.len(),
    ensures
        s[i]@.gold <= total_gold(s),
        i != j ==> s[i]@.gold + s[j]@.gold <= total_gold(s),
    decreases s.len(),
{
    let l = s.len() - 1;
    if i < l && j < l {
        lemma_total_gold(s.drop_last(), i, j);
    } else if i < l {
        lemma_total_gold(s.drop_last(), i, i);
    } else if j < l {
        lemma_total_gold(s.drop_last(), j, j);
    }
}

/// Players with the same purses hold the same gold in total.
pub proof fn lemma_total_gold_same(a: Seq<Player>, b: Seq<Player>)
    requires
        a.len() == b.len(),
        forall|i: int| 0 <= i < a.len() ==> (#[trigger] a[i])@.gold == b[i]@.gold,
    ensures
        total_gold(a) == total_gold(b),
    decreases a.len(),
{
    if a.len() > 0 {
        lemma_total_gold_same(a.drop_last(), b.drop_last());
    }
}

/// Number of cards waiting for a player's choice.
pub open spec fn pending_cards(phase: Phase) -> nat {
    match phase {
        Phase::InitCards { pending } => pending_pairs(pending@),
        Phase::Tomb { .. } => 1,
        Phase::From2 { .. } => 2,
        Phase::From3 { .. } => 3,
        _ => 0,
    }
}

/// Number of cards in the offered pairs.
pub open spec fn pending_pairs(s: Seq<Option<(Card, Card)>>) -> nat
    decreases s.len(),
{
    if s.len() == 0 {
        0
    } else {
        pending_pairs(s.drop_last()) + if s.last() is Some {
            2nat
        } else {
            0nat
        }
    }
}

/// Seat of the player at place `pos` of the choosing order of a round
/// whose crown is at `crown`.
pub open spec fn order_seat(pos: int, crown: int, n: int) -> int {
    spec_seat(pos, crown, n)
}

/// The game.
pub struct Game {
    pub(crate) num_players: usize,
    pub(crate) players: PlayerIndexedVec<Player>,
    pub(crate) crown: PlayerIndex,
    pub(crate) deck: Deck,
    pub(crate) observes: PlayerIndexedVec<Obs>,
    pub(crate) phase: Phase,
    pub(crate) stats: RoundStats,
    /// The roles still offered while roles are chosen.
    pub(crate) roles: RoleSet,
    /// The roles put aside or chosen so far while roles are chosen.
    pub(crate) roles_chosen: RoleSet,
    /// Number of roles whose turn has begun in the current round.
    pub(crate) next_role: usize,
    pub(crate) turn: TurnState,
}


/// The bonus of buildings a role may build in one turn: three for the
/// architect, one for everyone else.
pub open spec fn build_base(role: Option<Role>) -> u32 {
    if role == Some(Role::Architect) {
        3
    } else {
        1
    }
}

/// The turn has just begun: nothing taken, built, bought or sold.
pub open spec fn turn_fresh(turn: TurnState) -> bool {
    &&& !turn.got_resources
    &&& turn.has_built_times == 0
    &&& !turn.has_bought_card
    &&& !turn.has_sold_card
}

impl Game {
    /// Number of players.
    pub closed spec fn spec_n(self) -> int {
        self.num_players as int
    }

    /// The players, by seat.
    pub closed spec fn spec_players(self) -> Seq<Player> {
        self.players@
    }

    /// The observations, by seat.
    pub closed spec fn spec_observes(self) -> Seq<Obs> {
        self.observes@
    }

    pub closed spec fn spec_deck(self) -> Deck {
        self.deck
    }

    pub closed spec fn spec_phase(self) -> Phase {
        self.phase
    }

    pub closed spec fn spec_stats(self) -> RoundStats {
        self.stats
    }

    pub closed spec fn spec_crown(self) -> PlayerIndex {
        self.crown
    }

    pub closed spec fn spec_turn(self) -> TurnState {
        self.turn
    }

    /// The roles offered to the player who chooses next.
    pub closed spec fn spec_roles(self) -> RoleSet {
        self.roles
    }

    pub closed spec fn spec_next_role(self) -> int {
        self.next_role as int
    }

    /// The player at seat `i`.
    pub open spec fn player(self, i: int) -> PlayerState {
        self.spec_players()[i]@
    }

    /// Number of cards in the game: both piles, all hands and cities, and
    /// the cards waiting for a choice.
    pub open spec fn card_total(self) -> nat {
        self.spec_deck().spec_count() + players_cards(self.spec_players()) + pending_cards(
            self.spec_phase(),
        )
    }

    /// `req` is the request that the phase of the game waits on: during the
    /// setup more answers or the offers; the role of the player whose place
    /// it is, among the roles offered; the targets the assassin or the thief
    /// may name; the magician's choice; the buildings the warlord may
    /// destroy; the graveyard decision; the operations the player may take;
    /// the drawn cards to keep; at the end, the camps' totals.
    pub(crate) open spec fn request_fits(self, req: Request) -> bool {
        let n = self.num_players as int;
        match self.phase {
            Phase::InitCards { .. } => req is Wait || req is InitCards,
            Phase::ChooseRole { pos } => req == (Request::Role {
                actor: PlayerIndex::from_usize_spec(order_seat(pos as int, self.crown.spec_value() as int, n) as usize),
                roles: self.roles,
            }),
            Phase::Kill { actor } => req matches Request::KillTarget { actor: x, choices } && x == actor && choices@
                == kill_targets(self.stats.pub_drop_roles@),
            Phase::Steal { actor } => req matches Request::StealTarget { actor: x, choices } && x == actor && choices@
                == steal_targets(self.stats.pub_drop_roles@, self.stats.killed.spec_role()),
            Phase::Magic { actor } => req == (Request::MagicTarget { actor }),
            Phase::Destroy { actor } => {
                &&& req matches Request::DestroyTarget { actor: x, .. } && x == actor
                &&& forall|k: int| 0 <= k < req->DestroyTarget_choices@.len() ==> self.destroy_allowed(
                    actor,
                    #[trigger] req->DestroyTarget_choices@[k],
                )
                &&& forall|t: DestroyTarget| self.destroy_allowed(actor, t) ==> #[trigger] req->DestroyTarget_choices@.contains(t)
            },
            Phase::Tomb { actor, owner, card } => req == (Request::Tomb { actor, observer: owner, card }),
            Phase::Oper { actor } => req matches Request::Oper { actor: x, choices } && x == actor && oper_offer(
                choices@,
                self.players@[actor.spec_value() as int]@,
                self.turn,
            ),
            Phase::From2 { actor, c0, c1 } => req == (Request::From2 { actor, c0, c1 }),
            Phase::From3 { actor, c0, c1, c2 } => req == (Request::From3 { actor, c0, c1, c2 }),
            Phase::Finished => req matches Request::Finished { score } && score[0] == camp_total(self.players@, Camp::Chu)
                && score[1] == camp_total(self.players@, Camp::Han),
            _ => false,
        }
    }

    /// Public form of the request rule, over the game's accessors: the
    /// same as `request_fits`.
    pub open spec fn fits(self, req: Request) -> bool {
        let n = self.spec_n();
        match self.spec_phase() {
            Phase::InitCards { .. } => req is Wait || req is InitCards,
            Phase::ChooseRole { pos } => req == (Request::Role {
                actor: PlayerIndex::from_usize_spec(order_seat(pos as int, self.spec_crown().spec_value() as int, n) as usize),
                roles: self.spec_roles(),
            }),
            Phase::Kill { actor } => req matches Request::KillTarget { actor: x, choices } && x == actor && choices@
                == kill_targets(self.spec_stats().pub_drop_roles@),
            Phase::Steal { actor } => req matches Request::StealTarget { actor: x, choices } && x == actor && choices@
                == steal_targets(self.spec_stats().pub_drop_roles@, self.spec_stats().killed.spec_role()),
            Phase::Magic { actor } => req == (Request::MagicTarget { actor }),
            Phase::Destroy { actor } => {
                &&& req matches Request::DestroyTarget { actor: x, .. } && x == actor
                &&& forall|k: int| 0 <= k < req->DestroyTarget_choices@.len() ==> self.destroy_ok(
                    actor,
                    #[trigger] req->DestroyTarget_choices@[k],
                )
                &&& forall|t: DestroyTarget| self.destroy_ok(actor, t) ==> #[trigger] req->DestroyTarget_choices@.contains(t)
            },
            Phase::Tomb { actor, owner, card } => req == (Request::Tomb { actor, observer: owner, card }),
            Phase::Oper { actor } => req matches Request::Oper { actor: x, choices } && x == actor && oper_offer(
                choices@,
                self.spec_players()[actor.spec_value() as int]@,
                self.spec_turn(),
            ),
            Phase::From2 { actor, c0, c1 } => req == (Request::From2 { actor, c0, c1 }),
            Phase::From3 { actor, c0, c1, c2 } => req == (Request::From3 { actor, c0, c1, c2 }),
            Phase::Finished => req matches Request::Finished { score } && score[0] == camp_total(self.spec_players(), Camp::Chu)
                && score[1] == camp_total(self.spec_players(), Camp::Han),
            _ => false,
        }
    }

    /// Whether the warlord at `actor` may destroy target `t`: a building of
    /// another player that can be destroyed for a fee within its purse.
    pub open spec fn destroy_ok(self, actor: PlayerIndex, t: DestroyTarget) -> bool {
        let n = self.spec_n();
        let off = t.player_offset.spec_value() as int;
        let j = spec_seat(off, actor.spec_value() as int, n);
        &&& 0 < off < n
        &&& self.spec_players()[j]@.buildings.contains(t.card)
        &&& destroy_fee(self.spec_players()[j]@.role, self.spec_players()[j]@.buildings, t.card) matches Some(f)
        &&& f <= self.spec_players()[actor.spec_value() as int]@.gold
    }

    /// Room for one more step: the purses together hold at most
    /// `u32::MAX - 16` gold, and the round counter can still count up. An
    /// answer adds at most 11 gold to the purses, so no purse overflows.
    pub closed spec fn room(self) -> bool {
        self.room_body()
    }

    pub(crate) open spec fn room_body(self) -> bool {
        &&& total_gold(self.players@) + 16 <= u32::MAX
        &&& self.stats.round < u32::MAX
    }

    /// The table: four or six seated players, a crown on a seat, cities of
    /// at most eight buildings, and one observation per seat once started.
    pub(crate) open spec fn inv_table(self) -> bool {
        let n = self.num_players as int;
        &&& n == 4 || n == 6
        &&& self.players@.len() == n
        &&& forall|i: int| 0 <= i < n ==> (#[trigger] self.players@[i])@.index.spec_value() == i
        &&& forall|i: int| 0 <= i < n ==> (#[trigger] self.players@[i])@.buildings.len() <= 8
        &&& forall|i: int| 0 <= i < n ==> (#[trigger] self.players@[i])@.buildings.no_duplicates()
        &&& self.crown.spec_value() < n
        &&& self.stats.crown.spec_value() < n
        &&& (self.phase is Created <==> self.observes@.len() == 0)
        &&& !(self.phase is Created) ==> self.observes@.len() == n
        &&& forall|o: int| 0 <= o < self.observes@.len() ==> {
            &&& (#[trigger] self.observes@[o]).villain_infos@.len() == n - 1
            &&& self.observes@[o].num_players == n
        }
        &&& self.stats.stealer matches Some(s) ==> s.spec_value() < n
        &&& self.inv_first_8()
    }

    /// At most one player is marked the first to complete eight buildings;
    /// that player has eight, and the round knows of it.
    pub(crate) open spec fn inv_first_8(self) -> bool {
        let n = self.num_players as int;
        &&& forall|i: int| 0 <= i < n && (#[trigger] self.players@[i])@.first_8 ==> {
            &&& self.players@[i]@.buildings.len() == 8
            &&& self.stats.has_first_8_buildings
        }
        &&& forall|i: int, j: int|
            #![trigger self.players@[i], self.players@[j]]
            0 <= i < n && 0 <= j < n && self.players@[i]@.first_8 && self.players@[j]@.first_8 ==> i == j
        &&& self.stats.has_first_8_buildings ==> exists|i: int| 0 <= i < n && (#[trigger] self.players@[i])@.first_8
    }

    /// Players who keep their marks, a marked player keeping a complete
    /// city, keep the rules on the first complete city.
    pub(crate) proof fn lemma_first_8_kept(a: Game, b: Game)
        requires
            a.inv_first_8(),
            b.num_players == a.num_players,
            b.stats.has_first_8_buildings == a.stats.has_first_8_buildings,
            b.players@.len() == a.players@.len(),
            forall|i: int| 0 <= i < a.num_players ==> {
                &&& (#[trigger] b.players@[i])@.first_8 == a.players@[i]@.first_8
                &&& a.players@[i]@.first_8 ==> b.players@[i]@.buildings.len() == 8
            },
        ensures
            b.inv_first_8(),
    {
        if b.stats.has_first_8_buildings {
            let i = choose|i: int| 0 <= i < a.num_players && (#[trigger] a.players@[i])@.first_8;
            assert(b.players@[i]@.first_8);
        }
    }

    /// No player holds a role, and no observation shows one.
    pub(crate) open spec fn inv_no_roles(self) -> bool {
        &&& forall|i: int| 0 <= i < self.players@.len() ==> (#[trigger] self.players@[i])@.role is None
        &&& forall|o: int| 0 <= o < self.observes@.len() ==> {
            &&& (#[trigger] self.observes@[o]).actor_info.common.role is None
            &&& forall|k: int| 0 <= k < self.observes@[o].villain_infos@.len() ==> (#[trigger] self.observes@[o].villain_infos@[k]).common.role is None
        }
    }

    /// Distinct players hold distinct roles.
    pub(crate) open spec fn roles_distinct(self) -> bool {
        forall|i: int, j: int|
            #![trigger self.players@[i], self.players@[j]]
            0 <= i < self.players@.len() && 0 <= j < self.players@.len() && i != j && self.players@[i]@.role is Some
                ==> self.players@[i]@.role != self.players@[j]@.role
    }

    /// Each observer's own role is the role its player holds.
    pub(crate) open spec fn actor_roles_shown(self) -> bool {
        forall|o: int| 0 <= o < self.observes@.len() ==> (#[trigger] self.observes@[o]).actor_info.common.role == self.players@[o]@.role
    }

    /// While roles are chosen: the players before place `pos` of the order
    /// hold distinct roles that are no longer offered, the others none; no
    /// role of another player is shown; and the offered roles number
    /// `8 - |public drops| - 1 - pos`.
    pub(crate) open spec fn inv_selection(self, pos: int) -> bool {
        let n = self.num_players as int;
        &&& 0 <= pos <= n
        &&& self.stats.crown == self.crown
        &&& self.stats.stolen == OptionRole::Empty
        &&& self.stats.killed == OptionRole::Empty
        &&& self.stats.stealer is None
        &&& forall|i: int| 0 <= i < n ==> {
            let p = #[trigger] order_seat(i, self.crown.spec_value() as int, n);
            if i < pos {
                &&& self.players@[p]@.role matches Some(r)
                &&& !self.roles@.contains(r)
            } else {
                self.players@[p]@.role is None
            }
        }
        &&& self.roles_distinct()
        &&& self.actor_roles_shown()
        &&& forall|o: int, k: int| 0 <= o < self.observes@.len() && 0 <= k < self.observes@[o].villain_infos@.len()
            ==> (#[trigger] self.observes@[o].villain_infos@[k]).common.role is None
        &&& self.roles@.disjoint(self.stats.pub_drop_roles@)
        &&& self.stats.pub_drop_roles@.len() == (if n == 4 { 2int } else { 0int })
        &&& self.roles@.len() == 8 - self.stats.pub_drop_roles@.len() - 1 - pos
    }

    /// While roles act: every player holds a role, the roles are distinct,
    /// an observer is shown the roles of other players whose turn has begun
    /// and no other, and once the thief's turn is over a robbery has a robber.
    pub(crate) open spec fn inv_roles_acting(self) -> bool {
        let n = self.num_players as int;
        &&& 0 <= self.next_role <= 8
        &&& forall|i: int| 0 <= i < n ==> (#[trigger] self.players@[i])@.role is Some
        &&& self.roles_distinct()
        &&& self.actor_roles_shown()
        &&& forall|o: int, k: int| 0 <= o < self.observes@.len() && 0 <= k < self.observes@[o].villain_infos@.len()
            ==> (#[trigger] self.observes@[o].villain_infos@[k]).common.role == self.shown_role(o, k, self.next_role as int)
        &&& self.stats.stolen != OptionRole::Empty ==> self.next_role >= 2 && self.stats.stealer is Some
        &&& self.stats.stolen.spec_role() != Some(Role::Thief)
        &&& self.stats.stealer matches Some(t) ==> self.players@[t.spec_value() as int]@.role == Some(Role::Thief)
    }

    /// The role that observer `o` is shown at place `k` of its villains
    /// once the roles before place `upto` of the acting order have begun.
    pub(crate) open spec fn shown_role(self, o: int, k: int, upto: int) -> Option<Role> {
        let r = self.players@[villain_seat(o, k, self.num_players as int)]@.role->0;
        if r.spec_index() < upto {
            Some(r)
        } else {
            None
        }
    }

    /// The player at seat `actor` acts now: its role is the one whose turn began last.
    pub(crate) open spec fn acting(self, actor: PlayerIndex) -> bool {
        &&& actor.spec_value() < self.num_players
        &&& self.players@[actor.spec_value() as int]@.role matches Some(r)
        &&& r.spec_index() == self.next_role - 1
    }

    /// The rules on the state of the current phase.
    pub(crate) open spec fn inv_phase(self) -> bool {
        let n = self.num_players as int;
        match self.phase {
            Phase::Created => {
                &&& !self.stats.has_first_8_buildings
                &&& self.inv_no_roles()
                &&& players_cards(self.players@) == 0
                &&& self.deck.spec_drop().len() == 0
            },
            Phase::InitCards { pending } => {
                &&& !self.stats.has_first_8_buildings
                &&& pending@.len() == n
                &&& self.inv_no_roles()
            },
            Phase::ChooseRole { pos } => 0 <= pos < n && self.inv_selection(pos as int),
            Phase::Kill { actor } => self.inv_turn_start(actor, Role::Assassin),
            Phase::Steal { actor } => self.inv_turn_start(actor, Role::Thief) && self.stats.stealer == Some(actor),
            Phase::Magic { actor } => self.inv_turn_start(actor, Role::Magician),
            Phase::Destroy { actor } => self.inv_turn_start(actor, Role::Warlord),
            Phase::Tomb { actor, owner, .. } => {
                &&& self.inv_turn_start(actor, Role::Warlord)
                &&& owner.spec_value() < n
                &&& self.players@[owner.spec_value() as int]@.gold >= 1
            },
            Phase::Oper { actor, .. } => {
                &&& self.inv_roles_acting()
                &&& self.acting(actor)
                &&& self.turn.has_built_times <= build_base(self.players@[actor.spec_value() as int]@.role)
            },
            Phase::From2 { actor, .. } => {
                &&& self.inv_roles_acting()
                &&& self.acting(actor)
                &&& self.turn.has_built_times <= build_base(self.players@[actor.spec_value() as int]@.role)
            },
            Phase::From3 { actor, .. } => {
                &&& self.inv_roles_acting()
                &&& self.acting(actor)
                &&& self.turn.has_built_times <= build_base(self.players@[actor.spec_value() as int]@.role)
            },
            Phase::Finished => self.inv_no_roles() && self.stats.has_first_8_buildings,
            Phase::Halted => true,
        }
    }

    /// The turn of `actor`, who holds `role`, has just begun.
    pub(crate) open spec fn inv_turn_start(self, actor: PlayerIndex, role: Role) -> bool {
        &&& self.inv_roles_acting()
        &&& self.acting(actor)
        &&& turn_fresh(self.turn)
        &&& self.players@[actor.spec_value() as int]@.role == Some(role)
    }

    /// A well-formed game: the table rules, the phase rules, and exactly
    /// one full deck of cards in play.
    pub closed spec fn wf(self) -> bool {
        self.wf_body()
    }

    pub(crate) open spec fn wf_body(self) -> bool {
        &&& self.inv_table()
        &&& self.inv_phase()
        &&& self.deck.spec_count() + players_cards(self.players@) + pending_cards(self.phase) == total_cards()
        &&& scores_fit(self.players@)
    }

    /// Unfolds `wf` and the accessors.
    pub(crate) proof fn unfold(self)
        ensures
            self.wf() == self.wf_body(),
            self.spec_n() == self.num_players as int,
            self.spec_players() == self.players@,
            self.spec_observes() == self.observes@,
            self.spec_deck() == self.deck,
            self.spec_phase() == self.phase,
            self.spec_stats() == self.stats,
            self.spec_crown() == self.crown,
            self.spec_turn() == self.turn,
            self.spec_next_role() == self.next_role as int,
            self.spec_roles() == self.roles,
            self.room() == self.room_body(),
    {
    }

    /// A new game of `num_players` players, seated in the given order, none
    /// of whom holds a card or a role. The crown goes to a seat drawn by
    /// the generator, which then shuffles a full deck.
    pub fn new(num_players: usize, players: PlayerIndexedVec<Player>, rng: StdRng) -> (r: Game)
        requires
            num_players == 4 || num_players == 6,
            players@.len() == num_players,
            forall|i: int| 0 <= i < players@.len() ==> {
                &&& (#[trigger] players@[i])@.cards.len() == 0
                &&& players@[i]@.buildings.len() == 0
                &&& players@[i]@.role is None
                &&& !players@[i]@.first_8
            },
        ensures
            r.wf(),
            r.spec_phase() is Created,
            r.spec_n() == num_players,
            r.spec_crown().spec_value() < num_players,
            r.spec_deck().spec_deck().to_multiset() == full_deck().to_multiset(),
            r.spec_deck().spec_drop().len() == 0,
            forall|i: int| 0 <= i < num_players ==> #[trigger] r.player(i) == (PlayerState {
                index: r.player(i).index,
                ..players@[i]@
            }),
    {
        let ghost orig = players@;
        let mut players = players;
        let mut rng = rng;
        let mut i: usize = 0;
        while i < players.len()
            invariant
                i <= players@.len(),
                players@.len() == num_players,
                forall|j: int| 0 <= j < i ==> (#[trigger] players@[j])@.index.spec_value() == j,
                forall|j: int| 0 <= j < num_players ==> #[trigger] players@[j]@ == (PlayerState {
                    index: players@[j]@.index,
                    ..orig[j]@
                }),
            decreases players@.len() - i,
        {
            players.get_mut(PlayerIndex::from_usize(i)).set_index(PlayerIndex::from_usize(i));
            i = i + 1;
        }
        let crown = PlayerIndex::from_usize(random_below(&mut rng, players.len()));
        let deck = Deck::new(rng);
        let r = Game {
            num_players,
            players,
            crown,
            deck,
            observes: PlayerIndexedVec::new(),
            phase: Phase::Created,
            stats: RoundStats {
                round: 0,
                pub_drop_roles: RoleSet::empty(),
                killed: OptionRole::Empty,
                stolen: OptionRole::Empty,
                stealer: None,
                has_first_8_buildings: false,
                crown,
            },
            roles: RoleSet::universal(),
            roles_chosen: RoleSet::empty(),
            next_role: 0,
            turn: TurnState {
                got_resources: false,
                has_built_times: 0,
                has_bought_card: false,
                has_sold_card: false,
            },
        };
        proof {
            lemma_players_cards_empty(r.players@);
            assert(scores_fit(r.players@));
        }
        r
    }

    /// Both lists of observations show the same roles and have the same shape.
    pub open spec fn obs_roles_same(a: Seq<Obs>, b: Seq<Obs>) -> bool {
        &&& a.len() == b.len()
        &&& forall|o: int| 0 <= o < a.len() ==> {
            &&& (#[trigger] b[o]).num_players == a[o].num_players
            &&& b[o].villain_infos@.len() == a[o].villain_infos@.len()
            &&& b[o].actor_info.common.role == a[o].actor_info.common.role
            &&& forall|k: int| 0 <= k < a[o].villain_infos@.len() ==> (#[trigger] b[o].villain_infos@[k]).common.role == a[o].villain_infos@[k].common.role
        }
    }

    /// Observations that show the same roles and have the same shape keep
    /// the rules on the state.
    pub(crate) proof fn lemma_obs_refresh(a: Game, b: Game)
        requires
            b == (Game { observes: b.observes, ..a }),
            Game::obs_roles_same(a.observes@, b.observes@),
        ensures
            a.inv_table() ==> b.inv_table(),
            a.inv_roles_acting() ==> b.inv_roles_acting(),
            a.inv_table() && a.inv_phase() ==> b.inv_phase(),
            a.wf_body() ==> b.wf_body(),
    {
        if a.inv_table() && a.inv_phase() {
            assert(b.inv_phase());
        }
    }

    /// Every observation of `b` is that of `a` refreshed for its observer
    /// from the piles and the players of `a`.
    pub(crate) open spec fn all_refreshed(a: Game, b: Game) -> bool {
        &&& b.observes@.len() == a.observes@.len()
        &&& forall|o: int| 0 <= o < a.observes@.len() ==> (#[trigger] b.observes@[o]).refreshed_from(
            a.observes@[o],
            a.deck,
            a.players@,
            o,
        )
    }

    /// Refreshes every observation from the piles and the players, and
    /// reports each to its spectator.
    fn update_all_obs(&mut self, effects: &mut Vec<Effect>)
        requires
            old(self).inv_table(),
            !(old(self).phase is Created),
            scores_fit(old(self).players@),
        ensures
            appended(old(effects)@, final(effects)@),
            Game::obs_roles_same(old(self).observes@, final(self).observes@),
            *final(self) == (Game { observes: final(self).observes, ..*old(self) }),
            final(effects)@.len() >= old(effects)@.len(),
            Game::all_refreshed(*old(self), *final(self)),
    {
        let n = self.num_players;
        let mut i: usize = 0;
        while i < n
            invariant
                appended(old(effects)@, effects@),
                i <= n,
                n == self.num_players,
                *self == (Game { observes: self.observes, ..*old(self) }),
                old(self).inv_table(),
                !(old(self).phase is Created),
                scores_fit(old(self).players@),
                Game::obs_roles_same(old(self).observes@, self.observes@),
                effects@.len() >= old(effects)@.len(),
                forall|o: int| 0 <= o < n ==> if o < i {
                    (#[trigger] self.observes@[o]).refreshed_from(old(self).observes@[o], old(self).deck, old(self).players@, o)
                } else {
                    self.observes@[o] == old(self).observes@[o]
                },
            decreases n - i,
        {
            let idx = PlayerIndex::from_usize(i);
            self.observes.get_mut(idx).update_infos(&self.deck, &self.players, idx);
            effects.push(Effect::ObsChanged { observer: idx, obs: self.observes.get(idx).clone() });
            i = i + 1;
        }
    }

    /// The error with which `answer` is refused, if it is: an answer to
    /// another request; a setup card for a seat that is not waiting, or
    /// not among its two; a role not offered; a swap with oneself or a seat
    /// beyond the table; cards to replace that are not in hand; a building
    /// that cannot be destroyed; an operation not allowed or one that would
    /// overflow the purse; a card not among those drawn.
    pub open spec fn refusal(self, answer: Answer) -> Option<GameError> {
        let n = self.spec_n();
        if !answer_expected(self.spec_phase(), answer) {
            Some(GameError::UnexpectedAnswer)
        } else {
            match answer {
                Answer::InitCard { actor, chosen } => {
                    let a = actor.spec_value() as int;
                    let pending = self.spec_phase()->InitCards_pending@;
                    let pair = pending[a]->0;
                    if a >= n || pending[a] is None {
                        Some(GameError::UnexpectedAnswer)
                    } else if chosen != pair.0 && chosen != pair.1 {
                        Some(GameError::CardNotOffered)
                    } else {
                        None
                    }
                },
                Answer::Role(r) => if self.spec_roles()@.contains(r) {
                    None
                } else {
                    Some(GameError::RoleNotAvailable)
                },
                Answer::KillTarget(r) => if kill_targets(self.spec_stats().pub_drop_roles@).contains(r) {
                    None
                } else {
                    Some(GameError::RoleNotAvailable)
                },
                Answer::StealTarget(r) => if steal_targets(self.spec_stats().pub_drop_roles@, self.spec_stats().killed.spec_role()).contains(r) {
                    None
                } else {
                    Some(GameError::RoleNotAvailable)
                },
                Answer::MagicTarget(skill) => {
                    let a = self.spec_phase()->Magic_actor.spec_value() as int;
                    match skill {
                        MagicianSkill::Swap(offset) => if 0 < offset.spec_value() < self.spec_n() {
                            None
                        } else {
                            Some(GameError::InvalidSwapTarget)
                        },
                        MagicianSkill::Replace(cards) => if cards@.to_multiset().subset_of(self.spec_players()[a]@.cards.to_multiset()) {
                            None
                        } else {
                            Some(GameError::CardsNotInHand)
                        },
                        MagicianSkill::Pass => None,
                    }
                },
                Answer::DestroyTarget(target) => match target {
                    Some(t) => if self.destroy_ok(self.spec_phase()->Destroy_actor, t) {
                        None
                    } else {
                        Some(GameError::InvalidDestroyTarget)
                    },
                    None => None,
                },
                Answer::Oper(op) => {
                    let p = self.spec_players()[self.spec_phase()->Oper_actor.spec_value() as int]@;
                    if !oper_allowed(p, self.spec_turn(), op) {
                        Some(GameError::InvalidOper)
                    } else if oper_overflows(p, op) {
                        Some(GameError::GoldOverflow)
                    } else {
                        None
                    }
                },
                Answer::From2(c) => if c == self.spec_phase()->From2_c0 || c == self.spec_phase()->From2_c1 {
                    None
                } else {
                    Some(GameError::CardNotOffered)
                },
                Answer::From3(c) => if c == self.spec_phase()->From3_c0 || c == self.spec_phase()->From3_c1 || c == self.spec_phase()->From3_c2 {
                    None
                } else {
                    Some(GameError::CardNotOffered)
                },
                _ => None,
            }
        }
    }

    /// What an accepted answer did, and what it asks next: at the start,
    /// two gold for everyone and two cards offered to each seat; the setup
    /// card joins the hand; the chooser holds the chosen role, and the next
    /// player is asked or the roles start acting; the killed or robbed role
    /// is recorded; the hands are swapped, or cards are replaced by as many
    /// drawn ones, or nothing changes; the building is gone and the warlord
    /// paid its fee; the graveyard's card is bought or discarded; the
    /// operation took effect; the chosen card joined the hand and the others
    /// were discarded.
    pub open spec fn accepted(self, next: Game, answer: Answer, request: Request) -> bool {
        let n = self.spec_n();
        match answer {
            Answer::Start => {
                &&& next.spec_phase() is InitCards
                &&& forall|i: int| 0 <= i < n ==> #[trigger] next.spec_players()[i]@ == (PlayerState { gold: 2, ..self.spec_players()[i]@ })
                &&& request is InitCards
                &&& forall|o: int| 0 <= o < n ==> {
                    &&& (#[trigger] next.spec_observes()[o]).round_info.fresh(0, next.spec_observes()[o].round_info.crown)
                    &&& next.spec_observes()[o].round_info.crown.spec_value() == spec_offset(
                        self.spec_crown().spec_value() as int,
                        o,
                        n,
                    )
                }
                &&& request->InitCards_choices@.len() == n
                &&& forall|i: int| 0 <= i < n ==> {
                    let pair = (#[trigger] next.spec_phase()->InitCards_pending@[i])->0;
                    &&& next.spec_phase()->InitCards_pending@[i] is Some
                    &&& request->InitCards_choices@[i] == (PlayerIndex::from_usize_spec(i as usize), pair.0, pair.1)
                }
            },
            Answer::InitCard { actor, chosen } => {
                let a = actor.spec_value() as int;
                let pair = self.spec_phase()->InitCards_pending@[a]->0;
                &&& next.spec_players()[a]@ == (PlayerState { cards: self.spec_players()[a]@.cards.push(chosen), ..self.spec_players()[a]@ })
                &&& next.spec_deck().spec_drop() == self.spec_deck().spec_drop().push(if chosen == pair.0 { pair.1 } else { pair.0 })
            },
            Answer::Role(role) => {
                let pos = self.spec_phase()->ChooseRole_pos as int;
                let seat = order_seat(pos, self.spec_crown().spec_value() as int, n);
                &&& pos + 1 < n ==> {
                    &&& next.spec_players()[seat]@.role == Some(role)
                    &&& next.spec_phase() == (Phase::ChooseRole { pos: (pos + 1) as usize })
                }
                &&& pos + 1 == n ==> {
                    &&& next.spec_players()[seat]@.role == Some(role)
                    &&& !(next.spec_phase() is ChooseRole || next.spec_phase() is Finished)
                    &&& self.spec_roles()@.remove(role).len() == 1
                }
            },
            Answer::KillTarget(role) => {
                &&& next.spec_turn() == self.spec_turn()
                &&& next.spec_stats().killed.spec_role() == Some(role)
                &&& next.spec_phase() == (Phase::Oper { actor: self.spec_phase()->Kill_actor })
            },
            Answer::StealTarget(role) => {
                &&& next.spec_turn() == self.spec_turn()
                &&& next.spec_stats().stolen.spec_role() == Some(role)
                &&& next.spec_stats().stealer == Some(self.spec_phase()->Steal_actor)
                &&& next.spec_phase() == (Phase::Oper { actor: self.spec_phase()->Steal_actor })
            },
            Answer::MagicTarget(skill) => {
                let a = self.spec_phase()->Magic_actor.spec_value() as int;
                &&& next.spec_turn() == self.spec_turn()
                &&& next.spec_phase() == (Phase::Oper { actor: self.spec_phase()->Magic_actor })
                &&& match skill {
                    MagicianSkill::Swap(offset) => {
                        let j = spec_seat(offset.spec_value() as int, a, n);
                        &&& next.spec_players()[a]@.cards == self.spec_players()[j]@.cards
                        &&& next.spec_players()[j]@.cards == self.spec_players()[a]@.cards
                    },
                    MagicianSkill::Replace(cards) => {
                        &&& next.spec_players()[a]@ == (PlayerState { cards: next.spec_players()[a]@.cards, ..self.spec_players()[a]@ })
                        &&& next.spec_players()[a]@.cards.len() == self.spec_players()[a]@.cards.len()
                        &&& next.spec_players()[a]@.cards.to_multiset().add(next.spec_deck().spec_cards())
                            == self.spec_players()[a]@.cards.to_multiset().add(self.spec_deck().spec_cards())
                        &&& self.spec_deck().spec_deck().len() >= cards@.len() ==> {
                            let d = self.spec_deck().spec_deck();
                            &&& next.spec_deck().spec_drop() == self.spec_deck().spec_drop() + cards@
                            &&& next.spec_deck().spec_deck() == d.subrange(0, d.len() - cards@.len())
                            &&& next.spec_players()[a]@.cards.to_multiset() == self.spec_players()[a]@.cards.to_multiset().sub(
                                cards@.to_multiset(),
                            ).add(top_cards(d, cards@.len() as int).to_multiset())
                        }
                    },
                    MagicianSkill::Pass => next.spec_players() == self.spec_players(),
                }
            },
            Answer::DestroyTarget(target) => {
                let actor = self.spec_phase()->Destroy_actor;
                &&& next.spec_turn() == self.spec_turn()
                &&& match target {
                    Some(t) => {
                        let j = spec_seat(t.player_offset.spec_value() as int, actor.spec_value() as int, n);
                        &&& !next.spec_players()[j]@.buildings.contains(t.card)
                        &&& next.spec_players()[j]@.buildings.len() + 1 == self.spec_players()[j]@.buildings.len()
                        &&& next.spec_players()[actor.spec_value() as int]@.gold == self.spec_players()[actor.spec_value() as int]@.gold
                            - destroy_fee(self.spec_players()[j]@.role, self.spec_players()[j]@.buildings, t.card)->0
                        &&& {
                            let fg = first_graveyard(next.spec_players(), n);
                            let asks = fg matches Some(w) && w != actor.spec_value() && next.spec_players()[w]@.gold >= 1;
                            &&& (next.spec_phase() is Tomb) == asks
                            &&& asks ==> next.spec_phase() == (Phase::Tomb {
                                actor,
                                owner: PlayerIndex::from_usize_spec(fg->0 as usize),
                                card: t.card,
                            })
                            &&& !asks ==> next.spec_deck().spec_drop() == self.spec_deck().spec_drop().push(t.card)
                        }
                    },
                    None => next.spec_players() == self.spec_players() && next.spec_phase() == (Phase::Oper { actor }),
                }
            },
            Answer::Tomb(chosen) => {
                let owner = self.spec_phase()->Tomb_owner.spec_value() as int;
                let card = self.spec_phase()->Tomb_card;
                &&& next.spec_turn() == self.spec_turn()
                &&& next.spec_phase() == (Phase::Oper { actor: self.spec_phase()->Tomb_actor })
                &&& if chosen {
                    &&& next.spec_players()[owner]@.cards == self.spec_players()[owner]@.cards.push(card)
                    &&& next.spec_players()[owner]@.gold == self.spec_players()[owner]@.gold - 1
                    &&& next.spec_deck().spec_drop() == self.spec_deck().spec_drop()
                } else {
                    &&& next.spec_players() == self.spec_players()
                    &&& next.spec_deck().spec_drop() == self.spec_deck().spec_drop().push(card)
                }
            },
            Answer::Oper(op) => oper_done(op, self, next, self.spec_phase()->Oper_actor.spec_value() as int),
            Answer::From2(chosen) => {
                let a = self.spec_phase()->From2_actor.spec_value() as int;
                let actor = self.spec_phase()->From2_actor;
                let c0 = self.spec_phase()->From2_c0;
                let c1 = self.spec_phase()->From2_c1;
                &&& next.spec_deck().spec_deck() == self.spec_deck().spec_deck()
                &&& next.spec_turn() == self.spec_turn()
                &&& next.spec_phase() == (Phase::Oper { actor })
                &&& next.spec_players() == self.spec_players().update(a, next.spec_players()[a])
                &&& next.spec_players()[a]@ == (PlayerState { cards: self.spec_players()[a]@.cards.push(chosen), ..self.spec_players()[a]@ })
                &&& next.spec_deck().spec_drop() == self.spec_deck().spec_drop().push(if chosen == c0 { c1 } else { c0 })
            },
            Answer::From3(chosen) => {
                let a = self.spec_phase()->From3_actor.spec_value() as int;
                let actor = self.spec_phase()->From3_actor;
                let c0 = self.spec_phase()->From3_c0;
                let c1 = self.spec_phase()->From3_c1;
                let c2 = self.spec_phase()->From3_c2;
                &&& next.spec_deck().spec_deck() == self.spec_deck().spec_deck()
                &&& next.spec_turn() == self.spec_turn()
                &&& next.spec_phase() == (Phase::Oper { actor })
                &&& next.spec_players() == self.spec_players().update(a, next.spec_players()[a])
                &&& next.spec_players()[a]@ == (PlayerState { cards: self.spec_players()[a]@.cards.push(chosen), ..self.spec_players()[a]@ })
                &&& next.spec_deck().spec_drop() == if chosen == c0 {
                    self.spec_deck().spec_drop().push(c1).push(c2)
                } else if chosen == c1 {
                    self.spec_deck().spec_drop().push(c0).push(c2)
                } else {
                    self.spec_deck().spec_drop().push(c0).push(c1)
                }
            },
        }
    }

    /// Whether the game waits for an answer of the kind of `answer`.
    fn expects(&self, answer: &Answer) -> (r: bool)
        ensures
            r == answer_expected(self.phase, *answer),
    {
        match answer {
            Answer::Start => matches!(self.phase, Phase::Created),
            Answer::InitCard { .. } => matches!(self.phase, Phase::InitCards { .. }),
            Answer::Role(_) => matches!(self.phase, Phase::ChooseRole { .. }),
            Answer::KillTarget(_) => matches!(self.phase, Phase::Kill { .. }),
            Answer::StealTarget(_) => matches!(self.phase, Phase::Steal { .. }),
            Answer::MagicTarget(_) => matches!(self.phase, Phase::Magic { .. }),
            Answer::DestroyTarget(_) => matches!(self.phase, Phase::Destroy { .. }),
            Answer::Tomb(_) => matches!(self.phase, Phase::Tomb { .. }),
            Answer::Oper(_) => matches!(self.phase, Phase::Oper { .. }),
            Answer::From2(_) => matches!(self.phase, Phase::From2 { .. }),
            Answer::From3(_) => matches!(self.phase, Phase::From3 { .. }),
        }
    }

    /// Carries out `answer` to the pending request and returns the next
    /// request; what happened meanwhile is appended to `effects`, in order,
    /// the answer's own record first. A refused answer leaves the game and
    /// `effects` unchanged; any other answer is carried out, and the request
    /// returned is the one the new state waits on. The game must have room
    /// for the step (`room`): no purse may come near overflowing and the
    /// round counter must be able to count on.
    #[verifier::rlimit(100)]
    pub fn step(&mut self, answer: Answer, effects: &mut Vec<Effect>) -> (r: Result<Request, GameError>)
        requires
            old(self).wf(),
            old(self).room(),
        ensures
            appended(old(effects)@, final(effects)@),
            final(self).wf(),
            old(self).refusal(answer) matches Some(e) ==> r == Err::<Request, GameError>(e) && *final(self) == *old(self) && final(effects)@ == old(effects)@,
            old(self).refusal(answer) is None ==> r is Ok,
            r is Ok ==> final(self).fits(r->Ok_0),
            old(self).refusal(answer) is None && r is Ok ==> old(self).accepted(*final(self), answer, r->Ok_0),
            old(self).refusal(answer) is None && r is Ok && !(answer is Start) ==> records_answer(old(effects)@, final(effects)@, answer),
    {
        proof {
            old(self).unfold();
        }
        if !self.expects(&answer) {
            return Err(GameError::UnexpectedAnswer);
        }
        match answer {
            Answer::Start => {
                let res = Ok(self.start(effects));
                proof {
                    self.unfold();
                }
                res
            },
            Answer::InitCard { actor, chosen } => {
                let res = self.answer_init_card(actor, chosen, effects);
                proof {
                    self.unfold();
                }
                res
            },
            Answer::Role(r) => {
                let res = self.answer_role(r, effects);
                proof {
                    self.unfold();
                }
                res
            },
            Answer::KillTarget(r) => {
                let res = self.answer_kill(r, effects);
                proof {
                    self.unfold();
                }
                res
            },
            Answer::StealTarget(r) => {
                let res = self.answer_steal(r, effects);
                proof {
                    self.unfold();
                }
                res
            },
            Answer::MagicTarget(skill) => {
                let res = self.answer_magic(skill, effects);
                proof {
                    self.unfold();
                }
                res
            },
            Answer::DestroyTarget(t) => {
                let res = self.answer_destroy(t, effects);
                proof {
                    self.unfold();
                }
                res
            },
            Answer::Tomb(chosen) => {
                let res = self.answer_tomb(chosen, effects);
                proof {
                    self.unfold();
                }
                res
            },
            Answer::Oper(op) => {
                let res = self.answer_oper(op, effects);
                proof {
                    self.unfold();
                }
                res
            },
            Answer::From2(c) => {
                let res = self.answer_from2(c, effects);
                proof {
                    self.unfold();
                }
                res
            },
            Answer::From3(c) => {
                let res = self.answer_from3(c, effects);
                proof {
                    self.unfold();
                }
                res
            },
        }
    }

    /// The camps' total scores, Chu first.
    pub fn final_score(&self) -> (r: [u32; 2])
        requires
            self.wf(),
        ensures
            r[0] == camp_total(self.spec_players(), Camp::Chu),
            r[1] == camp_total(self.spec_players(), Camp::Han),
    {
        proof {
            self.unfold();
        }
        camp_scores(&self.players)
    }

    /// The winner by total score: the camp with more points, or a draw.
    pub fn outcome(score: [u32; 2]) -> (r: Outcome)
        ensures
            score[0] > score[1] ==> r == Outcome::ChuWins,
            score[0] < score[1] ==> r == Outcome::HanWins,
            score[0] == score[1] ==> r == Outcome::Draw,
    {
        if score[0] > score[1] {
            Outcome::ChuWins
        } else if score[0] < score[1] {
            Outcome::HanWins
        } else {
            Outcome::Draw
        }
    }

    /// Number of cards in both piles, all hands and all cities.
    pub fn total_card_number(&self) -> (r: usize)
        requires
            self.wf(),
        ensures
            r == self.spec_deck().spec_count() + players_cards(self.spec_players()),
    {
        proof {
            self.unfold();
        }
        let mut total: usize = self.deck.peek_deck().len() + self.deck.peek_drop().len();
        let n = self.players.len();
        let mut i: usize = 0;
        while i < n
            invariant
                i <= n,
                n == self.players@.len(),
                self.wf_body(),
                total == self.deck.spec_count() + players_cards(self.players@.take(i as int)),
            decreases n - i,
        {
            proof {
                assert(self.players@.take(i + 1).drop_last() =~= self.players@.take(i as int));
                lemma_players_cards_prefix(self.players@, i + 1);
            }
            let p = self.players.get(PlayerIndex::from_usize(i));
            total = total + p.cards_len() + p.buildings_len();
            i = i + 1;
        }
        proof {
            assert(self.players@.take(n as int) =~= self.players@);
        }
        total
    }

    /// Whether the game holds exactly one full deck of cards, in the piles,
    /// hands and cities.
    pub fn check_total_card_number(&self) -> (r: bool)
        requires
            self.wf(),
        ensures
            r == (self.spec_deck().spec_count() + players_cards(self.spec_players()) == total_cards()),
    {
        self.total_card_number() == 66
    }

    /// Whether there is room for one more step (see `room`).
    pub fn has_room(&self) -> (r: bool)
        requires
            self.wf(),
        ensures
            r == self.room(),
    {
        proof {
            self.unfold();
        }
        let n = self.players.len();
        let mut total: u64 = 0;
        let mut i: usize = 0;
        while i < n
            invariant
                i <= n,
                n == self.players@.len(),
                n <= 6,
                total == total_gold(self.players@.take(i as int)),
                total <= i * 0xffff_ffff,
            decreases n - i,
        {
            proof {
                assert(self.players@.take(i + 1).drop_last() =~= self.players@.take(i as int));
            }
            total = total + self.players.get(PlayerIndex::from_usize(i)).gold() as u64;
            i = i + 1;
        }
        proof {
            assert(self.players@.take(n as int) =~= self.players@);
        }
        total + 16 <= 0xffff_ffff && self.stats.round < u32::MAX
    }

    /// Number of players.
    pub fn num_players(&self) -> (r: usize)
        ensures
            r == self.spec_n(),
    {
        self.num_players
    }

    /// The player at seat `i`.
    pub fn player_at(&self, i: PlayerIndex) -> (r: &Player)
        requires
            i.spec_value() < self.spec_players().len(),
        ensures
            *r == self.spec_players()[i.spec_value() as int],
    {
        self.players.get(i)
    }

    /// The observation of seat `i`.
    pub fn observation(&self, i: PlayerIndex) -> (r: &Obs)
        requires
            i.spec_value() < self.spec_observes().len(),
        ensures
            *r == self.spec_observes()[i.spec_value() as int],
    {
        self.observes.get(i)
    }

    /// The crown's seat.
    pub fn crown(&self) -> (r: PlayerIndex)
        ensures
            r == self.spec_crown(),
    {
        self.crown
    }

    /// The piles.
    pub fn deck(&self) -> (r: &Deck)
        ensures
            *r == self.spec_deck(),
    {
        &self.deck
    }

    /// What happened in the current round.
    pub fn round_stats(&self) -> (r: RoundStats)
        ensures
            r == self.spec_stats(),
    {
        self.stats
    }
}

/// Players with the same hands and cities hold the same number of cards.
pub proof fn lemma_players_cards_same(a: Seq<Player>, b: Seq<Player>)
    requires
        a.len() == b.len(),
        forall|j: int| 0 <= j < a.len() ==> {
            &&& (#[trigger] a[j])@.cards == b[j]@.cards
            &&& a[j]@.buildings == b[j]@.buildings
        },
    ensures
        players_cards(a) == players_cards(b),
    decreases a.len(),
{
    if a.len() > 0 {
        lemma_players_cards_same(a.drop_last(), b.drop_last());
    }
}

/// The players of a prefix hold no more cards than all of them.
proof fn lemma_players_cards_prefix(s: Seq<Player>, k: int)
    requires
        0 <= k <= s.len(),
    ensures
        players_cards(s.take(k)) <= players_cards(s),
    decreases s.len() - k,
{
    if k < s.len() {
        lemma_players_cards_prefix(s, k + 1);
        assert(s.take(k + 1).drop_last() =~= s.take(k));
    } else {
        assert(s.take(k) =~= s);
    }
}

/// Players with neither hand nor city hold no cards.
proof fn lemma_players_cards_empty(s: Seq<Player>)
    requires
        forall|i: int| 0 <= i < s.len() ==> (#[trigger] s[i])@.card_count() == 0,
    ensures
        players_cards(s) == 0,
    decreases s.len(),
{
    if s.len() > 0 {
        lemma_players_cards_empty(s.drop_last());
    }
}

} // verus!
