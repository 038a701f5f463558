//! The game history: each record gets an identifier, and the record of an
//! answer names the request it answers.

use vstd::prelude::*;

use crate::domain::{Card, DestroyTarget, MagicianSkill, Oper, PlayerIndex, Role, RoleSet};
use crate::game::Effect;
use crate::obs::Obs;

verus! {

/// A record of the game history; every record has its own `id`, and an
/// answer's record names the `req_id` of the request it answers.
#[derive(Clone, Debug)]
pub enum HistoryReqEvent {
    WaitForReady { id: u32 },
    ShuffleDeck { id: u32, deck: Vec<Card> },
    StartGame { id: u32, init_crown: PlayerIndex },
    InitGold { id: u32, actor: PlayerIndex, gold: u32 },
    InitCardReq { id: u32, actor: PlayerIndex, obs: Obs, c0: Card, c1: Card },
    InitCardResp { id: u32, req_id: u32, chosen: Card, drop: Card },
    StartRound { id: u32, round: u32, crown: PlayerIndex },
    PublicDropRoles { id: u32, round: u32, roles: RoleSet },
    SecretFirstDropRole { id: u32, round: u32, role: Role },
    SecretLastDropRole { id: u32, round: u32, role: Role },
    ChooseRoleReq { id: u32, actor: PlayerIndex, obs: Obs, choices: RoleSet },
    ChooseRoleResp { id: u32, actor: PlayerIndex, obs: Obs, choices: RoleSet, chosen: Role },
    KillReq { id: u32, actor: PlayerIndex, obs: Obs, choices: RoleSet },
    KillResp { id: u32, req_id: u32, chosen: Role },
    StealReq { id: u32, actor: PlayerIndex, obs: Obs, choices: RoleSet },
    StealResp { id: u32, req_id: u32, chosen: Role },
    MagicReq { id: u32, actor: PlayerIndex, obs: Obs },
    MagicResp { id: u32, req_id: u32, chosen: MagicianSkill },
    Merchant { id: u32, actor: PlayerIndex, round: u32 },
    ArchitectDraw2Cards { id: u32, actor: PlayerIndex, round: u32, c0: Option<Card>, c1: Option<Card> },
    DestroyReq { id: u32, actor: PlayerIndex, obs: Obs, choices: Vec<DestroyTarget> },
    DestroyResp { id: u32, req_id: u32, chosen_index: Option<PlayerIndex>, chosen_card: Option<Card> },
    TombReq { id: u32, actor: PlayerIndex, obs: Obs, card: Card },
    TombResp { id: u32, req_id: u32, chosen: bool },
    OperReq { id: u32, actor: PlayerIndex, obs: Obs, choices: Vec<Oper> },
    OperResp { id: u32, req_id: u32, chosen: Oper },
    Draw2Cards { id: u32, round: u32, actor: PlayerIndex, c0: Option<Card>, c1: Option<Card> },
    Draw3Cards { id: u32, actor: PlayerIndex, round: u32, c0: Option<Card>, c1: Option<Card>, c2: Option<Card> },
    Peek2Cards { id: u32, actor: PlayerIndex, round: u32, c0: Option<Card>, c1: Option<Card> },
    Peek3Cards { id: u32, actor: PlayerIndex, round: u32, c0: Option<Card>, c1: Option<Card>, c2: Option<Card> },
    ChooseFrom1 { id: u32, actor: PlayerIndex, round: u32, c: Card },
    ChooseFrom2Req { id: u32, actor: PlayerIndex, obs: Obs, c0: Card, c1: Card },
    ChooseFrom2Resp { id: u32, req_id: u32, chosen: Card, drop: Card },
    ChooseFrom3Req { id: u32, actor: PlayerIndex, obs: Obs, c0: Card, c1: Card, c2: Card },
    ChooseFrom3Resp { id: u32, req_id: u32, chosen: Card, drop0: Card, drop1: Card },
    Gold { id: u32, actor: PlayerIndex, round: u32, amount: u32 },
    Build { id: u32, actor: PlayerIndex, round: u32, card: Card },
    First8Buildings { id: u32, actor: PlayerIndex, round: u32 },
    Nonfirst8Buildings { id: u32, actor: PlayerIndex, round: u32 },
    SellCard { id: u32, actor: PlayerIndex, round: u32, card: Card },
    RevealRole { id: u32, actor: PlayerIndex, round: u32, role: Role },
    MoveCrown { id: u32, round: u32, crown: PlayerIndex },
    SkipKilledTurn { id: u32, actor: PlayerIndex, round: u32 },
    StealGold { id: u32, from: PlayerIndex, to: PlayerIndex, round: u32, amount: u32 },
    SwapCards { id: u32, actor: PlayerIndex, round: u32, i: PlayerIndex, j: PlayerIndex },
    ReplaceCards { id: u32, actor: PlayerIndex, round: u32, removed: Vec<Card>, drawn: Vec<Card> },
    FinishGame { id: u32 },
}

impl HistoryReqEvent {
    /// The record's identifier.
    pub open spec fn spec_id(&self) -> u32 {
        match self {
            HistoryReqEvent::WaitForReady { id } => *id,
            HistoryReqEvent::ShuffleDeck { id, .. } => *id,
            HistoryReqEvent::StartGame { id, .. } => *id,
            HistoryReqEvent::InitGold { id, .. } => *id,
            HistoryReqEvent::InitCardReq { id, .. } => *id,
            HistoryReqEvent::InitCardResp { id, .. } => *id,
            HistoryReqEvent::StartRound { id, .. } => *id,
            HistoryReqEvent::PublicDropRoles { id, .. } => *id,
            HistoryReqEvent::SecretFirstDropRole { id, .. } => *id,
            HistoryReqEvent::SecretLastDropRole { id, .. } => *id,
            HistoryReqEvent::ChooseRoleReq { id, .. } => *id,
            HistoryReqEvent::ChooseRoleResp { id, .. } => *id,
            HistoryReqEvent::KillReq { id, .. } => *id,
            HistoryReqEvent::KillResp { id, .. } => *id,
            HistoryReqEvent::StealReq { id, .. } => *id,
            HistoryReqEvent::StealResp { id, .. } => *id,
            HistoryReqEvent::MagicReq { id, .. } => *id,
            HistoryReqEvent::MagicResp { id, .. } => *id,
            HistoryReqEvent::Merchant { id, .. } => *id,
            HistoryReqEvent::ArchitectDraw2Cards { id, .. } => *id,
            HistoryReqEvent::DestroyReq { id, .. } => *id,
            HistoryReqEvent::DestroyResp { id, .. } => *id,
            HistoryReqEvent::TombReq { id, .. } => *id,
            HistoryReqEvent::TombResp { id, .. } => *id,
            HistoryReqEvent::OperReq { id, .. } => *id,
            HistoryReqEvent::OperResp { id, .. } => *id,
            HistoryReqEvent::Draw2Cards { id, .. } => *id,
            HistoryReqEvent::Draw3Cards { id, .. } => *id,
            HistoryReqEvent::Peek2Cards { id, .. } => *id,
            HistoryReqEvent::Peek3Cards { id, .. } => *id,
            HistoryReqEvent::ChooseFrom1 { id, .. } => *id,
            HistoryReqEvent::ChooseFrom2Req { id, .. } => *id,
            HistoryReqEvent::ChooseFrom2Resp { id, .. } => *id,
            HistoryReqEvent::ChooseFrom3Req { id, .. } => *id,
            HistoryReqEvent::ChooseFrom3Resp { id, .. } => *id,
            HistoryReqEvent::Gold { id, .. } => *id,
            HistoryReqEvent::Build { id, .. } => *id,
            HistoryReqEvent::First8Buildings { id, .. } => *id,
            HistoryReqEvent::Nonfirst8Buildings { id, .. } => *id,
            HistoryReqEvent::SellCard { id, .. } => *id,
            HistoryReqEvent::RevealRole { id, .. } => *id,
            HistoryReqEvent::MoveCrown { id, .. } => *id,
            HistoryReqEvent::SkipKilledTurn { id, .. } => *id,
            HistoryReqEvent::StealGold { id, .. } => *id,
            HistoryReqEvent::SwapCards { id, .. } => *id,
            HistoryReqEvent::ReplaceCards { id, .. } => *id,
            HistoryReqEvent::FinishGame { id, .. } => *id,
        }
    }

}

/// What the history's reader answers.
#[derive(Clone, Copy, Debug)]
pub enum HistoryRespEvent {
    Ready,
}

/// Whether `e` is a record of the game history (the others are notices
/// for spectators).
pub open spec fn is_record(e: Effect) -> bool {
    match e {
        Effect::ObsChanged { .. } => false,
        Effect::FirstRoleDropped => false,
        Effect::LastRoleDropped => false,
        Effect::VillainChooseRoleReqed { .. } => false,
        Effect::VillainChooseRoleResped { .. } => false,
        _ => true,
    }
}

/// Whether `e` records a request whose answer is recorded next.
pub open spec fn is_request(e: Effect) -> bool {
    match e {
        Effect::KillReq { .. } => true,
        Effect::StealReq { .. } => true,
        Effect::MagicReq { .. } => true,
        Effect::DestroyReq { .. } => true,
        Effect::TombReq { .. } => true,
        Effect::OperReq { .. } => true,
        Effect::ChooseFrom2Req { .. } => true,
        Effect::ChooseFrom3Req { .. } => true,
        _ => false,
    }
}

/// `ev` is the record of `e` with identifier `id`, answering the request
/// `req_id` where `e` is an answer.
pub open spec fn carries(e: Effect, ev: HistoryReqEvent, id: u32, req_id: u32) -> bool {
    match e {
        Effect::ShuffleDeck { deck } => ev == (HistoryReqEvent::ShuffleDeck { id, deck }),
        Effect::StartGame { init_crown } => ev == (HistoryReqEvent::StartGame { id, init_crown }),
        Effect::InitGold { actor, gold } => ev == (HistoryReqEvent::InitGold { id, actor, gold }),
        Effect::InitCardReq { actor, obs, c0, c1 } => ev == (HistoryReqEvent::InitCardReq { id, actor, obs, c0, c1 }),
        Effect::InitCardResp { chosen, drop, .. } => ev == (HistoryReqEvent::InitCardResp { id, req_id, chosen, drop }),
        Effect::StartRound { round, crown } => ev == (HistoryReqEvent::StartRound { id, round, crown }),
        Effect::PublicDropRoles { round, roles } => ev == (HistoryReqEvent::PublicDropRoles { id, round, roles }),
        Effect::SecretFirstDropRole { round, role } => ev == (HistoryReqEvent::SecretFirstDropRole { id, round, role }),
        Effect::SecretLastDropRole { round, role } => ev == (HistoryReqEvent::SecretLastDropRole { id, round, role }),
        Effect::ChooseRoleReq { actor, obs, choices } => ev == (HistoryReqEvent::ChooseRoleReq { id, actor, obs, choices }),
        Effect::ChooseRoleResp { actor, obs, choices, chosen } => ev == (HistoryReqEvent::ChooseRoleResp { id, actor, obs, choices, chosen }),
        Effect::KillReq { actor, obs, choices } => ev == (HistoryReqEvent::KillReq { id, actor, obs, choices }),
        Effect::KillResp { chosen } => ev == (HistoryReqEvent::KillResp { id, req_id, chosen }),
        Effect::StealReq { actor, obs, choices } => ev == (HistoryReqEvent::StealReq { id, actor, obs, choices }),
        Effect::StealResp { chosen } => ev == (HistoryReqEvent::StealResp { id, req_id, chosen }),
        Effect::MagicReq { actor, obs } => ev == (HistoryReqEvent::MagicReq { id, actor, obs }),
        Effect::MagicResp { chosen } => ev == (HistoryReqEvent::MagicResp { id, req_id, chosen }),
        Effect::Merchant { actor, round } => ev == (HistoryReqEvent::Merchant { id, actor, round }),
        Effect::ArchitectDraw2Cards { actor, round, c0, c1 } => ev == (HistoryReqEvent::ArchitectDraw2Cards { id, actor, round, c0, c1 }),
        Effect::DestroyReq { actor, obs, choices } => ev == (HistoryReqEvent::DestroyReq { id, actor, obs, choices }),
        Effect::DestroyResp { chosen_index, chosen_card } => ev == (HistoryReqEvent::DestroyResp { id, req_id, chosen_index, chosen_card }),
        Effect::TombReq { actor, obs, card } => ev == (HistoryReqEvent::TombReq { id, actor, obs, card }),
        Effect::TombResp { chosen } => ev == (HistoryReqEvent::TombResp { id, req_id, chosen }),
        Effect::OperReq { actor, obs, choices } => ev == (HistoryReqEvent::OperReq { id, actor, obs, choices }),
        Effect::OperResp { chosen } => ev == (HistoryReqEvent::OperResp { id, req_id, chosen }),
        Effect::Draw2Cards { round, actor, c0, c1 } => ev == (HistoryReqEvent::Draw2Cards { id, round, actor, c0, c1 }),
        Effect::Draw3Cards { actor, round, c0, c1, c2 } => ev == (HistoryReqEvent::Draw3Cards { id, actor, round, c0, c1, c2 }),
        Effect::Peek2Cards { actor, round, c0, c1 } => ev == (HistoryReqEvent::Peek2Cards { id, actor, round, c0, c1 }),
        Effect::Peek3Cards { actor, round, c0, c1, c2 } => ev == (HistoryReqEvent::Peek3Cards { id, actor, round, c0, c1, c2 }),
        Effect::ChooseFrom1 { actor, round, c } => ev == (HistoryReqEvent::ChooseFrom1 { id, actor, round, c }),
        Effect::ChooseFrom2Req { actor, obs, c0, c1 } => ev == (HistoryReqEvent::ChooseFrom2Req { id, actor, obs, c0, c1 }),
        Effect::ChooseFrom2Resp { chosen, drop } => ev == (HistoryReqEvent::ChooseFrom2Resp { id, req_id, chosen, drop }),
        Effect::ChooseFrom3Req { actor, obs, c0, c1, c2 } => ev == (HistoryReqEvent::ChooseFrom3Req { id, actor, obs, c0, c1, c2 }),
        Effect::ChooseFrom3Resp { chosen, drop0, drop1 } => ev == (HistoryReqEvent::ChooseFrom3Resp { id, req_id, chosen, drop0, drop1 }),
        Effect::Gold { actor, round, amount } => ev == (HistoryReqEvent::Gold { id, actor, round, amount }),
        Effect::Build { actor, round, card } => ev == (HistoryReqEvent::Build { id, actor, round, card }),
        Effect::First8Buildings { actor, round } => ev == (HistoryReqEvent::First8Buildings { id, actor, round }),
        Effect::Nonfirst8Buildings { actor, round } => ev == (HistoryReqEvent::Nonfirst8Buildings { id, actor, round }),
        Effect::SellCard { actor, round, card } => ev == (HistoryReqEvent::SellCard { id, actor, round, card }),
        Effect::RevealRole { actor, round, role } => ev == (HistoryReqEvent::RevealRole { id, actor, round, role }),
        Effect::MoveCrown { round, crown } => ev == (HistoryReqEvent::MoveCrown { id, round, crown }),
        Effect::SkipKilledTurn { actor, round } => ev == (HistoryReqEvent::SkipKilledTurn { id, actor, round }),
        Effect::StealGold { from, to, round, amount } => ev == (HistoryReqEvent::StealGold { id, from, to, round, amount }),
        Effect::SwapCards { actor, round, i, j } => ev == (HistoryReqEvent::SwapCards { id, actor, round, i, j }),
        Effect::ReplaceCards { actor, round, removed, drawn } => ev == (HistoryReqEvent::ReplaceCards { id, actor, round, removed, drawn }),
        Effect::FinishGame  => ev == (HistoryReqEvent::FinishGame { id }),
        _ => false,
    }
}

/// Numbers the records of the game history.
pub struct History {
    id: u32,
    last_req: u32,
    init_reqs: Vec<u32>,
}

impl History {
    /// The identifier of the next record.
    pub closed spec fn spec_next(&self) -> u32 {
        self.id
    }

    /// The identifier of the last request whose answer is recorded next.
    pub closed spec fn spec_last_req(&self) -> u32 {
        self.last_req
    }

    /// The identifier of the setup request of seat `actor` (0 before there
    /// is one).
    pub closed spec fn spec_init_req(&self, actor: int) -> u32 {
        if 0 <= actor < self.init_reqs@.len() {
            self.init_reqs@[actor]
        } else {
            0
        }
    }

    /// The identifier an answer `e` refers to.
    pub open spec fn req_id_for(&self, e: Effect) -> u32 {
        match e {
            Effect::InitCardResp { actor, .. } => self.spec_init_req(actor.spec_value() as int),
            _ => self.spec_last_req(),
        }
    }

    /// A history whose first record gets identifier 0.
    pub fn new() -> (r: History)
        ensures
            r.spec_next() == 0,
            r.spec_last_req() == 0,
            forall|a: int| #[trigger] r.spec_init_req(a) == 0,
    {
        History { id: 0, last_req: 0, init_reqs: Vec::new() }
    }

    /// Hands out the next identifier; after the largest comes 0 again.
    pub fn next_id(&mut self) -> (r: u32)
        ensures
            r == old(self).spec_next(),
            final(self).spec_next() == if old(self).spec_next() == u32::MAX {
                0
            } else {
                (old(self).spec_next() + 1) as u32
            },
            final(self).spec_last_req() == old(self).spec_last_req(),
            forall|a: int| #[trigger] final(self).spec_init_req(a) == old(self).spec_init_req(a),
    {
        let r = self.id;
        self.id = self.id.wrapping_add(1);
        r
    }

    fn init_req_of(&self, actor: PlayerIndex) -> (r: u32)
        ensures
            r == self.spec_init_req(actor.spec_value() as int),
    {
        let a = actor.value();
        if a < self.init_reqs.len() {
            self.init_reqs[a]
        } else {
            0
        }
    }

    fn set_init_req(&mut self, actor: PlayerIndex, id: u32)
        ensures
            final(self).spec_init_req(actor.spec_value() as int) == id,
            forall|a: int| a != actor.spec_value() ==> #[trigger] final(self).spec_init_req(a) == old(self).spec_init_req(a),
            final(self).spec_next() == old(self).spec_next(),
            final(self).spec_last_req() == old(self).spec_last_req(),
    {
        let a = actor.value();
        while self.init_reqs.len() <= a
            invariant
                self.id == old(self).id,
                self.last_req == old(self).last_req,
                forall|b: int| #[trigger] self.spec_init_req(b) == old(self).spec_init_req(b),
            decreases a + 1 - self.init_reqs.len(),
        {
            let ghost before = *self;
            self.init_reqs.push(0);
            proof {
                assert forall|b: int| #[trigger] self.spec_init_req(b) == before.spec_init_req(b) by {
                    if 0 <= b < before.init_reqs@.len() {
                        assert(self.init_reqs@[b] == before.init_reqs@[b]);
                    }
                }
            }
        }
        let ghost before = *self;
        self.init_reqs.set(a, id);
        proof {
            assert forall|b: int| b != a implies #[trigger] self.spec_init_req(b) == before.spec_init_req(b) by {
                if 0 <= b < before.init_reqs@.len() {
                    assert(self.init_reqs@[b] == before.init_reqs@[b]);
                }
            }
        }
    }

    /// The history record of `effect`, with the next identifier; `None`,
    /// and nothing numbered, for a notice meant for spectators only.
    pub fn record(&mut self, effect: Effect) -> (r: Option<HistoryReqEvent>)
        ensures
            !is_record(effect) ==> r is None && *final(self) == *old(self),
            is_record(effect) ==> r is Some,
            is_record(effect) ==> carries(effect, r->0, old(self).spec_next(), old(self).req_id_for(effect)),
            is_record(effect) ==> final(self).spec_next() == if old(self).spec_next() == u32::MAX {
                0
            } else {
                (old(self).spec_next() + 1) as u32
            },
            is_record(effect) ==> final(self).spec_last_req() == if is_request(effect) {
                old(self).spec_next()
            } else {
                old(self).spec_last_req()
            },
            is_record(effect) ==> forall|a: int| #[trigger] final(self).spec_init_req(a) == match effect {
                Effect::InitCardReq { actor, .. } => if a == actor.spec_value() {
                    old(self).spec_next()
                } else {
                    old(self).spec_init_req(a)
                },
                _ => old(self).spec_init_req(a),
            },
    {
        match &effect {
            Effect::ObsChanged { .. } | Effect::FirstRoleDropped | Effect::LastRoleDropped
            | Effect::VillainChooseRoleReqed { .. } | Effect::VillainChooseRoleResped { .. } => {
                return None;
            },
            _ => {},
        }
        let id = self.next_id();
        let req_id = match &effect {
            Effect::InitCardResp { actor, .. } => self.init_req_of(*actor),
            _ => self.last_req,
        };
        let ghost mid = *self;
        match &effect {
            Effect::InitCardReq { actor, .. } => {
                self.set_init_req(*actor, id);
                proof {
                    assert forall|a: int| a != actor.spec_value() implies #[trigger] self.spec_init_req(a) == old(self).spec_init_req(a) by {
                        assert(self.spec_init_req(a) == mid.spec_init_req(a));
                    }
                }
            },
            _ => {},
        }
        if History::requests(&effect) {
            self.last_req = id;
        }
        proof {
            assert(forall|a: int| #[trigger] mid.spec_init_req(a) == old(self).spec_init_req(a));
            if !(effect is InitCardReq) {
                assert forall|a: int| #[trigger] self.spec_init_req(a) == old(self).spec_init_req(a) by {
                    assert(self.init_reqs == mid.init_reqs);
                    assert(mid.spec_init_req(a) == old(self).spec_init_req(a));
                }
            }
        }
        History::to_record(effect, id, req_id)
    }

    /// Whether `effect` records a request whose answer is recorded next.
    fn requests(effect: &Effect) -> (r: bool)
        ensures
            r == is_request(*effect),
    {
        match effect {
            Effect::KillReq { .. } | Effect::StealReq { .. } | Effect::MagicReq { .. } | Effect::DestroyReq { .. } | Effect::TombReq { .. } | Effect::OperReq { .. } | Effect::ChooseFrom2Req { .. } | Effect::ChooseFrom3Req { .. } => true,
            _ => false,
        }
    }

    /// The record of `effect` with identifier `id`, answering `req_id`.
    fn to_record(effect: Effect, id: u32, req_id: u32) -> (r: Option<HistoryReqEvent>)
        ensures
            is_record(effect) ==> r is Some && carries(effect, r->0, id, req_id),
    {
        match effect {
            Effect::ShuffleDeck { deck } => Some(HistoryReqEvent::ShuffleDeck { id, deck }),
            Effect::StartGame { init_crown } => Some(HistoryReqEvent::StartGame { id, init_crown }),
            Effect::InitGold { actor, gold } => Some(HistoryReqEvent::InitGold { id, actor, gold }),
            Effect::InitCardReq { actor, obs, c0, c1 } => Some(HistoryReqEvent::InitCardReq { id, actor, obs, c0, c1 }),
            Effect::InitCardResp { chosen, drop, .. } => Some(HistoryReqEvent::InitCardResp { id, req_id, chosen, drop }),
            Effect::StartRound { round, crown } => Some(HistoryReqEvent::StartRound { id, round, crown }),
            Effect::PublicDropRoles { round, roles } => Some(HistoryReqEvent::PublicDropRoles { id, round, roles }),
            Effect::SecretFirstDropRole { round, role } => Some(HistoryReqEvent::SecretFirstDropRole { id, round, role }),
            Effect::SecretLastDropRole { round, role } => Some(HistoryReqEvent::SecretLastDropRole { id, round, role }),
            Effect::ChooseRoleReq { actor, obs, choices } => Some(HistoryReqEvent::ChooseRoleReq { id, actor, obs, choices }),
            Effect::ChooseRoleResp { actor, obs, choices, chosen } => Some(HistoryReqEvent::ChooseRoleResp { id, actor, obs, choices, chosen }),
            Effect::KillReq { actor, obs, choices } => Some(HistoryReqEvent::KillReq { id, actor, obs, choices }),
            Effect::KillResp { chosen } => Some(HistoryReqEvent::KillResp { id, req_id, chosen }),
            Effect::StealReq { actor, obs, choices } => Some(HistoryReqEvent::StealReq { id, actor, obs, choices }),
            Effect::StealResp { chosen } => Some(HistoryReqEvent::StealResp { id, req_id, chosen }),
            Effect::MagicReq { actor, obs } => Some(HistoryReqEvent::MagicReq { id, actor, obs }),
            Effect::MagicResp { chosen } => Some(HistoryReqEvent::MagicResp { id, req_id, chosen }),
            Effect::Merchant { actor, round } => Some(HistoryReqEvent::Merchant { id, actor, round }),
            Effect::ArchitectDraw2Cards { actor, round, c0, c1 } => Some(HistoryReqEvent::ArchitectDraw2Cards { id, actor, round, c0, c1 }),
            Effect::DestroyReq { actor, obs, choices } => Some(HistoryReqEvent::DestroyReq { id, actor, obs, choices }),
            Effect::DestroyResp { chosen_index, chosen_card } => Some(HistoryReqEvent::DestroyResp { id, req_id, chosen_index, chosen_card }),
            Effect::TombReq { actor, obs, card } => Some(HistoryReqEvent::TombReq { id, actor, obs, card }),
            Effect::TombResp { chosen } => Some(HistoryReqEvent::TombResp { id, req_id, chosen }),
            Effect::OperReq { actor, obs, choices } => Some(HistoryReqEvent::OperReq { id, actor, obs, choices }),
            Effect::OperResp { chosen } => Some(HistoryReqEvent::OperResp { id, req_id, chosen }),
            Effect::Draw2Cards { round, actor, c0, c1 } => Some(HistoryReqEvent::Draw2Cards { id, round, actor, c0, c1 }),
            Effect::Draw3Cards { actor, round, c0, c1, c2 } => Some(HistoryReqEvent::Draw3Cards { id, actor, round, c0, c1, c2 }),
            Effect::Peek2Cards { actor, round, c0, c1 } => Some(HistoryReqEvent::Peek2Cards { id, actor, round, c0, c1 }),
            Effect::Peek3Cards { actor, round, c0, c1, c2 } => Some(HistoryReqEvent::Peek3Cards { id, actor, round, c0, c1, c2 }),
            Effect::ChooseFrom1 { actor, round, c } => Some(HistoryReqEvent::ChooseFrom1 { id, actor, round, c }),
            Effect::ChooseFrom2Req { actor, obs, c0, c1 } => Some(HistoryReqEvent::ChooseFrom2Req { id, actor, obs, c0, c1 }),
            Effect::ChooseFrom2Resp { chosen, drop } => Some(HistoryReqEvent::ChooseFrom2Resp { id, req_id, chosen, drop }),
            Effect::ChooseFrom3Req { actor, obs, c0, c1, c2 } => Some(HistoryReqEvent::ChooseFrom3Req { id, actor, obs, c0, c1, c2 }),
            Effect::ChooseFrom3Resp { chosen, drop0, drop1 } => Some(HistoryReqEvent::ChooseFrom3Resp { id, req_id, chosen, drop0, drop1 }),
            Effect::Gold { actor, round, amount } => Some(HistoryReqEvent::Gold { id, actor, round, amount }),
            Effect::Build { actor, round, card } => Some(HistoryReqEvent::Build { id, actor, round, card }),
            Effect::First8Buildings { actor, round } => Some(HistoryReqEvent::First8Buildings { id, actor, round }),
            Effect::Nonfirst8Buildings { actor, round } => Some(HistoryReqEvent::Nonfirst8Buildings { id, actor, round }),
            Effect::SellCard { actor, round, card } => Some(HistoryReqEvent::SellCard { id, actor, round, card }),
            Effect::RevealRole { actor, round, role } => Some(HistoryReqEvent::RevealRole { id, actor, round, role }),
            Effect::MoveCrown { round, crown } => Some(HistoryReqEvent::MoveCrown { id, round, crown }),
            Effect::SkipKilledTurn { actor, round } => Some(HistoryReqEvent::SkipKilledTurn { id, actor, round }),
            Effect::StealGold { from, to, round, amount } => Some(HistoryReqEvent::StealGold { id, from, to, round, amount }),
            Effect::SwapCards { actor, round, i, j } => Some(HistoryReqEvent::SwapCards { id, actor, round, i, j }),
            Effect::ReplaceCards { actor, round, removed, drawn } => Some(HistoryReqEvent::ReplaceCards { id, actor, round, removed, drawn }),
            Effect::FinishGame  => Some(HistoryReqEvent::FinishGame { id }),
            _ => None,
        }
    }

}

} // verus!
