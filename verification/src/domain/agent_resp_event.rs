//! Answers received from a remote agent.

use vstd::prelude::*;

use crate::domain::agent_req_event::AgentReqEvent;
use crate::domain::card::Card;
use crate::domain::destroy_target::DestroyTarget;
use crate::domain::magician_skill::MagicianSkill;
use crate::domain::oper::Oper;
use crate::domain::role::Role;

verus! {

/// An answer from a remote agent, carrying the identifier of the request
/// it answers.
#[derive(Clone, Debug)]
pub enum AgentRespEvent {
    WaitForReady { id: u32 },
    InitCard { id: u32, chosen: Card },
    Role { id: u32, chosen: Role },
    KillTarget { id: u32, chosen: Role },
    StealTarget { id: u32, chosen: Role },
    MagicTarget { id: u32, chosen: MagicianSkill },
    DestoryTarget { id: u32, chosen: Option<DestroyTarget> },
    Tomb { id: u32, chosen: bool },
    Oper { id: u32, chosen: Oper },
    From2 { id: u32, chosen: Card },
    From3 { id: u32, chosen: Card },
}

/// Whether an answer of the kind of `resp` answers a request of the kind
/// of `req`.
pub open spec fn kinds_match(req: AgentReqEvent, resp: AgentRespEvent) -> bool {
    match req {
        AgentReqEvent::WaitForReady { .. } => resp is WaitForReady,
        AgentReqEvent::ChooseInitCard { .. } => resp is InitCard,
        AgentReqEvent::ChooseRole { .. } => resp is Role,
        AgentReqEvent::ChooseKillTarget { .. } => resp is KillTarget,
        AgentReqEvent::ChooseStealTarget { .. } => resp is StealTarget,
        AgentReqEvent::ChooseMagicTarget { .. } => resp is MagicTarget,
        AgentReqEvent::ChooseDestoryTarget { .. } => resp is DestoryTarget,
        AgentReqEvent::ChooseTomb { .. } => resp is Tomb,
        AgentReqEvent::ChooseOper { .. } => resp is Oper,
        AgentReqEvent::ChooseFrom2 { .. } => resp is From2,
        AgentReqEvent::ChooseFrom3 { .. } => resp is From3,
    }
}

impl AgentRespEvent {
    /// The identifier of the request answered.
    pub open spec fn spec_id(&self) -> u32 {
        match self {
            AgentRespEvent::WaitForReady { id } => *id,
            AgentRespEvent::InitCard { id, .. } => *id,
            AgentRespEvent::Role { id, .. } => *id,
            AgentRespEvent::KillTarget { id, .. } => *id,
            AgentRespEvent::StealTarget { id, .. } => *id,
            AgentRespEvent::MagicTarget { id, .. } => *id,
            AgentRespEvent::DestoryTarget { id, .. } => *id,
            AgentRespEvent::Tomb { id, .. } => *id,
            AgentRespEvent::Oper { id, .. } => *id,
            AgentRespEvent::From2 { id, .. } => *id,
            AgentRespEvent::From3 { id, .. } => *id,
        }
    }

    /// The identifier of the request answered.
    pub fn id(&self) -> (r: u32)
        ensures
            r == self.spec_id(),
    {
        match self {
            AgentRespEvent::WaitForReady { id } => *id,
            AgentRespEvent::InitCard { id, .. } => *id,
            AgentRespEvent::Role { id, .. } => *id,
            AgentRespEvent::KillTarget { id, .. } => *id,
            AgentRespEvent::StealTarget { id, .. } => *id,
            AgentRespEvent::MagicTarget { id, .. } => *id,
            AgentRespEvent::DestoryTarget { id, .. } => *id,
            AgentRespEvent::Tomb { id, .. } => *id,
            AgentRespEvent::Oper { id, .. } => *id,
            AgentRespEvent::From2 { id, .. } => *id,
            AgentRespEvent::From3 { id, .. } => *id,
        }
    }

    /// Whether this is the answer to `req`: the same identifier and the
    /// kind of answer the request asks for. Any other answer is dropped
    /// and the request is sent again.
    pub fn answers(&self, req: &AgentReqEvent) -> (r: bool)
        ensures
            r == (self.spec_id() == req.spec_id() && kinds_match(*req, *self)),
    {
        let kind = match req {
            AgentReqEvent::WaitForReady { .. } => matches!(self, AgentRespEvent::WaitForReady { .. }),
            AgentReqEvent::ChooseInitCard { .. } => matches!(self, AgentRespEvent::InitCard { .. }),
            AgentReqEvent::ChooseRole { .. } => matches!(self, AgentRespEvent::Role { .. }),
            AgentReqEvent::ChooseKillTarget { .. } => matches!(self, AgentRespEvent::KillTarget { .. }),
            AgentReqEvent::ChooseStealTarget { .. } => matches!(self, AgentRespEvent::StealTarget { .. }),
            AgentReqEvent::ChooseMagicTarget { .. } => matches!(self, AgentRespEvent::MagicTarget { .. }),
            AgentReqEvent::ChooseDestoryTarget { .. } => matches!(self, AgentRespEvent::DestoryTarget { .. }),
            AgentReqEvent::ChooseTomb { .. } => matches!(self, AgentRespEvent::Tomb { .. }),
            AgentReqEvent::ChooseOper { .. } => matches!(self, AgentRespEvent::Oper { .. }),
            AgentReqEvent::ChooseFrom2 { .. } => matches!(self, AgentRespEvent::From2 { .. }),
            AgentReqEvent::ChooseFrom3 { .. } => matches!(self, AgentRespEvent::From3 { .. }),
        };
        kind && self.id() == req.id()
    }
}

} // verus!
