//! Requests sent to a remote agent.

use vstd::prelude::*;

use crate::domain::card::Card;
use crate::domain::destroy_target::DestroyTarget;
use crate::domain::oper::Oper;
use crate::domain::roleset::RoleSet;
use crate::obs::Obs;

verus! {

/// A request to a remote agent; the agent answers with the same `id`.
#[derive(Clone, Debug)]
pub enum AgentReqEvent {
    WaitForReady { id: u32 },
    ChooseInitCard { id: u32, obs: Obs, c0: Card, c1: Card },
    ChooseRole { id: u32, obs: Obs, roles: RoleSet },
    ChooseKillTarget { id: u32, obs: Obs, choices: RoleSet },
    ChooseStealTarget { id: u32, obs: Obs, choices: RoleSet },
    ChooseMagicTarget { id: u32, obs: Obs },
    ChooseDestoryTarget { id: u32, obs: Obs, choices: Vec<DestroyTarget> },
    ChooseTomb { id: u32, obs: Obs, c: Card },
    ChooseOper { id: u32, obs: Obs, choices: Vec<Oper> },
    ChooseFrom2 { id: u32, obs: Obs, c0: Card, c1: Card },
    ChooseFrom3 { id: u32, obs: Obs, c0: Card, c1: Card, c2: Card },
}

impl AgentReqEvent {
    /// The request's identifier.
    pub open spec fn spec_id(&self) -> u32 {
        match self {
            AgentReqEvent::WaitForReady { id } => *id,
            AgentReqEvent::ChooseInitCard { id, .. } => *id,
            AgentReqEvent::ChooseRole { id, .. } => *id,
            AgentReqEvent::ChooseKillTarget { id, .. } => *id,
            AgentReqEvent::ChooseStealTarget { id, .. } => *id,
            AgentReqEvent::ChooseMagicTarget { id, .. } => *id,
            AgentReqEvent::ChooseDestoryTarget { id, .. } => *id,
            AgentReqEvent::ChooseTomb { id, .. } => *id,
            AgentReqEvent::ChooseOper { id, .. } => *id,
            AgentReqEvent::ChooseFrom2 { id, .. } => *id,
            AgentReqEvent::ChooseFrom3 { id, .. } => *id,
        }
    }

    /// The request's identifier.
    pub fn id(&self) -> (r: u32)
        ensures
            r == self.spec_id(),
    {
        match self {
            AgentReqEvent::WaitForReady { id } => *id,
            AgentReqEvent::ChooseInitCard { id, .. } => *id,
            AgentReqEvent::ChooseRole { id, .. } => *id,
            AgentReqEvent::ChooseKillTarget { id, .. } => *id,
            AgentReqEvent::ChooseStealTarget { id, .. } => *id,
            AgentReqEvent::ChooseMagicTarget { id, .. } => *id,
            AgentReqEvent::ChooseDestoryTarget { id, .. } => *id,
            AgentReqEvent::ChooseTomb { id, .. } => *id,
            AgentReqEvent::ChooseOper { id, .. } => *id,
            AgentReqEvent::ChooseFrom2 { id, .. } => *id,
            AgentReqEvent::ChooseFrom3 { id, .. } => *id,
        }
    }
}

} // verus!
