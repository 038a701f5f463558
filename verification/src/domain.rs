//! The game's vocabulary: roles, cards, camps, seats and the sets built on them.

pub mod agent_req_event;
pub mod agent_resp_event;
pub mod camp;
pub mod card;
pub mod color;
pub mod destroy_target;
pub mod magician_skill;
pub mod oper;
pub mod option_offset;
pub mod option_role;
pub mod player_index;
pub mod player_offset;
pub mod player_offset_set;
pub mod role;
pub mod role_offset_pair;
pub mod roleset;

pub use agent_req_event::AgentReqEvent;
pub use agent_resp_event::AgentRespEvent;
pub use camp::Camp;
pub use card::Card;
pub use color::Color;
pub use option_role::OptionRole;
pub use role::Role;
pub use roleset::RoleSet;
pub use destroy_target::DestroyTarget;
pub use magician_skill::MagicianSkill;
pub use oper::Oper;
pub use option_offset::OptionOffset;
pub use player_index::PlayerIndex;
pub use player_offset::PlayerOffset;
pub use player_offset_set::PlayerOffsetSet;
pub use role_offset_pair::OptionRoleOffsetPair;
