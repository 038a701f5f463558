//! The rules engine of a team edition of the Citadels card game.

pub mod bit;
pub mod rng;
pub mod deck;
pub mod domain;
pub mod fa_agents;
pub mod fyi_agents;
pub mod obs;
pub mod player;
pub mod player_indexed_vec;
pub mod game;
pub mod history;
pub mod id_gen;
