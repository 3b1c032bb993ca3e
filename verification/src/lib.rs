//! A verified library for managing game mods: the games it knows, the mod database, its
//! conflicts, profiles and settings, and the decisions behind the NexusMods API.

use vstd::prelude::*;

pub mod conflicts;
pub mod dedup;
mod external;
pub mod extraction;
pub mod game_definitions;
pub mod installation;
pub mod mod_manager;
pub mod nexusmods_api;
pub mod profiles;
pub mod settings;
pub mod text;
