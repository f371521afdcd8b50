//! What each command of the bot asks for.

pub mod osu;
pub mod ping;
