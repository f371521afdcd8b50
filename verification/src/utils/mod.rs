//! What the commands share: telling how long ago something was, the choices
//! of the commands that look players up, and where maps are kept.

pub mod beatmap;
pub mod datetime;
pub mod osu;
pub mod words;
