//! Control protocol, player decisions and front-end logic of a small
//! mpv-based media caster.

pub mod browse;
pub mod cli;
pub mod codec;
pub mod comms;
pub mod duration;
pub mod formats;
pub mod frontend;
pub mod mpvcast;
pub mod player;
pub mod wire;
pub mod text;
