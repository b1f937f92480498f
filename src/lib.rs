//! A text-based shared world: command parsing, login, movement, combat,
//! restraint and trade, each stated over plain values and proved.
pub mod admin;
pub mod chains;
pub mod combat;
pub mod command;
pub mod consume;
pub mod economy;
pub mod fight;
pub mod lock;
pub mod login;
pub mod look;
pub mod movement;
pub mod restraint;
pub mod rng;
pub mod session;
pub mod stream;
pub mod sweep;
pub mod text;
pub mod trade;
pub mod weather;
pub mod world;
