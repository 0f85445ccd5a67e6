//! Real-time text expansion: a rolling buffer of recently typed characters, a
//! matcher that finds marker-prefixed triggers such as `::hello` in it, and the
//! decisions of the engine that drives both from keyboard events and hands
//! detected triggers to an expansion task.

pub mod text;
pub mod clock;
pub mod triggers;
pub mod buffer;
pub mod keyboard;
pub mod engine;
pub mod expansion;
pub mod dto;
pub mod cli;
pub mod query;
pub mod snippet_query;
