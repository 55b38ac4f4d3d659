//! Verified argument tokenizer and cursor for a chat bot.
//!
//! Commands arrive as free text. Before a command runs, the raw remainder of
//! the message is split into discrete argument tokens (unquoted, or quoted
//! with backslash escaping) and each token is converted into a typed value.
//! The grammar engine lives in [`arg_parser`]; the stateful cursor over one
//! message's remaining text lives in [`args`]. The other modules hold the
//! verified computations behind individual bot commands: reset-time
//! arithmetic, duration phrasing, dictionary key namespacing, and die rolls.

pub mod arg_parser;
pub mod args;
pub mod dictionary;
pub mod ffxiv;
pub mod misc;
pub mod text;
