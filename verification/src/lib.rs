//! The decision logic of a bridge between a Minecraft server and Discord:
//! reading the server log, turning log lines and chat messages into the
//! messages each side receives, the set of bridged channels and its storage,
//! and the text of the bot's replies.

pub mod discord_bot;
pub mod event_handler;
pub mod mc_log;
pub mod storage;
pub mod text;
