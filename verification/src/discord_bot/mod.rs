//! The events that travel between the Minecraft side and the Discord side.

use vstd::prelude::*;

pub mod commands;
pub mod dc_bot;

verus! {

/// A message relayed from Minecraft to the bridged Discord channels.
#[derive(Debug, Clone, PartialEq, Eq)]
pub struct FromMinecraftEvent {
    pub username: String,
    pub content: String,
}

/// A message relayed from a bridged Discord channel to Minecraft.
#[derive(Debug, Clone, PartialEq, Eq)]
pub struct FromDiscordEvent {
    pub username: String,
    pub content: String,
}

/// What a line of the Minecraft server log reports.
#[derive(Debug, Clone, PartialEq, Eq)]
pub enum MinecraftEvent {
    Chat { username: String, message: String },
    Death { system_message: String },
    Advancement { system_message: String },
    PlayerJoinLeave { system_message: String, is_join: bool },
}

/// The mathematical value of a [`MinecraftEvent`].
pub enum MinecraftEventView {
    Chat { username: Seq<char>, message: Seq<char> },
    Death { system_message: Seq<char> },
    Advancement { system_message: Seq<char> },
    PlayerJoinLeave { system_message: Seq<char>, is_join: bool },
}

impl View for MinecraftEvent {
    type V = MinecraftEventView;

    open spec fn view(&self) -> MinecraftEventView {
        match self {
            MinecraftEvent::Chat { username, message } => MinecraftEventView::Chat {
                username: username@,
                message: message@,
            },
            MinecraftEvent::Death { system_message } => MinecraftEventView::Death {
                system_message: system_message@,
            },
            MinecraftEvent::Advancement { system_message } => MinecraftEventView::Advancement {
                system_message: system_message@,
            },
            MinecraftEvent::PlayerJoinLeave { system_message, is_join } =>
                MinecraftEventView::PlayerJoinLeave {
                system_message: system_message@,
                is_join: *is_join,
            },
        }
    }
}

/// The view of an optional event.
pub open spec fn event_option_view(e: Option<MinecraftEvent>) -> Option<MinecraftEventView> {
    match e {
        Some(e) => Some(e@),
        None => None,
    }
}

} // verus!
