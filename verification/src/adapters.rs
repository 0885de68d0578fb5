//! Mappings between chat platforms and platform-neutral bot events.

use crate::bots::{BotEvent, BotResponse, ConversationKey};
use vstd::prelude::*;

verus! {

/// The event of a message on `platform`, with the platform tag on its key.
fn platform_event(platform: &str, channel_id: &str, author: Option<String>, text: &str) -> (e: BotEvent)
    ensures
        e.key.platform@ == platform@,
        e.key.id@ == channel_id@,
        e.message_id is None,
        e.author == author,
        e.text@ == text@,
{
    BotEvent {
        key: ConversationKey::new(platform, channel_id),
        message_id: None,
        author,
        text: text.to_owned(),
    }
}

/// Discord event mapping.
#[derive(Debug, Clone, Copy, Default)]
pub struct DiscordAdapter;

impl DiscordAdapter {
    /// The event of a message in a Discord channel.
    pub fn event(channel_id: &str, author: Option<String>, text: &str) -> (e: BotEvent)
        ensures
            e.key.platform@ == "discord"@,
            e.key.id@ == channel_id@,
            e.message_id is None,
            e.author == author,
            e.text@ == text@,
    {
        platform_event("discord", channel_id, author, text)
    }

    /// The text to post for a reply.
    pub fn response_text(response: &BotResponse) -> (t: &str)
        ensures
            t@ == response.text@,
    {
        response.text.as_str()
    }
}

/// Slack event mapping.
#[derive(Debug, Clone, Copy, Default)]
pub struct SlackAdapter;

impl SlackAdapter {
    /// The event of a message in a Slack channel.
    pub fn event(channel_id: &str, author: Option<String>, text: &str) -> (e: BotEvent)
        ensures
            e.key.platform@ == "slack"@,
            e.key.id@ == channel_id@,
            e.message_id is None,
            e.author == author,
            e.text@ == text@,
    {
        platform_event("slack", channel_id, author, text)
    }

    /// The text to post for a reply.
    pub fn response_text(response: &BotResponse) -> (t: &str)
        ensures
            t@ == response.text@,
    {
        response.text.as_str()
    }
}

/// Telegram event mapping.
#[derive(Debug, Clone, Copy, Default)]
pub struct TelegramAdapter;

impl TelegramAdapter {
    /// The event of a message in a Telegram chat.
    pub fn event(chat_id: &str, author: Option<String>, text: &str) -> (e: BotEvent)
        ensures
            e.key.platform@ == "telegram"@,
            e.key.id@ == chat_id@,
            e.message_id is None,
            e.author == author,
            e.text@ == text@,
    {
        platform_event("telegram", chat_id, author, text)
    }

    /// The text to post for a reply.
    pub fn response_text(response: &BotResponse) -> (t: &str)
        ensures
            t@ == response.text@,
    {
        response.text.as_str()
    }
}

} // verus!
