use llmrc::adapters::{DiscordAdapter, SlackAdapter, TelegramAdapter};
use llmrc::bots::{build_responses, split_message, BotError, BotResponse, ConversationId, ConversationKey};
use llmrc::store::InMemoryBotSessionStore;

#[test]
fn splitting_is_utf8_safe_and_bounded() {
    let parts = split_message("hello 🌍\nworld", 8).unwrap();
    assert!(parts.iter().all(|part| part.len() <= 8));
    assert_eq!(parts.join(""), "hello 🌍\nworld");
}

#[test]
fn splitting_prefers_newlines_then_spaces() {
    assert_eq!(split_message("hello 🌍\nworld", 8).unwrap(), vec!["hello ", "🌍\n", "world"]);
    assert_eq!(split_message("ab cd\nef gh", 8).unwrap(), vec!["ab cd\n", "ef gh"]);
    assert_eq!(split_message("abcdefghij", 4).unwrap(), vec!["abcd", "efgh", "ij"]);
    assert_eq!(split_message("", 4).unwrap(), vec![""]);
    assert!(matches!(split_message("x", 0), Err(BotError::InvalidSplitLimit)));
}

#[test]
fn a_character_wider_than_the_limit_stands_alone() {
    assert_eq!(split_message("é", 1).unwrap(), vec!["é", ""]);
    assert_eq!(split_message("aé", 1).unwrap(), vec!["a", "é", ""]);
}

#[test]
fn event_creates_discord_bot_event() {
    let event = DiscordAdapter::event("channel-123", Some("alice".into()), "hello discord");
    assert_eq!(event.key.platform, "discord");
    assert_eq!(event.key.id.as_str(), "channel-123");
    assert_eq!(event.author.as_deref(), Some("alice"));
    assert_eq!(event.text, "hello discord");
}

#[test]
fn event_creates_slack_bot_event() {
    let event = SlackAdapter::event("C12345", Some("U67890".into()), "hello slack");
    assert_eq!(event.key.platform, "slack");
    assert_eq!(event.key.id.as_str(), "C12345");
    assert_eq!(event.author.as_deref(), Some("U67890"));
    assert_eq!(event.text, "hello slack");
}

#[test]
fn event_creates_telegram_bot_event() {
    let event = TelegramAdapter::event("987654", Some("tg_user".into()), "hello telegram");
    assert_eq!(event.key.platform, "telegram");
    assert_eq!(event.key.id.as_str(), "987654");
    assert_eq!(event.author.as_deref(), Some("tg_user"));
    assert_eq!(event.text, "hello telegram");
}

#[test]
fn lib_response_text_extracts_content() {
    let discord = BotResponse {
        key: ConversationKey::new("discord", "channel-123"),
        text: "pong".into(),
        reply_to: Some("msg-1".into()),
    };
    assert_eq!(DiscordAdapter::response_text(&discord), "pong");
    let slack = BotResponse { key: ConversationKey::new("slack", "C12345"), text: "pong".into(), reply_to: None };
    assert_eq!(SlackAdapter::response_text(&slack), "pong");
    let telegram = BotResponse {
        key: ConversationKey::new("telegram", "987654"),
        text: "pong".into(),
        reply_to: Some("msg-42".into()),
    };
    assert_eq!(TelegramAdapter::response_text(&telegram), "pong");
}

#[test]
fn storage_key_joins_platform_and_id() {
    assert_eq!(ConversationKey::new("slack", "C1").storage_key(), "slack:C1");
    assert_eq!(ConversationKey::default().storage_key(), ":");
    assert_eq!(ConversationId::from("abc".to_string()).as_str(), "abc");
}

#[test]
fn responses_answer_the_event_in_parts() {
    let key = ConversationKey::new("discord", "c");
    let responses = build_responses(&key, &Some("m1".to_string()), "one two three", 8).unwrap();
    let texts: Vec<&str> = responses.iter().map(|r| r.text.as_str()).collect();
    assert_eq!(texts, vec!["one two ", "three"]);
    assert!(responses.iter().all(|r| r.key == key && r.reply_to.as_deref() == Some("m1")));
}

#[test]
fn bot_sessions_are_kept_per_conversation() {
    let mut store = InMemoryBotSessionStore::new();
    let one = ConversationKey::new("test", "one");
    let two = ConversationKey::new("test", "two");
    assert!(store.load(&one).is_none());
    let mut session = llmrc::bots::fresh_session(&one);
    session = llmrc::bots::session_after_event(session);
    store.save(session);
    assert_eq!(store.load(&one).map(|s| s.messages_seen), Some(1));
    assert!(store.load(&two).is_none());
    let again = llmrc::bots::session_after_event(store.load(&one).unwrap());
    store.save(again);
    assert_eq!(store.load(&one).map(|s| s.messages_seen), Some(2));
}

#[test]
fn responses_join_back_into_the_reply() {
    let key = ConversationKey::new("slack", "c");
    let reply = "alpha beta gamma delta epsilon";
    let responses = build_responses(&key, &None, reply, 11).unwrap();
    assert!(!responses.is_empty());
    let joined: String = responses.iter().map(|r| r.text.as_str()).collect();
    assert_eq!(joined, reply);
    assert!(responses.iter().all(|r| r.text.len() <= 11 && r.key == key && r.reply_to.is_none()));
}

#[test]
fn splitting_cuts_after_a_whole_wide_space() {
    let text = "a\u{3000}bc";
    let parts = split_message(text, 4).unwrap();
    assert_eq!(parts, vec!["a\u{3000}", "bc"]);
    assert_eq!(parts.concat(), text);
    let spaced = "xy\u{2003}z\u{2003}uvw";
    let parts = split_message(spaced, 6).unwrap();
    assert_eq!(parts.concat(), spaced);
    assert!(parts.iter().all(|p| p.len() <= 6));
}
