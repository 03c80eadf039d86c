use reze_bridge::discord_bot::{FromDiscordEvent, FromMinecraftEvent, MinecraftEvent};
use reze_bridge::event_handler::{bold_first_word, handle_from_dc_to_mc, handle_from_mc_to_dc};

#[test]
fn bold_first_word_splits_at_first_space() {
    assert_eq!(bold_first_word("Steve was slain by Zombie"), "**Steve** was slain by Zombie");
    assert_eq!(bold_first_word("Alex"), "**Alex**");
    assert_eq!(bold_first_word(""), "****");
    assert_eq!(bold_first_word(" leading"), "**** leading");
    assert_eq!(bold_first_word("a  b"), "**a**  b");
    assert_eq!(bold_first_word("tab\tseparated"), "**tab\tseparated**");
}

#[test]
fn chat_goes_to_discord_unchanged() {
    let e = MinecraftEvent::Chat { username: "Steve".to_string(), message: "hi *all*".to_string() };
    assert_eq!(
        handle_from_mc_to_dc(e),
        FromMinecraftEvent { username: "Steve".to_string(), content: "hi *all*".to_string() }
    );
}

#[test]
fn system_events_get_icons_and_bold_names() {
    let death = MinecraftEvent::Death { system_message: "Steve drowned".to_string() };
    assert_eq!(
        handle_from_mc_to_dc(death),
        FromMinecraftEvent { username: "⚰️".to_string(), content: "**Steve** drowned".to_string() }
    );
    let adv = MinecraftEvent::Advancement {
        system_message: "Alex has made the advancement [Stone Age]".to_string(),
    };
    assert_eq!(
        handle_from_mc_to_dc(adv),
        FromMinecraftEvent {
            username: "🏆".to_string(),
            content: "**Alex** has made the advancement [Stone Age]".to_string()
        }
    );
    let join = MinecraftEvent::PlayerJoinLeave {
        system_message: "Alex joined the game".to_string(),
        is_join: true,
    };
    assert_eq!(
        handle_from_mc_to_dc(join),
        FromMinecraftEvent { username: "🟢 ".to_string(), content: "**Alex** joined the game".to_string() }
    );
    let leave = MinecraftEvent::PlayerJoinLeave {
        system_message: "Alex left the game".to_string(),
        is_join: false,
    };
    assert_eq!(
        handle_from_mc_to_dc(leave),
        FromMinecraftEvent { username: "🔴 ".to_string(), content: "**Alex** left the game".to_string() }
    );
}

#[test]
fn discord_message_becomes_tellraw() {
    let e = FromDiscordEvent { username: "bob".to_string(), content: "hello there".to_string() };
    assert_eq!(
        handle_from_dc_to_mc(&e),
        r#"tellraw @a {"text":"[Discord] <bob>: hello there", "color":"gold"}"#
    );
}
