use reze_bridge::discord_bot::commands::{
    create_welcome_embed, decode_favicon, event_handler, help, info, info_help, info_reply,
    is_owner_or_admin, parse_online_players, ping_help, ping_reply, players_description,
    remove_all_of, reply_command_help, start_bridge, start_bridge_help, stop_bridge, Access,
    BotAction, BotEvent, CommandHelp, CommandInfo, HelpReply, JavaStatusInfo,
};
use reze_bridge::storage::{load_bridge_channels, ReadOutcome};
use reze_bridge::discord_bot::dc_bot::BridgeList;
use reze_bridge::discord_bot::FromDiscordEvent;

#[test]
fn help_texts() {
    assert_eq!(ping_help(), "Use this to check if I'm alive!");
    assert_eq!(
        info_help(),
        "Get full detailed list of real-time online players and active server metadata."
    );
    assert_eq!(start_bridge_help(), "Use in a channel to bridge it with Minecraft chat");
}

#[test]
fn bridging_replies() {
    let mut b = BridgeList::new();
    let started = start_bridge(&mut b, 42);
    assert_eq!(started.reply, "🟢 **Bridge Established!** Minecraft chat will now sync to <#42>.");
    assert_eq!(started.stored, "[42]");
    assert_eq!(b.targets(), Some(vec![42]));
    let stopped = stop_bridge(&mut b, 42);
    let e = stopped.reply.unwrap();
    assert_eq!(e.title, "🛑 Bridge Severed!");
    assert_eq!(e.description, "The live-chat stream to <#42> has been disconnected.");
    assert_eq!(e.color, 0xe74c3c);
    assert_eq!(stopped.stored, "[]");
    assert_eq!(b.targets(), None);
    assert!(stop_bridge(&mut b, 42).reply.is_none());
}

#[test]
fn bridged_channels_survive_a_restart() {
    let mut b = BridgeList::new();
    start_bridge(&mut b, 5);
    start_bridge(&mut b, 9);
    assert_eq!(start_bridge(&mut b, 7).stored, "[5,9,7]");
    let stored = stop_bridge(&mut b, 9).stored;
    assert_eq!(stored, "[5,7]");
    let ids = load_bridge_channels(ReadOutcome::Contents(stored)).unwrap();
    let restored = BridgeList::from_ids(&ids);
    assert_eq!(restored.targets(), Some(vec![5, 7]));
    assert_eq!(restored.targets(), b.targets());
}

#[test]
fn owners_and_admins_are_authorized() {
    let owners = vec![1314616785156444175u64];
    let denied = "❌ **Access Denied:** This command is restricted to the Bot Owner and Server Administrators.";
    assert!(matches!(is_owner_or_admin(&owners, 1314616785156444175, None), Access::Granted));
    assert!(matches!(is_owner_or_admin(&owners, 7, Some(true)), Access::Granted));
    match is_owner_or_admin(&owners, 7, Some(false)) {
        Access::Denied { reply } => assert_eq!(reply, denied),
        Access::Granted => panic!("expected a refusal"),
    }
    assert!(matches!(is_owner_or_admin(&owners, 7, None), Access::Denied { .. }));
    assert!(matches!(is_owner_or_admin(&vec![], 7, None), Access::Denied { .. }));
}

#[test]
fn ping_reply_text() {
    assert_eq!(ping_reply(), "UwU Helloo!");
}

#[test]
fn welcome_embed_text() {
    let w = create_welcome_embed("<@123>", Some(57));
    assert_eq!(w.title, "💥 A New Target Approaches! 💥");
    assert_eq!(
        w.description,
        "Welcome to the server, <@123>! Let's hope things don't get too... explosive. 🤫"
    );
    assert_eq!(w.footer, "Member Count: #57");
    assert_eq!(w.color, 0x9b59b6);
    assert_eq!(create_welcome_embed("<@1>", None).footer, "Member Count: #0");
}

#[test]
fn discord_messages_relay_only_from_bridged_channels() {
    let mut b = BridgeList::new();
    b.start_bridge(10);
    let msg = |channel_id: u64, author_id: u64| BotEvent::Message {
        channel_id,
        author_id,
        author_name: "bob".to_string(),
        content: "hi".to_string(),
        bot_id: 99,
    };
    match event_handler(msg(10, 5), &b) {
        BotAction::Relay(e) => assert_eq!(
            e,
            FromDiscordEvent { username: "bob".to_string(), content: "hi".to_string() }
        ),
        _ => panic!("expected a relay"),
    }
    assert!(matches!(event_handler(msg(11, 5), &b), BotAction::Nothing));
    assert!(matches!(event_handler(msg(10, 99), &b), BotAction::Nothing));
    assert!(matches!(event_handler(msg(10, 5), &BridgeList::new()), BotAction::Nothing));
    assert!(matches!(event_handler(BotEvent::Other, &b), BotAction::Nothing));
    match event_handler(BotEvent::Ready { bot_name: "Reze".to_string() }, &b) {
        BotAction::Log(l) => assert_eq!(l, "Logged in as Reze"),
        _ => panic!("expected a log line"),
    }
    match event_handler(
        BotEvent::MemberJoined { mention: "<@3>".to_string(), member_count: Some(2) },
        &b,
    ) {
        BotAction::Welcome(w) => assert_eq!(w.footer, "Member Count: #2"),
        _ => panic!("expected a welcome"),
    }
}

fn commands() -> Vec<CommandInfo> {
    vec![
        CommandInfo {
            name: "ping".to_string(),
            description: Some("Check if I'm alive!".to_string()),
            help_text: Some("Use this to check if I'm alive!".to_string()),
        },
        CommandInfo { name: "stop_bridge".to_string(), description: None, help_text: None },
    ]
}

#[test]
fn help_overview_lists_commands() {
    match help(&commands(), None) {
        HelpReply::Overview(o) => {
            assert_eq!(o.title, "💥 Hello! こんにちは！~\n\n");
            assert_eq!(o.description, "Here's a list of all the commands you can use:");
            assert_eq!(o.color, 0x3498db);
            let fields = o.fields;
            assert_eq!(fields.len(), 2);
            assert_eq!(fields[0].name, "`~ping`");
            assert_eq!(fields[0].value, "Check if I'm alive!");
            assert!(!fields[0].inline);
            assert_eq!(fields[1].name, "`~stop_bridge`");
            assert_eq!(fields[1].value, "No description provided.");
        }
        _ => panic!("expected the overview"),
    }
}

#[test]
fn help_for_one_command() {
    match reply_command_help(&commands(), "ping") {
        CommandHelp::Found { title, description, color } => {
            assert_eq!(color, 0x3498db);
            assert_eq!(title, "ℹ️ Detailed Help: /ping");
            assert_eq!(description, "Use this to check if I'm alive!");
        }
        _ => panic!("expected the command"),
    }
    match help(&commands(), Some("stop_bridge".to_string())) {
        HelpReply::Command(CommandHelp::Found { description, .. }) => {
            assert_eq!(description, "No detailed documentation available for this command.")
        }
        _ => panic!("expected the command"),
    }
    match reply_command_help(&commands(), "nope") {
        CommandHelp::NotFound { message } => assert_eq!(message, "❌ Command `nope` not found."),
        _ => panic!("expected not found"),
    }
}

#[test]
fn online_players_are_read_from_the_list_answer() {
    assert_eq!(
        parse_online_players("There are 2 of a max of 20 players online: alice, bob"),
        vec!["alice".to_string(), "bob".to_string()]
    );
    assert_eq!(
        parse_online_players("There are 0 of a max of 20 players online: "),
        Vec::<String>::new()
    );
    assert_eq!(parse_online_players("Unknown command"), Vec::<String>::new());
    assert_eq!(
        parse_online_players("online: a,,  b c ,\u{a0}d\t, online: e"),
        vec!["a".to_string(), "b c".to_string(), "d".to_string(), "online: e".to_string()]
    );
}

#[test]
fn players_description_text() {
    assert_eq!(
        players_description(&vec![], 3),
        "⚠️ *Failed to safely map names via RCON, but players are active.*"
    );
    assert_eq!(players_description(&vec![], 0), "*No players are currently online.*");
    assert_eq!(
        players_description(&vec!["alice".to_string(), "bob".to_string()], 2),
        "👥 **Current Online Players:**\n\n1. `alice`\n2. `bob`\n"
    );
}

#[test]
fn favicon_header_is_removed_and_decoded() {
    assert_eq!(remove_all_of("xxabxxab", "ab"), "xxxx");
    assert_eq!(remove_all_of("aaa", "aa"), "a");
    assert_eq!(remove_all_of("abc", ""), "abc");
    assert_eq!(decode_favicon("data:image/png;base64,aGVsbG8="), Some(b"hello".to_vec()));
    assert_eq!(decode_favicon("aGVsbG8="), Some(b"hello".to_vec()));
    assert_eq!(decode_favicon("data:image/png;base64,@@@"), None);
}

#[test]
fn info_reply_from_status() {
    let status = JavaStatusInfo {
        description: "A Minecraft Server".to_string(),
        favicon: Some("data:image/png;base64,aGk=".to_string()),
        online: 1,
        max: 10,
    };
    let r = info("There are 1 of a max of 10 players online: Steve", Some(status));
    assert_eq!(r.title, "🎮 A Minecraft Server");
    assert_eq!(r.description, "👥 **Current Online Players:**\n\n1. `Steve`\n");
    assert_eq!(r.players_field, "`1/10`");
    assert_eq!(r.latency_field, "`0.0ms`");
    assert_eq!(r.players_label, "Players Online");
    assert_eq!(r.latency_label, "Latency");
    assert_eq!(r.color, 0x9b59b6);
    assert_eq!(r.icon, Some(b"hi".to_vec()));

    let r = info("nothing", None);
    assert_eq!(r.title, "🎮 Minecraft Server Status");
    assert_eq!(r.description, "*No players are currently online.*");
    assert_eq!(r.players_field, "`0/20`");
    assert_eq!(r.icon, None);

    let r = info_reply(&vec![], "m", -1, i64::MIN, None);
    assert_eq!(r.players_field, "`-1/-9223372036854775808`");
}
