//! What each side receives of the other's events: the RCON command that shows
//! a Discord message in Minecraft, and the Discord message for a Minecraft
//! event.

use vstd::prelude::*;

use crate::discord_bot::{FromDiscordEvent, FromMinecraftEvent, MinecraftEvent, MinecraftEventView};
use crate::text::{
    chars_of, find_from, find_seq, lemma_find_seq_first, lemma_find_seq_none, occurs_at,
    push_chars,
};

verus! {

broadcast use vstd::string::group_string_axioms;

/// The RCON command that shows a Discord message to every player, in gold:
/// `tellraw @a {"text":"[Discord] <name>: content", "color":"gold"}`.
/// The name and content are inserted as they are.
pub open spec fn spec_tellraw_command(username: Seq<char>, content: Seq<char>) -> Seq<char> {
    "tellraw @a {\"text\":\"[Discord] <"@ + username + ">: "@ + content
        + "\", \"color\":\"gold\"}"@
}

/// The RCON command for a message from Discord.
pub fn handle_from_dc_to_mc(event: &FromDiscordEvent) -> (command: String)
    ensures
        command@ == spec_tellraw_command(event.username@, event.content@),
        command@ == "tellraw @a {\"text\":\"[Discord] <"@ + event.username@ + ">: "@
            + event.content@ + "\", \"color\":\"gold\"}"@,
{
    let mut s = String::new();
    s.append("tellraw @a {\"text\":\"[Discord] <");
    s.append(event.username.as_str());
    s.append(">: ");
    s.append(event.content.as_str());
    s.append("\", \"color\":\"gold\"}");
    s
}

/// The command names the Discord user in full, whatever the name's length:
/// right after the opening `<` stands the whole name, then `>: ` and the
/// message, and the command ends with the gold colour setting.
pub proof fn law_tellraw_names_sender(username: Seq<char>, content: Seq<char>)
    ensures
        ({
            let command = spec_tellraw_command(username, content);
            let start: int = "tellraw @a {\"text\":\"[Discord] <"@.len() as int;
            let after: int = start + username.len();
            &&& command.take(start) == "tellraw @a {\"text\":\"[Discord] <"@
            &&& command.subrange(start, after) == username
            &&& command.subrange(after, after + 3) == ">: "@
            &&& command.subrange(after + 3, after + 3 + content.len()) == content
            &&& command.skip(after + 3 + content.len()) == "\", \"color\":\"gold\"}"@
        }),
{
    reveal_strlit(">: ");
    let prefix = "tellraw @a {\"text\":\"[Discord] <"@;
    let suffix = "\", \"color\":\"gold\"}"@;
    let command = spec_tellraw_command(username, content);
    let start: int = prefix.len() as int;
    let after: int = start + username.len();
    assert(command =~= prefix + (username + (">: "@ + (content + suffix))));
    assert(command.take(start) =~= prefix);
    assert(command.subrange(start, after) =~= username);
    assert(command.subrange(after, after + 3) =~= ">: "@);
    assert(command.subrange(after + 3, after + 3 + content.len()) =~= content);
    assert(command.skip(after + 3 + content.len()) =~= suffix);
}

/// `text` with its first word in bold: the part before the first space is
/// put between `**` and `**`; a text without a space is bold as a whole.
pub open spec fn spec_bold_first_word(text: Seq<char>) -> Seq<char> {
    match find_seq(text, seq![' ']) {
        Some(i) => "**"@ + text.take(i) + "** "@ + text.skip(i + 1),
        None => "**"@ + text + "**"@,
    }
}

/// Where `text` has a space, the part before its first space is put in bold
/// and the rest follows after one space, wherever that first space is.
pub proof fn law_bold_first_word_splits(text: Seq<char>, i: int)
    requires
        0 <= i < text.len(),
        text[i] == ' ',
        forall|j: int| 0 <= j < i ==> text[j] != ' ',
    ensures
        spec_bold_first_word(text) == "**"@ + text.take(i) + "** "@ + text.skip(i + 1),
{
    assert(text.subrange(i, i + 1) =~= seq![' ']);
    assert forall|j: int| 0 <= j < i implies !occurs_at(text, seq![' '], j) by {
        assert(text.subrange(j, j + 1)[0] == text[j]);
    }
    lemma_find_seq_first(text, seq![' '], i);
}

/// A text without a space is put in bold as a whole.
pub proof fn law_bold_first_word_whole(text: Seq<char>)
    requires
        forall|j: int| 0 <= j < text.len() ==> text[j] != ' ',
    ensures
        spec_bold_first_word(text) == "**"@ + text + "**"@,
{
    assert forall|j: int| !occurs_at(text, seq![' '], j) by {
        if 0 <= j < text.len() {
            assert(text.subrange(j, j + 1)[0] == text[j]);
        }
    }
    lemma_find_seq_none(text, seq![' ']);
}

/// Puts the first word of `text` in bold.
pub fn bold_first_word(text: &str) -> (res: String)
    ensures
        res@ == spec_bold_first_word(text@),
{
    let v = chars_of(text);
    let space = chars_of(" ");
    proof {
        reveal_strlit(" ");
        assert(space@ =~= seq![' ']);
    }
    let mut s = String::new();
    s.append("**");
    match find_from(&v, &space, 0) {
        Some(i) => {
            proof {
                lemma_find_seq_first(v@, space@, i as int);
            }
            push_chars(&mut s, &v, 0, i);
            s.append("** ");
            push_chars(&mut s, &v, i + 1, v.len());
            proof {
                assert(v@.subrange(0, i as int) =~= text@.take(i as int));
                assert(v@.subrange(i + 1, v.len() as int) =~= text@.skip(i + 1));
            }
        },
        None => {
            proof {
                lemma_find_seq_none(v@, space@);
            }
            push_chars(&mut s, &v, 0, v.len());
            s.append("**");
            proof {
                assert(v@.subrange(0, v.len() as int) =~= text@);
            }
        },
    }
    s
}

/// The name and content under which a Minecraft event appears in Discord:
/// chat under the player's name; a death, an advancement or a join or leave
/// under its icon, with the first word of the server's message in bold.
pub open spec fn spec_discord_payload(event: MinecraftEventView) -> (Seq<char>, Seq<char>) {
    match event {
        MinecraftEventView::Chat { username, message } => (username, message),
        MinecraftEventView::Death { system_message } => (
            "⚰️"@,
            spec_bold_first_word(system_message),
        ),
        MinecraftEventView::Advancement { system_message } => (
            "🏆"@,
            spec_bold_first_word(system_message),
        ),
        MinecraftEventView::PlayerJoinLeave { system_message, is_join } => (
            if is_join {
                "🟢 "@
            } else {
                "🔴 "@
            },
            spec_bold_first_word(system_message),
        ),
    }
}

/// A player's join is shown under the join icon with the player's name in
/// bold: `name joined the game` becomes `**name** joined the game`.
pub proof fn law_join_message(name: Seq<char>)
    requires
        forall|j: int| 0 <= j < name.len() ==> name[j] != ' ',
    ensures
        spec_discord_payload(
            MinecraftEventView::PlayerJoinLeave {
                system_message: name + " joined the game"@,
                is_join: true,
            },
        ) == ("🟢 "@, "**"@ + name + "** joined the game"@),
{
    reveal_strlit(" joined the game");
    reveal_strlit("** joined the game");
    reveal_strlit("** ");
    let text = name + " joined the game"@;
    let i = name.len() as int;
    assert(text[i] == ' ');
    law_bold_first_word_splits(text, i);
    assert(text.take(i) =~= name);
    let rest = text.skip(i + 1);
    assert("** "@ + rest =~= "** joined the game"@);
    assert("**"@ + text.take(i) + "** "@ + rest =~= "**"@ + name + "** joined the game"@) by {
        assert("**"@ + name + "** "@ + rest =~= "**"@ + name + ("** "@ + rest));
    }
}

/// The Discord message for a Minecraft event.
pub fn handle_from_mc_to_dc(event: MinecraftEvent) -> (payload: FromMinecraftEvent)
    ensures
        (payload.username@, payload.content@) == spec_discord_payload(event@),
{
    match event {
        MinecraftEvent::Chat { username, message } => FromMinecraftEvent {
            username,
            content: message,
        },
        MinecraftEvent::Death { system_message } => FromMinecraftEvent {
            username: String::from_str("⚰️"),
            content: bold_first_word(system_message.as_str()),
        },
        MinecraftEvent::Advancement { system_message } => FromMinecraftEvent {
            username: String::from_str("🏆"),
            content: bold_first_word(system_message.as_str()),
        },
        MinecraftEvent::PlayerJoinLeave { system_message, is_join } => {
            let icon = if is_join {
                "🟢 "
            } else {
                "🔴 "
            };
            FromMinecraftEvent {
                username: String::from_str(icon),
                content: bold_first_word(system_message.as_str()),
            }
        },
    }
}

} // verus!
