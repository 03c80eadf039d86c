//! The bot's commands and its answers to Discord events: help texts,
//! bridging and unbridging channels, the server-status reply, the welcome
//! message, and which Discord messages reach Minecraft.

use vstd::prelude::*;

use crate::discord_bot::dc_bot::{
    bridge_wf, is_bridged, spec_start_bridge, spec_stop_bridge, stored_ids, BridgeList,
};
use crate::storage::{json_id_list, save_bridge_channels};
use crate::discord_bot::FromDiscordEvent;
use crate::text::{
    chars_of, contains_seq, decimal, decimal_value, find_from, is_ascii_digit, lemma_decimal_reads_back, is_white_space, lemma_trim_shape, occurs_at, find_seq, lemma_find_seq_occurs, lemma_find_seq_skip,
    lemma_find_seq_first, lemma_find_seq_none, trim_end, trim_start,
    push_chars, push_decimal, push_signed_decimal, signed_decimal, string_of, trim, trim_bounds,
};

verus! {

broadcast use vstd::string::group_string_axioms;

// ---------------------------------------------------------------------------
// Help texts
// ---------------------------------------------------------------------------

/// The detailed help of the `ping` command.
pub fn ping_help() -> (res: String)
    ensures
        res@ == "Use this to check if I'm alive!"@,
{
    String::from_str("Use this to check if I'm alive!")
}

/// The detailed help of the `info` command.
pub fn info_help() -> (res: String)
    ensures
        res@ == "Get full detailed list of real-time online players and active server metadata."@,
{
    String::from_str("Get full detailed list of real-time online players and active server metadata.")
}

/// The detailed help of the `start_bridge` command.
pub fn start_bridge_help() -> (res: String)
    ensures
        res@ == "Use in a channel to bridge it with Minecraft chat"@,
{
    String::from_str("Use in a channel to bridge it with Minecraft chat")
}

// ---------------------------------------------------------------------------
// Bridging
// ---------------------------------------------------------------------------

/// A channel mention: `<#id>`.
pub open spec fn channel_mention(channel: u64) -> Seq<char> {
    "<#"@ + decimal(channel as nat) + ">"@
}

/// `text` is `head`, then a non-empty run of digits whose value is `channel`,
/// then `tail`.
pub open spec fn names_channel_between(text: Seq<char>, head: Seq<char>, tail: Seq<char>, channel: u64) -> bool {
    let digits = text.subrange(head.len() as int, text.len() - tail.len());
    &&& head.len() + tail.len() < text.len()
    &&& text.take(head.len() as int) == head
    &&& text.skip(text.len() - tail.len()) == tail
    &&& forall|k: int| 0 <= k < digits.len() ==> is_ascii_digit(#[trigger] digits[k])
    &&& decimal_value(digits) == channel as int
}

proof fn lemma_mention_between(before: Seq<char>, after: Seq<char>, channel: u64)
    ensures
        names_channel_between(
            before + channel_mention(channel) + after,
            before + "<#"@,
            ">"@ + after,
            channel,
        ),
{
    reveal_strlit("<#");
    reveal_strlit(">");
    let d = decimal(channel as nat);
    lemma_decimal_reads_back(channel as nat);
    let text = before + channel_mention(channel) + after;
    let head = before + "<#"@;
    let tail = ">"@ + after;
    assert(text =~= head + d + tail);
    assert(text.take(head.len() as int) =~= head);
    assert(text.skip(text.len() - tail.len()) =~= tail);
    assert(text.subrange(head.len() as int, text.len() - tail.len()) =~= d);
}

/// A mention names the channel itself, for every 64-bit id: between `<#`
/// and `>` stand digits that read back as the channel's id.
pub proof fn law_mention_names_channel(channel: u64)
    ensures
        names_channel_between(channel_mention(channel), "<#"@, ">"@, channel),
{
    lemma_mention_between(Seq::empty(), Seq::empty(), channel);
    assert(Seq::<char>::empty() + channel_mention(channel) + Seq::<char>::empty() =~= channel_mention(channel));
    assert(Seq::<char>::empty() + "<#"@ =~= "<#"@);
    assert(">"@ + Seq::<char>::empty() =~= ">"@);
}

/// The reply to bridging a channel names that channel: the digits between
/// its `<#` and `>` read back as the channel's id, whatever the id.
pub proof fn law_bridge_reply_names_channel(channel: u64)
    ensures
        names_channel_between(
            bridge_established_text(channel),
            "🟢 **Bridge Established!** Minecraft chat will now sync to <#"@,
            ">."@,
            channel,
        ),
{
    reveal_strlit("🟢 **Bridge Established!** Minecraft chat will now sync to ");
    reveal_strlit("🟢 **Bridge Established!** Minecraft chat will now sync to <#");
    reveal_strlit("<#");
    reveal_strlit(">");
    reveal_strlit(".");
    reveal_strlit(">.");
    let before = "🟢 **Bridge Established!** Minecraft chat will now sync to "@;
    lemma_mention_between(before, "."@, channel);
    assert(before + "<#"@ =~= "🟢 **Bridge Established!** Minecraft chat will now sync to <#"@);
    assert(">"@ + "."@ =~= ">."@);
}

/// The message that confirms unbridging names the channel that was
/// unbridged: the digits between its `<#` and `>` read back as its id.
pub proof fn law_stop_reply_names_channel(channel: u64)
    ensures
        names_channel_between(
            "The live-chat stream to "@ + channel_mention(channel) + " has been disconnected."@,
            "The live-chat stream to <#"@,
            "> has been disconnected."@,
            channel,
        ),
{
    reveal_strlit("The live-chat stream to ");
    reveal_strlit("The live-chat stream to <#");
    reveal_strlit("<#");
    reveal_strlit(">");
    reveal_strlit(" has been disconnected.");
    reveal_strlit("> has been disconnected.");
    let before = "The live-chat stream to "@;
    let after = " has been disconnected."@;
    lemma_mention_between(before, after, channel);
    assert(before + "<#"@ =~= "The live-chat stream to <#"@);
    assert(">"@ + after =~= "> has been disconnected."@);
}

/// Appends `<#id>`.
fn push_channel_mention(s: &mut String, channel: u64)
    ensures
        final(s)@ == old(s)@ + channel_mention(channel),
{
    s.append("<#");
    push_decimal(s, channel);
    s.append(">");
}

/// The reply to `start_bridge`.
pub open spec fn bridge_established_text(channel: u64) -> Seq<char> {
    "🟢 **Bridge Established!** Minecraft chat will now sync to "@ + channel_mention(channel) + "."@
}

/// The outcome of `start_bridge`: the reply, and the text to store so that
/// the bridged channels survive a restart.
pub struct BridgeStarted {
    pub reply: String,
    pub stored: String,
}

/// Bridges `channel` with Minecraft chat; gives the reply and the text to
/// store.
pub fn start_bridge(bridge: &mut BridgeList, channel: u64) -> (res: BridgeStarted)
    ensures
        bridge_wf(final(bridge)@),
        final(bridge)@ == spec_start_bridge(old(bridge)@, channel),
        res.reply@ == bridge_established_text(channel),
        res.stored@ == json_id_list(stored_ids(final(bridge)@)),
{
    bridge.start_bridge(channel);
    let mut s = String::from_str("🟢 **Bridge Established!** Minecraft chat will now sync to ");
    push_channel_mention(&mut s, channel);
    s.append(".");
    let ids = bridge.stored_ids();
    BridgeStarted { reply: s, stored: save_bridge_channels(ids.as_slice()) }
}

/// The embed that confirms that a channel is no longer bridged.
pub struct StopEmbed {
    pub title: String,
    pub description: String,
    pub color: u32,
}

/// The outcome of `stop_bridge`: the reply, where there is one, and the text
/// to store so that the bridged channels survive a restart.
pub struct BridgeStopped {
    pub reply: Option<StopEmbed>,
    pub stored: String,
}

/// Unbridges `channel`. Where it was bridged, the reply says so; where it
/// was not, there is no reply. Gives the text to store as well.
pub fn stop_bridge(bridge: &mut BridgeList, channel: u64) -> (res: BridgeStopped)
    ensures
        bridge_wf(final(bridge)@),
        final(bridge)@ == spec_stop_bridge(old(bridge)@, channel),
        res.reply is Some == is_bridged(old(bridge)@, channel),
        res.reply matches Some(e) ==> {
            &&& e.title@ == "🛑 Bridge Severed!"@
            &&& e.description@ == "The live-chat stream to "@ + channel_mention(channel)
                + " has been disconnected."@
            &&& e.color == 0xe74c3c
        },
        res.stored@ == json_id_list(stored_ids(final(bridge)@)),
{
    let reply = if bridge.stop_bridge(channel) {
        let mut d = String::from_str("The live-chat stream to ");
        push_channel_mention(&mut d, channel);
        d.append(" has been disconnected.");
        Some(StopEmbed { title: String::from_str("🛑 Bridge Severed!"), description: d, color: 0xe74c3c })
    } else {
        None
    };
    let ids = bridge.stored_ids();
    BridgeStopped { reply, stored: save_bridge_channels(ids.as_slice()) }
}

/// The reply of `ping`.
pub fn ping_reply() -> (res: String)
    ensures
        res@ == "UwU Helloo!"@,
{
    String::from_str("UwU Helloo!")
}

/// The reply to a user who may not run a restricted command.
pub open spec fn access_denied_text() -> Seq<char> {
    "❌ **Access Denied:** This command is restricted to the Bot Owner and Server Administrators."@
}

/// Whether a user may run the restricted commands.
pub enum Access {
    Granted,
    /// Refused; the reply to send.
    Denied { reply: String },
}

/// May `user` run the restricted commands? Owners may; so may a member of
/// whom the server says that they are an administrator (`has_admin`, where
/// it could be found out). Anyone else is refused with a reply.
pub fn is_owner_or_admin(owners: &Vec<u64>, user: u64, has_admin: Option<bool>) -> (res: Access)
    ensures
        res is Granted == (owners@.contains(user) || has_admin == Some(true)),
        res matches Access::Denied { reply } ==> reply@ == access_denied_text(),
{
    let mut i: usize = 0;
    while i < owners.len()
        invariant
            i <= owners.len(),
            forall|j: int| 0 <= j < i ==> owners@[j] != user,
        decreases owners.len() - i,
    {
        if owners[i] == user {
            return Access::Granted;
        }
        i += 1;
    }
    match has_admin {
        Some(true) => Access::Granted,
        _ => Access::Denied {
            reply: String::from_str(
                "❌ **Access Denied:** This command is restricted to the Bot Owner and Server Administrators.",
            ),
        },
    }
}

// ---------------------------------------------------------------------------
// Discord events
// ---------------------------------------------------------------------------

/// The embed that welcomes a new member.
pub struct WelcomeEmbed {
    pub title: String,
    pub description: String,
    pub thumbnail: String,
    pub footer: String,
    pub color: u32,
}

/// `w` welcomes a member, addressed by `mention`, to a server with
/// `member_count` members (0 where that is not known).
pub open spec fn is_welcome_embed(w: WelcomeEmbed, mention: Seq<char>, member_count: Option<u64>) -> bool {
    &&& w.title@ == "💥 A New Target Approaches! 💥"@
    &&& w.description@ == "Welcome to the server, "@ + mention
        + "! Let's hope things don't get too... explosive. 🤫"@
    &&& w.thumbnail@
        == "https://i.pinimg.com/originals/5d/15/4b/5d154b68de57a87600fe9b98d692802c.gif"@
    &&& w.footer@ == "Member Count: #"@ + decimal(
        match member_count {
            Some(n) => n as nat,
            None => 0,
        },
    )
    &&& w.color == 0x9b59b6
}

/// The welcome for a member.
pub fn create_welcome_embed(mention: &str, member_count: Option<u64>) -> (res: WelcomeEmbed)
    ensures
        is_welcome_embed(res, mention@, member_count),
{
    let mut description = String::from_str("Welcome to the server, ");
    description.append(mention);
    description.append("! Let's hope things don't get too... explosive. 🤫");
    let mut footer = String::from_str("Member Count: #");
    let count = match member_count {
        Some(n) => n,
        None => 0,
    };
    push_decimal(&mut footer, count);
    WelcomeEmbed {
        title: String::from_str("💥 A New Target Approaches! 💥"),
        description,
        thumbnail: String::from_str(
            "https://i.pinimg.com/originals/5d/15/4b/5d154b68de57a87600fe9b98d692802c.gif",
        ),
        footer,
        color: 0x9b59b6,
    }
}

/// A Discord event as the bot sees it.
pub enum BotEvent {
    /// The bot is connected under this name.
    Ready { bot_name: String },
    /// A member joined; how to mention them, and the size of the server
    /// where it is known.
    MemberJoined { mention: String, member_count: Option<u64> },
    /// A message was posted in a channel; `bot_id` is the bot's own user.
    Message { channel_id: u64, author_id: u64, author_name: String, content: String, bot_id: u64 },
    /// Anything else.
    Other,
}

/// What the bot does about a Discord event.
pub enum BotAction {
    /// Write this line to the log.
    Log(String),
    /// Post this welcome in the server's system channel.
    Welcome(WelcomeEmbed),
    /// Send this message to Minecraft.
    Relay(FromDiscordEvent),
    /// Nothing.
    Nothing,
}

/// The bot's answer to a Discord event: a log line when it is ready, a
/// welcome for a new member, and, for a message posted in a bridged channel
/// by anyone but the bot itself, the message to relay to Minecraft.
pub fn event_handler(event: BotEvent, bridge: &BridgeList) -> (action: BotAction)
    ensures
        match event {
            BotEvent::Ready { bot_name } => action matches BotAction::Log(line) && line@
                == "Logged in as "@ + bot_name@,
            BotEvent::MemberJoined { mention, member_count } => action matches BotAction::Welcome(
                w,
            ) && is_welcome_embed(w, mention@, member_count),
            BotEvent::Message { channel_id, author_id, author_name, content, bot_id } => if is_bridged(
                bridge@,
                channel_id,
            ) && author_id != bot_id {
                action matches BotAction::Relay(e) && e.username@ == author_name@ && e.content@
                    == content@
            } else {
                action is Nothing
            },
            BotEvent::Other => action is Nothing,
        },
{
    match event {
        BotEvent::Ready { bot_name } => {
            let mut line = String::from_str("Logged in as ");
            line.append(bot_name.as_str());
            BotAction::Log(line)
        },
        BotEvent::MemberJoined { mention, member_count } => BotAction::Welcome(
            create_welcome_embed(mention.as_str(), member_count),
        ),
        BotEvent::Message { channel_id, author_id, author_name, content, bot_id } => {
            if bridge.contains(channel_id) && author_id != bot_id {
                BotAction::Relay(FromDiscordEvent { username: author_name, content })
            } else {
                BotAction::Nothing
            }
        },
        BotEvent::Other => BotAction::Nothing,
    }
}

// ---------------------------------------------------------------------------
// Help
// ---------------------------------------------------------------------------

/// What the help knows of a command.
pub struct CommandInfo {
    pub name: String,
    pub description: Option<String>,
    pub help_text: Option<String>,
}

/// The mathematical value of a [`CommandInfo`].
pub struct CommandInfoView {
    pub name: Seq<char>,
    pub description: Option<Seq<char>>,
    pub help_text: Option<Seq<char>>,
}

pub open spec fn opt_string_view(s: Option<String>) -> Option<Seq<char>> {
    match s {
        Some(s) => Some(s@),
        None => None,
    }
}

impl View for CommandInfo {
    type V = CommandInfoView;

    open spec fn view(&self) -> CommandInfoView {
        CommandInfoView {
            name: self.name@,
            description: opt_string_view(self.description),
            help_text: opt_string_view(self.help_text),
        }
    }
}

/// The views of a list of commands.
pub open spec fn commands_view(cs: Seq<CommandInfo>) -> Seq<CommandInfoView> {
    cs.map_values(|c: CommandInfo| c@)
}

/// The position of the first command named `name`.
pub open spec fn find_command(cs: Seq<CommandInfoView>, name: Seq<char>) -> Option<int>
    decreases cs.len(),
{
    if cs.len() == 0 {
        None
    } else if cs[0].name == name {
        Some(0)
    } else {
        match find_command(cs.drop_first(), name) {
            Some(i) => Some(i + 1),
            None => None,
        }
    }
}

proof fn lemma_find_command(cs: Seq<CommandInfoView>, name: Seq<char>, i: int)
    requires
        0 <= i <= cs.len(),
        forall|j: int| 0 <= j < i ==> cs[j].name != name,
        i < cs.len() ==> cs[i].name == name,
    ensures
        find_command(cs, name) == if i < cs.len() {
            Some(i)
        } else {
            None::<int>
        },
    decreases i,
{
    if i > 0 {
        lemma_find_command(cs.drop_first(), name, i - 1);
    }
}

/// A line of the command overview: the command and what it does.
pub struct HelpField {
    pub name: String,
    pub value: String,
    pub inline: bool,
}

/// The overview line of a command: `` `~name` `` and its description.
pub open spec fn help_field_name(c: CommandInfoView) -> Seq<char> {
    "`~"@ + c.name + "`"@
}

pub open spec fn help_field_value(c: CommandInfoView) -> Seq<char> {
    match c.description {
        Some(d) => d,
        None => "No description provided."@,
    }
}

/// `fields` are the overview lines of `commands`, one per command, in order.
pub open spec fn are_help_fields(commands: Seq<CommandInfo>, fields: Seq<HelpField>) -> bool {
    &&& fields.len() == commands.len()
    &&& forall|i: int|
        0 <= i < fields.len() ==> {
            &&& #[trigger] fields[i].name@ == help_field_name(commands[i]@)
            &&& fields[i].value@ == help_field_value(commands[i]@)
            &&& !fields[i].inline
        }
}

/// The overview: one line per command, in order.
#[verifier::spinoff_prover]
pub fn help_fields(commands: &Vec<CommandInfo>) -> (fields: Vec<HelpField>)
    ensures
        are_help_fields(commands@, fields@),
{
    let mut fields: Vec<HelpField> = Vec::new();
    let mut i: usize = 0;
    while i < commands.len()
        invariant
            i <= commands.len(),
            are_help_fields(commands@.take(i as int), fields@),
        decreases commands.len() - i,
    {
        let c = &commands[i];
        let mut name = String::from_str("`~");
        name.append(c.name.as_str());
        name.append("`");
        let value = match &c.description {
            Some(d) => d.clone(),
            None => String::from_str("No description provided."),
        };
        assert(name@ == help_field_name(commands@[i as int]@));
        assert(value@ == help_field_value(commands@[i as int]@));
        let ghost prev = fields@;
        fields.push(HelpField { name, value, inline: false });
        proof {
            let cs = commands@.take(i + 1);
            assert forall|k: int| 0 <= k < fields@.len() implies {
                &&& #[trigger] fields@[k].name@ == help_field_name(cs[k]@)
                &&& fields@[k].value@ == help_field_value(cs[k]@)
                &&& !fields@[k].inline
            } by {
                if k < i {
                    assert(fields@[k] == prev[k]);
                    assert(cs[k] == commands@.take(i as int)[k]);
                }
            }
        }
        i += 1;
    }
    assert(commands@.take(commands.len() as int) =~= commands@);
    fields
}

/// The detailed help of one command.
pub enum CommandHelp {
    /// There is no command of that name; the reply.
    NotFound { message: String },
    /// The command's help, in an embed of colour `color`.
    Found { title: String, description: String, color: u32 },
}

/// `h` is the detailed help for `name`: that of the first command of that
/// name, or, where there is none, the reply that none was found.
pub open spec fn is_command_help(commands: Seq<CommandInfo>, name: Seq<char>, h: CommandHelp) -> bool {
    match find_command(commands_view(commands), name) {
        None => h matches CommandHelp::NotFound { message } && message@ == "❌ Command `"@ + name
            + "` not found."@,
        Some(i) => h matches CommandHelp::Found { title, description, color } && title@
            == "ℹ️ Detailed Help: /"@ + commands[i].name@ && description@ == match commands[i]@.help_text {
            Some(t) => t,
            None => "No detailed documentation available for this command."@,
        } && color == 0x3498db,
    }
}

/// The detailed help of the first command named `command_name`.
pub fn reply_command_help(commands: &Vec<CommandInfo>, command_name: &str) -> (res: CommandHelp)
    ensures
        is_command_help(commands@, command_name@, res),
{
    let ghost cs = commands_view(commands@);
    let target = String::from_str(command_name);
    let mut i: usize = 0;
    while i < commands.len()
        invariant
            i <= commands.len(),
            cs == commands_view(commands@),
            target@ == command_name@,
            forall|j: int| 0 <= j < i ==> cs[j].name != command_name@,
        decreases commands.len() - i,
    {
        if commands[i].name == target {
            proof {
                assert(cs[i as int].name == command_name@);
                lemma_find_command(cs, command_name@, i as int);
            }
            let c = &commands[i];
            let mut title = String::from_str("ℹ️ Detailed Help: /");
            title.append(c.name.as_str());
            let description = match &c.help_text {
                Some(t) => t.clone(),
                None => String::from_str("No detailed documentation available for this command."),
            };
            return CommandHelp::Found { title, description, color: 0x3498db };
        }
        i += 1;
    }
    proof {
        lemma_find_command(cs, command_name@, i as int);
    }
    let mut message = String::from_str("❌ Command `");
    message.append(command_name);
    message.append("` not found.");
    CommandHelp::NotFound { message }
}

/// The overview of all commands.
pub struct HelpOverview {
    pub title: String,
    pub description: String,
    pub footer: String,
    pub thumbnail: String,
    pub color: u32,
    pub fields: Vec<HelpField>,
}

/// `o` is the overview of `commands`.
pub open spec fn is_help_overview(commands: Seq<CommandInfo>, o: HelpOverview) -> bool {
    &&& o.title@ == "💥 Hello! こんにちは！~\n\n"@
    &&& o.description@ == "Here's a list of all the commands you can use:"@
    &&& o.footer@ == "Use ~command or \"hey reze, command\" to use any of these commands"@
    &&& o.thumbnail@ == "https://media1.giphy.com/media/v1.Y2lkPTc5MGI3NjExN3hja2kyZ3NqdXFxZHlzMWowNXdxcWtpMzA3aW9hNGVuNngwcDZ4OCZlcD12MV9pbnRlcm5hbF9naWZfYnlfaWQmY3Q9Zw/IKFVtPf8jP6KJH16dB/giphy.gif"@
    &&& o.color == 0x3498db
    &&& are_help_fields(commands, o.fields@)
}

/// The reply to `help`.
pub enum HelpReply {
    /// All commands.
    Overview(HelpOverview),
    /// One command.
    Command(CommandHelp),
}

/// The reply to `help`: the detailed help of the named command, or, without
/// a name, the overview of all commands.
#[verifier::spinoff_prover]
pub fn help(commands: &Vec<CommandInfo>, command_name: Option<String>) -> (res: HelpReply)
    ensures
        match command_name {
            Some(name) => res matches HelpReply::Command(h) && is_command_help(commands@, name@, h),
            None => res matches HelpReply::Overview(o) && is_help_overview(commands@, o),
        },
{
    match command_name {
        Some(name) => HelpReply::Command(reply_command_help(commands, name.as_str())),
        None => HelpReply::Overview(
            HelpOverview {
                title: String::from_str("💥 Hello! こんにちは！~\n\n"),
                description: String::from_str("Here's a list of all the commands you can use:"),
                footer: String::from_str(
                    "Use ~command or \"hey reze, command\" to use any of these commands",
                ),
                thumbnail: String::from_str(
                    "https://media1.giphy.com/media/v1.Y2lkPTc5MGI3NjExN3hja2kyZ3NqdXFxZHlzMWowNXdxcWtpMzA3aW9hNGVuNngwcDZ4OCZlcD12MV9pbnRlcm5hbF9naWZfYnlfaWQmY3Q9Zw/IKFVtPf8jP6KJH16dB/giphy.gif",
                ),
                color: 0x3498db,
                fields: help_fields(commands),
            },
        ),
    }
}

// ---------------------------------------------------------------------------
// Server status
// ---------------------------------------------------------------------------

/// `s` as a one-element list where it is not empty; no element otherwise.
pub open spec fn kept(s: Seq<char>) -> Seq<Seq<char>> {
    if s.len() > 0 {
        seq![s]
    } else {
        Seq::empty()
    }
}

/// The names in a comma-separated list: the pieces between commas, trimmed
/// of white space, without the empty ones.
pub open spec fn names_in_list(s: Seq<char>) -> Seq<Seq<char>>
    decreases s.len(),
{
    match find_seq(s, seq![',']) {
        Some(i) => {
            proof {
                lemma_find_seq_occurs(s, seq![',']);
            }
            kept(trim(s.take(i))) + names_in_list(s.skip(i + 1))
        },
        None => kept(trim(s)),
    }
}

/// Every name read from a list is non-empty, holds no comma, and neither
/// begins nor ends with white space.
pub proof fn law_list_names_are_clean(s: Seq<char>)
    ensures
        forall|k: int|
            0 <= k < names_in_list(s).len() ==> {
                let name = #[trigger] names_in_list(s)[k];
                &&& name.len() > 0
                &&& !name.contains(',')
                &&& !is_white_space(name[0])
                &&& !is_white_space(name.last())
            },
    decreases s.len(),
{
    lemma_find_seq_occurs(s, seq![',']);
    match find_seq(s, seq![',']) {
        Some(i) => {
            law_list_names_are_clean(s.skip(i + 1));
            let piece = s.take(i);
            let (a, b) = lemma_trim_shape(piece);
            assert forall|j: int| 0 <= j < i implies s[j] != ',' by {
                assert(!occurs_at(s, seq![','], j));
                assert(s.subrange(j, j + 1) =~= seq![s[j]]);
            }
            let head = kept(trim(piece));
            let rest = names_in_list(s.skip(i + 1));
            assert forall|k: int| 0 <= k < names_in_list(s).len() implies {
                let name = #[trigger] names_in_list(s)[k];
                &&& name.len() > 0
                &&& !name.contains(',')
                &&& !is_white_space(name[0])
                &&& !is_white_space(name.last())
            } by {
                if k < head.len() {
                    let name = trim(piece);
                    assert(names_in_list(s)[k] == name);
                    if name.contains(',') {
                        let j = choose|j: int| 0 <= j < name.len() && name[j] == ',';
                        assert(name[j] == s[a + j]);
                    }
                } else {
                    assert(names_in_list(s)[k] == rest[k - head.len()]);
                }
            }
        },
        None => {
            let (a, b) = lemma_trim_shape(s);
            let name = trim(s);
            assert forall|j: int| 0 <= j < s.len() implies s[j] != ',' by {
                assert(!occurs_at(s, seq![','], j));
                assert(s.subrange(j, j + 1) =~= seq![s[j]]);
            }
            if name.contains(',') {
                let j = choose|j: int| 0 <= j < name.len() && name[j] == ',';
                assert(name[j] == s[a + j]);
            }
        },
    }
}

/// The players that the answer of the RCON command `list` names: those listed
/// after the first `online:`, none where there is no `online:`.
pub open spec fn spec_online_players(response: Seq<char>) -> Seq<Seq<char>> {
    match find_seq(response, "online:"@) {
        Some(i) => names_in_list(response.skip(i + "online:"@.len())),
        None => Seq::empty(),
    }
}

/// Names written as the server lists them: separated by `, `.
pub open spec fn comma_list(names: Seq<Seq<char>>) -> Seq<char>
    decreases names.len(),
{
    if names.len() == 0 {
        Seq::empty()
    } else if names.len() == 1 {
        names[0]
    } else {
        names[0] + ", "@ + comma_list(names.drop_first())
    }
}

/// A player name as the server lists it: not empty, with no comma, neither
/// beginning nor ending with white space.
pub open spec fn is_clean_name(name: Seq<char>) -> bool {
    &&& name.len() > 0
    &&& !name.contains(',')
    &&& !is_white_space(name[0])
    &&& !is_white_space(name.last())
}

proof fn lemma_trim_spaced_name(name: Seq<char>)
    requires
        is_clean_name(name),
    ensures
        trim(seq![' '] + name) == name,
{
    let t = seq![' '] + name;
    assert(t.drop_first() =~= name);
    assert(trim_start(name) == name);
    assert(trim_start(t) == trim_start(t.drop_first()));
    assert(trim_end(name) == name);
}

proof fn lemma_no_comma(s: Seq<char>)
    requires
        !s.contains(','),
    ensures
        find_seq(s, seq![',']) is None,
{
    assert forall|j: int| !occurs_at(s, seq![','], j) by {
        if 0 <= j < s.len() {
            assert(s.subrange(j, j + 1)[0] == s[j]);
        }
    }
    lemma_find_seq_none(s, seq![',']);
}

proof fn lemma_names_in_spaced_list(names: Seq<Seq<char>>)
    requires
        forall|k: int| 0 <= k < names.len() ==> is_clean_name(#[trigger] names[k]),
    ensures
        names_in_list(seq![' '] + comma_list(names)) == names,
    decreases names.len(),
{
    reveal_strlit(", ");
    let s = seq![' '] + comma_list(names);
    if names.len() == 0 {
        assert(s =~= seq![' ']);
        assert(!s.contains(','));
        lemma_no_comma(s);
        assert(seq![' '].drop_first() =~= Seq::<char>::empty());
        assert(trim_start(seq![' ']) == trim_start(seq![' '].drop_first()));
        assert(trim(s) =~= Seq::<char>::empty());
        assert(names =~= Seq::<Seq<char>>::empty());
    } else if names.len() == 1 {
        let n0 = names[0];
        assert(is_clean_name(n0));
        assert(!s.contains(',')) by {
            if s.contains(',') {
                let j = choose|j: int| 0 <= j < s.len() && s[j] == ',';
                assert(n0[j - 1] == s[j]);
            }
        }
        lemma_no_comma(s);
        lemma_trim_spaced_name(n0);
        assert(names =~= seq![n0]);
    } else {
        let n0 = names[0];
        let rest = names.drop_first();
        assert(is_clean_name(n0));
        assert forall|k: int| 0 <= k < rest.len() implies is_clean_name(#[trigger] rest[k]) by {
            assert(rest[k] == names[k + 1]);
        }
        lemma_names_in_spaced_list(rest);
        let i: int = n0.len() + 1int;
        assert(s =~= seq![' '] + n0 + seq![','] + (seq![' '] + comma_list(rest)));
        assert(s.subrange(i, i + 1) =~= seq![',']);
        assert forall|j: int| 0 <= j < i implies !occurs_at(s, seq![','], j) by {
            assert(s.subrange(j, j + 1)[0] == s[j]);
            if j > 0 {
                assert(s[j] == n0[j - 1]);
            }
        }
        lemma_find_seq_first(s, seq![','], i);
        assert(s.take(i) =~= seq![' '] + n0);
        assert(s.skip(i + 1) =~= seq![' '] + comma_list(rest));
        lemma_trim_spaced_name(n0);
        assert(names =~= seq![n0] + rest);
    }
}

/// Every player listed after the first `online:` of the answer to `list` is
/// read back, in order and none left out: for clean names `n1`, ..., `nk` (any
/// number of them), `prefix` + `online: ` + `n1, n2, ..., nk` gives exactly
/// `[n1, ..., nk]`, where `online:` does not occur earlier.
pub proof fn law_online_players_read_back(prefix: Seq<char>, names: Seq<Seq<char>>)
    requires
        forall|j: int| 0 <= j < prefix.len() ==> !occurs_at(prefix + "online:"@, "online:"@, j),
        forall|k: int| 0 <= k < names.len() ==> is_clean_name(#[trigger] names[k]),
    ensures
        spec_online_players(prefix + "online: "@ + comma_list(names)) == names,
{
    reveal_strlit("online:");
    reveal_strlit("online: ");
    let marker = "online:"@;
    let response = prefix + "online: "@ + comma_list(names);
    let head = prefix + marker;
    let at = prefix.len() as int;
    assert(response =~= head + (seq![' '] + comma_list(names)));
    assert(response.subrange(at, at + marker.len()) =~= marker);
    assert forall|j: int| 0 <= j < at implies !occurs_at(response, marker, j) by {
        assert(response.subrange(j, j + marker.len()) =~= head.subrange(j, j + marker.len()));
        assert(!occurs_at(head, marker, j));
    }
    lemma_find_seq_first(response, marker, at);
    assert(response.skip(at + marker.len()) =~= seq![' '] + comma_list(names));
    lemma_names_in_spaced_list(names);
}

/// The views of a list of strings.
pub open spec fn strings_view(v: Seq<String>) -> Seq<Seq<char>> {
    v.map_values(|s: String| s@)
}

/// The players online, from the answer to the RCON command `list`
/// (`There are 2 of a max of 20 players online: alice, bob`).
pub fn parse_online_players(response: &str) -> (names: Vec<String>)
    ensures
        strings_view(names@) == spec_online_players(response@),
{
    let v = chars_of(response);
    let online = chars_of("online:");
    let mut names: Vec<String> = Vec::new();
    let found = find_from(&v, &online, 0);
    let i = match found {
        Some(i) => i,
        None => {
            proof {
                lemma_find_seq_skip(v@, online@, 0, None);
                assert(v@.skip(0) =~= v@);
                assert(strings_view(names@) =~= Seq::<Seq<char>>::empty());
            }
            return names;
        },
    };
    assert(occurs_at(v@, online@, i as int));
    assert(i + online@.len() <= v@.len());
    assert(i + online.len() <= v.len());
    proof {
        lemma_find_seq_skip(v@, online@, 0, Some(i as int));
        assert(v@.skip(0) =~= v@);
    }
    let comma = vec![','];
    assert(comma@ =~= seq![',']);
    let mut start = i + online.len();
    let ghost whole = v@.skip(start as int);
    assert(strings_view(names@) =~= Seq::<Seq<char>>::empty());
    assert(whole == v@.skip(start as int));
    loop
        invariant_except_break
            start <= v.len(),
            comma@ == seq![','],
            strings_view(names@) + names_in_list(v@.skip(start as int)) == names_in_list(whole),
        ensures
            strings_view(names@) == names_in_list(whole),
        decreases v.len() - start,
    {
        let ghost rest = v@.skip(start as int);
        let found = find_from(&v, &comma, start);
        proof {
            lemma_find_seq_skip(
                v@,
                comma@,
                start as int,
                match found {
                    Some(c) => Some(c as int),
                    None => None,
                },
            );
        }
        match found {
            Some(c) => {
                proof {
                    lemma_find_seq_occurs(rest, seq![',']);
                    assert(rest.take(c - start) =~= v@.subrange(start as int, c as int));
                    assert(rest.skip(c - start + 1) =~= v@.skip(c + 1));
                }
                let (lo, hi) = trim_bounds(&v, start, c);
                let ghost before = strings_view(names@);
                if lo < hi {
                    names.push(string_of(&v, lo, hi));
                }
                proof {
                    assert(strings_view(names@) =~= before + kept(trim(rest.take(c - start))));
                }
                start = c + 1;
            },
            None => {
                let (lo, hi) = trim_bounds(&v, start, v.len());
                proof {
                    assert(v@.subrange(start as int, v.len() as int) =~= rest);
                }
                let ghost before = strings_view(names@);
                if lo < hi {
                    names.push(string_of(&v, lo, hi));
                }
                proof {
                    assert(strings_view(names@) =~= before + kept(trim(rest)));
                }
                break;
            },
        }
    }
    names
}

/// `s` with every occurrence of `pat` removed, from left to right (what
/// `str::replace(pat, "")` gives).
pub open spec fn remove_all(s: Seq<char>, pat: Seq<char>) -> Seq<char>
    decreases s.len(),
{
    if pat.len() == 0 {
        s
    } else {
        match find_seq(s, pat) {
            Some(i) => {
                proof {
                    lemma_find_seq_occurs(s, pat);
                }
                s.take(i) + remove_all(s.skip(i + pat.len()), pat)
            },
            None => s,
        }
    }
}

/// `text` with every `pat` removed.
pub fn remove_all_of(text: &str, pat: &str) -> (res: String)
    ensures
        res@ == remove_all(text@, pat@),
{
    let v = chars_of(text);
    let p = chars_of(pat);
    if p.len() == 0 {
        return String::from_str(text);
    }
    let mut res = String::new();
    let mut start: usize = 0;
    proof {
        assert(v@.skip(0) =~= v@);
    }
    loop
        invariant_except_break
            start <= v.len(),
            p@ == pat@,
            p.len() > 0,
            res@ + remove_all(v@.skip(start as int), p@) == remove_all(text@, pat@),
        ensures
            res@ == remove_all(text@, pat@),
        decreases v.len() - start,
    {
        let ghost rest = v@.skip(start as int);
        let found = find_from(&v, &p, start);
        proof {
            lemma_find_seq_skip(
                v@,
                p@,
                start as int,
                match found {
                    Some(c) => Some(c as int),
                    None => None,
                },
            );
        }
        match found {
            Some(c) => {
                proof {
                    lemma_find_seq_occurs(rest, p@);
                    assert(rest.take(c - start) =~= v@.subrange(start as int, c as int));
                    assert(rest.skip(c - start + p.len()) =~= v@.skip(c + p.len()));
                }
                push_chars(&mut res, &v, start, c);
                start = c + p.len();
            },
            None => {
                proof {
                    assert(v@.subrange(start as int, v.len() as int) =~= rest);
                }
                push_chars(&mut res, &v, start, v.len());
                break;
            },
        }
    }
    res
}

/// What `base64`'s standard engine decodes from a text, or `None` where the
/// text is not valid base64.
pub uninterp spec fn base64_standard_decode(text: Seq<char>) -> Option<Seq<u8>>;

/// `base64::Engine::decode` with `base64::engine::general_purpose::STANDARD`,
/// with the error dropped; its result is named [`base64_standard_decode`].
#[verifier::external_body]
fn decode_base64(text: &str) -> (res: Option<Vec<u8>>)
    ensures
        res is Some <==> base64_standard_decode(text@) is Some,
        res is Some ==> base64_standard_decode(text@) == Some(res->0@),
{
    base64::Engine::decode(&base64::engine::general_purpose::STANDARD, text).ok()
}

/// The views of optional bytes.
pub open spec fn opt_bytes_view(b: Option<Vec<u8>>) -> Option<Seq<u8>> {
    match b {
        Some(b) => Some(b@),
        None => None,
    }
}

/// The image that a server's favicon holds: its text without the
/// `data:image/png;base64,` header, decoded as base64.
pub open spec fn favicon_image(favicon: Seq<char>) -> Option<Seq<u8>> {
    base64_standard_decode(remove_all(favicon, "data:image/png;base64,"@))
}

/// Decodes a server's favicon.
pub fn decode_favicon(favicon: &str) -> (res: Option<Vec<u8>>)
    ensures
        opt_bytes_view(res) == favicon_image(favicon@),
{
    let clean = remove_all_of(favicon, "data:image/png;base64,");
    decode_base64(clean.as_str())
}

/// The players as a numbered list, one per line: `` 1. `name` ``.
pub open spec fn numbered_list(names: Seq<Seq<char>>) -> Seq<char>
    decreases names.len(),
{
    if names.len() == 0 {
        Seq::empty()
    } else {
        numbered_list(names.drop_last()) + decimal(names.len()) + ". `"@ + names.last() + "`\n"@
    }
}

/// The line of the players' list that shows the `k`-th name (counting from
/// zero): its number from one, then the name in code style.
pub open spec fn player_line(names: Seq<Seq<char>>, k: int) -> Seq<char> {
    decimal((k + 1) as nat) + ". `"@ + names[k] + "`\n"@
}

proof fn lemma_player_listed(names: Seq<Seq<char>>, k: int)
    requires
        0 <= k < names.len(),
    ensures
        contains_seq(numbered_list(names), player_line(names, k)),
    decreases names.len(),
{
    let init = names.drop_last();
    let head = numbered_list(init);
    let list = numbered_list(names);
    let line = player_line(names, k);
    if k == names.len() - 1 {
        assert(list =~= head + line);
        assert(list.subrange(head.len() as int, (head.len() + line.len()) as int) =~= line);
        assert(occurs_at(list, line, head.len() as int));
    } else {
        lemma_player_listed(init, k);
        assert(init[k] == names[k]);
        assert(player_line(init, k) == line);
        let i = choose|i: int| occurs_at(head, line, i);
        assert(list.subrange(i, i + line.len()) =~= head.subrange(i, i + line.len()));
        assert(occurs_at(list, line, i));
    }
}

/// Every player read from the server is listed, with their number: for each
/// name, the list holds the line `number. `name``, numbered from one in the
/// order of the names.
pub proof fn law_players_all_listed(names: Seq<Seq<char>>)
    ensures
        forall|k: int| 0 <= k < names.len() ==> contains_seq(numbered_list(names), #[trigger] player_line(names, k)),
{
    assert forall|k: int| 0 <= k < names.len() implies contains_seq(numbered_list(names), #[trigger] player_line(names, k)) by {
        lemma_player_listed(names, k);
    }
}

/// The body of the status reply: the players by name; where no name could
/// be read, whether players are online at all.
pub open spec fn spec_players_description(names: Seq<Seq<char>>, online: i64) -> Seq<char> {
    if names.len() == 0 {
        if online > 0 {
            "⚠️ *Failed to safely map names via RCON, but players are active.*"@
        } else {
            "*No players are currently online.*"@
        }
    } else {
        "👥 **Current Online Players:**\n\n"@ + numbered_list(names)
    }
}

/// The body of the status reply.
pub fn players_description(names: &Vec<String>, online: i64) -> (res: String)
    ensures
        res@ == spec_players_description(strings_view(names@), online),
{
    if names.len() == 0 {
        if online > 0 {
            return String::from_str(
                "⚠️ *Failed to safely map names via RCON, but players are active.*",
            );
        } else {
            return String::from_str("*No players are currently online.*");
        }
    }
    let ghost all = strings_view(names@);
    let mut s = String::from_str("👥 **Current Online Players:**\n\n");
    let mut i: usize = 0;
    while i < names.len()
        invariant
            i <= names.len(),
            all == strings_view(names@),
            s@ == "👥 **Current Online Players:**\n\n"@ + numbered_list(all.take(i as int)),
        decreases names.len() - i,
    {
        let ghost before = s@;
        push_decimal(&mut s, (i + 1) as u64);
        s.append(". `");
        s.append(names[i].as_str());
        s.append("`\n");
        proof {
            assert(all.take(i + 1).drop_last() =~= all.take(i as int));
            assert(all.take(i + 1).last() == names@[i as int]@);
        }
        i += 1;
    }
    assert(all.take(names.len() as int) =~= all);
    s
}

/// The status reply to `info`.
pub struct InfoReply {
    /// `🎮 ` and the server's message of the day.
    pub title: String,
    /// The players online.
    pub description: String,
    /// `` `online/max` ``.
    pub players_field: String,
    /// The latency, which is not measured: `` `0.0ms` ``.
    pub latency_field: String,
    /// The labels of the two fields: `Players Online` and `Latency`.
    pub players_label: String,
    pub latency_label: String,
    /// The embed's colour.
    pub color: u32,
    /// The server's icon, where it sent one that could be decoded.
    pub icon: Option<Vec<u8>>,
}

/// What a Java server reports of itself.
pub struct JavaStatusInfo {
    /// The message of the day.
    pub description: String,
    /// The icon, as base64 text.
    pub favicon: Option<String>,
    /// Players online.
    pub online: i64,
    /// Player capacity.
    pub max: i64,
}

/// `` `online/max` ``.
pub open spec fn players_field_text(online: i64, max: i64) -> Seq<char> {
    "`"@ + signed_decimal(online as int) + "/"@ + signed_decimal(max as int) + "`"@
}

/// The status reply from the players' names, the message of the day, the
/// counts, and the icon.
pub fn info_reply(names: &Vec<String>, motd: &str, online: i64, max: i64, icon: Option<Vec<u8>>) -> (res:
    InfoReply)
    ensures
        res.title@ == "🎮 "@ + motd@,
        res.description@ == spec_players_description(strings_view(names@), online),
        res.players_field@ == players_field_text(online, max),
        res.latency_field@ == "`0.0ms`"@,
        res.players_label@ == "Players Online"@,
        res.latency_label@ == "Latency"@,
        res.color == 0x9b59b6,
        res.icon == icon,
{
    let mut title = String::from_str("🎮 ");
    title.append(motd);
    let mut players_field = String::from_str("`");
    push_signed_decimal(&mut players_field, online);
    players_field.append("/");
    push_signed_decimal(&mut players_field, max);
    players_field.append("`");
    InfoReply {
        title,
        description: players_description(names, online),
        players_field,
        latency_field: String::from_str("`0.0ms`"),
        players_label: String::from_str("Players Online"),
        latency_label: String::from_str("Latency"),
        color: 0x9b59b6,
        icon,
    }
}

/// The reply to `info`, from the answer to the RCON command `list` and the
/// status that a Java server reported. Without such a status the message of
/// the day is `Minecraft Server Status`, no player is online, the capacity
/// is 20 and there is no icon.
pub fn info(rcon_response: &str, status: Option<JavaStatusInfo>) -> (res: InfoReply)
    ensures
        res.title@ == "🎮 "@ + match status {
            Some(j) => j.description@,
            None => "Minecraft Server Status"@,
        },
        res.description@ == spec_players_description(
            spec_online_players(rcon_response@),
            match status {
                Some(j) => j.online,
                None => 0,
            },
        ),
        res.players_field@ == match status {
            Some(j) => players_field_text(j.online, j.max),
            None => players_field_text(0, 20),
        },
        res.latency_field@ == "`0.0ms`"@,
        res.players_label@ == "Players Online"@,
        res.latency_label@ == "Latency"@,
        res.color == 0x9b59b6,
        opt_bytes_view(res.icon) == match status {
            Some(j) => match j.favicon {
                Some(f) => favicon_image(f@),
                None => None,
            },
            None => None,
        },
{
    let names = parse_online_players(rcon_response);
    match status {
        Some(java) => {
            let icon = match &java.favicon {
                Some(f) => decode_favicon(f.as_str()),
                None => None,
            };
            info_reply(&names, java.description.as_str(), java.online, java.max, icon)
        },
        None => info_reply(&names, "Minecraft Server Status", 0, 20, None),
    }
}

} // verus!
