use reze_bridge::discord_bot::MinecraftEvent;
use reze_bridge::mc_log::{classify, death_sentences, parse_log_line};

fn chat(u: &str, m: &str) -> Option<MinecraftEvent> {
    Some(MinecraftEvent::Chat { username: u.to_string(), message: m.to_string() })
}

fn join_leave(p: &str, is_join: bool) -> Option<MinecraftEvent> {
    Some(MinecraftEvent::PlayerJoinLeave { system_message: p.to_string(), is_join })
}

#[test]
fn chat_lines_are_read() {
    assert_eq!(
        parse_log_line("[12:34:56] [Server thread/INFO]: <Steve> hello world"),
        chat("Steve", "hello world")
    );
    assert_eq!(
        parse_log_line("[12:34:56] [Async Chat Thread - #0/INFO]: [Not Secure] <alex_99> gg"),
        chat("alex_99", "gg")
    );
    // The message may itself look like a log line or a system message.
    assert_eq!(
        parse_log_line("[00:00:00] [Server thread/INFO]: <Bob> Steve joined the game"),
        chat("Bob", "Steve joined the game")
    );
}

#[test]
fn chat_names_must_fit() {
    // Two characters is too short; the line is then a system line with no event.
    assert_eq!(parse_log_line("[12:34:56] [Server thread/INFO]: <Al> hi"), None);
    // Seventeen characters is too long.
    assert_eq!(parse_log_line("[12:34:56] [Server thread/INFO]: <abcdefghijklmnopq> hi"), None);
    assert_eq!(
        parse_log_line("[12:34:56] [Server thread/INFO]: <abcdefghijklmnop> hi"),
        chat("abcdefghijklmnop", "hi")
    );
    // A name with another character, or an empty message.
    assert_eq!(parse_log_line("[12:34:56] [Server thread/INFO]: <St-ve> hi"), None);
    assert_eq!(parse_log_line("[12:34:56] [Server thread/INFO]: <Steve> "), None);
}

#[test]
fn joins_and_leaves_are_read() {
    assert_eq!(
        parse_log_line("[08:01:02] [Server thread/INFO]: Steve joined the game"),
        join_leave("Steve joined the game", true)
    );
    assert_eq!(
        parse_log_line("[08:01:02] [Server thread/INFO]: Steve left the game"),
        join_leave("Steve left the game", false)
    );
}

#[test]
fn noise_is_dropped() {
    for p in [
        "Steve lost connection: Disconnected",
        "Steve[/127.0.0.1:5555] logged in with entity id 12 at (1.0, 2.0, 3.0)",
        "Steve[/127.0.0.1:5555] Logged in with entity id 12 at (1.0, 2.0, 3.0)",
        "Saving chunks for level 'ServerLevel[world]'/minecraft:overworld",
        "Stopping server",
        "Rcon connection from: /127.0.0.1",
        "Done (3.2s)! For help, type \"help\"",
    ] {
        let line = format!("[08:01:02] [Server thread/INFO]: {}", p);
        assert_eq!(parse_log_line(&line), None, "{}", line);
    }
}

#[test]
fn advancements_and_deaths_are_read() {
    let p = "Steve has made the advancement [Monster Hunter]";
    assert_eq!(
        parse_log_line(&format!("[08:01:02] [Server thread/INFO]: {}", p)),
        Some(MinecraftEvent::Advancement { system_message: p.to_string() })
    );
    let p = "Steve has completed the challenge [Arbalistic]";
    assert_eq!(
        parse_log_line(&format!("[08:01:02] [Server thread/INFO]: {}", p)),
        Some(MinecraftEvent::Advancement { system_message: p.to_string() })
    );
    for s in death_sentences() {
        let p = format!("Steve {} something", s);
        assert_eq!(
            parse_log_line(&format!("[08:01:02] [Server thread/INFO]: {}", p)),
            Some(MinecraftEvent::Death { system_message: p.clone() })
        );
    }
}

#[test]
fn precedence_of_system_messages() {
    // A join is reported before anything else the message says.
    assert_eq!(
        classify("Steve joined the game after he drowned".to_string()),
        join_leave("Steve joined the game after he drowned", true)
    );
    // Noise is dropped even when it mentions a death.
    assert_eq!(classify("Steve lost connection: drowned".to_string()), None);
    // "Rcon connection from" is noise only at the start.
    assert_eq!(
        classify("Steve drowned near Rcon connection from".to_string()),
        Some(MinecraftEvent::Death { system_message: "Steve drowned near Rcon connection from".to_string() })
    );
}

#[test]
fn malformed_lines_report_nothing() {
    for line in [
        "",
        "hello",
        "[12:34:56] [Server thread/WARN]: Steve joined the game",
        "[12:34] [Server thread/INFO]: Steve joined the game",
        "[ab:cd:ef] [Server thread/INFO]: Steve joined the game",
        "[12:34:56] [/INFO]: Steve joined the game",
        "[12:34:56] [Server thread/INFO]:Steve joined the game",
        "[12:34:56] [Server thread/INFO]: ",
        "[12:34:56] [Server]thread/INFO]: Steve joined the game",
        "[12:34:56] [Server thread/INFO]: Steve joined\nthe game",
        " [12:34:56] [Server thread/INFO]: Steve joined the game",
    ] {
        assert_eq!(parse_log_line(line), None, "{:?}", line);
    }
}

#[test]
fn unicode_digits_and_spaces_are_accepted() {
    assert_eq!(
        parse_log_line("[١٢:٣٤:٥٦]\t[Server thread/INFO]:\u{3000}Steve joined the game"),
        join_leave("Steve joined the game", true)
    );
}

#[test]
fn death_sentences_are_complete() {
    let v = death_sentences();
    assert_eq!(v.len(), 31);
    assert_eq!(v[0], "was slain by");
    assert_eq!(v[29], "froze ");
    assert_eq!(v[30], "left the confines of this world");
}

/// The log-line reading as the server's regular expressions describe it.
fn read_with_patterns(chat_re: &regex::Regex, sys_re: &regex::Regex, line: &str) -> Option<MinecraftEvent> {
    if let Some(c) = chat_re.captures(line) {
        return chat(c.name("username")?.as_str(), c.name("message")?.as_str());
    }
    if let Some(c) = sys_re.captures(line) {
        return classify(c.name("payload")?.as_str().to_string());
    }
    None
}

#[test]
fn reading_agrees_with_the_patterns() {
    let pieces = [
        "[", "]", "<", ">", " ", "\t", "\n", "\u{a0}", ":", "/INFO]", "/INFO]:", "[Not Secure]", "12",
        "٣", "a", "Steve", "_", "x", "joined the game", "drowned", "lost connection:", "Rcon connection from",
        "has made the advancement", "Server thread", "0", "9", "-", "]:",
    ];
    let prefixes = [
        "[12:34:56] [Server thread/INFO]: ",
        "[12:34:56] [Server thread/INFO]: [Not Secure] ",
        "[12:34:56] [Server thread/INFO]: <Steve> ",
        "[12:34:56] [",
        "[12:3",
        "",
    ];
    let chat_re = regex::Regex::new(
        r"^\[\d{2}:\d{2}:\d{2}\]\s\[[^\]]+/INFO\]:\s(?:\[Not Secure\]\s)?<(?P<username>[a-zA-Z0-9_]{3,16})>\s(?P<message>.+)$",
    )
    .unwrap();
    let sys_re = regex::Regex::new(r"^\[\d{2}:\d{2}:\d{2}\]\s\[[^\]]+/INFO\]:\s(?P<payload>.+)$").unwrap();
    let mut seed: u64 = 0x2545F4914F6CDD1D;
    let mut next = || {
        seed ^= seed << 13;
        seed ^= seed >> 7;
        seed ^= seed << 17;
        seed
    };
    for _ in 0..4000 {
        let mut line = prefixes[(next() % prefixes.len() as u64) as usize].to_string();
        let n = next() % 8;
        for _ in 0..n {
            line.push_str(pieces[(next() % pieces.len() as u64) as usize]);
        }
        assert_eq!(parse_log_line(&line), read_with_patterns(&chat_re, &sys_re, &line), "{:?}", line);
    }
}
