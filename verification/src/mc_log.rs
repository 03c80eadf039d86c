//! Reading lines of the Minecraft server log.
//!
//! A log line has the shape `[hh:mm:ss] [thread/INFO]: payload`. A chat
//! payload is `<name> message`, possibly after `[Not Secure] `; any other
//! payload is a system message, which is a join, a leave, an advancement, a
//! death, or noise.

use vstd::prelude::*;

use crate::discord_bot::{event_option_view, MinecraftEvent, MinecraftEventView};
use crate::text::{
    chars_of, contains, contains_seq, decimal_digit, is_decimal_digit, is_white_space, matches_at,
    occurs_at, starts_with, starts_with_seq, string_of, white_space,
};

verus! {

broadcast use vstd::string::group_string_axioms;

// ---------------------------------------------------------------------------
// The grammar of a log line
// ---------------------------------------------------------------------------

/// A character allowed in a player name: `[a-zA-Z0-9_]`.
pub open spec fn is_name_char(c: char) -> bool {
    ('a' <= c && c <= 'z') || ('A' <= c && c <= 'Z') || ('0' <= c && c <= '9') || c == '_'
}

/// No line break in `s` (the class `.` of the grammar).
pub open spec fn single_line(s: Seq<char>) -> bool {
    forall|i: int| 0 <= i < s.len() ==> s[i] != '\n'
}

/// The first `n` characters of `s` are a log prefix
/// `\[\d{2}:\d{2}:\d{2}\]\s\[[^\]]+/INFO\]:\s`.
pub open spec fn log_prefix(s: Seq<char>, n: int) -> bool {
    &&& 21 <= n <= s.len()
    &&& s[0] == '['
    &&& is_decimal_digit(s[1]) && is_decimal_digit(s[2]) && s[3] == ':'
    &&& is_decimal_digit(s[4]) && is_decimal_digit(s[5]) && s[6] == ':'
    &&& is_decimal_digit(s[7]) && is_decimal_digit(s[8]) && s[9] == ']'
    &&& is_white_space(s[10])
    &&& s[11] == '['
    &&& forall|i: int| 12 <= i < n - 3 ==> s[i] != ']'
    &&& occurs_at(s, "/INFO]:"@, n - 8)
    &&& is_white_space(s[n - 1])
}

/// `t` is `<user>\s(message)` with a name of 3 to 16 name characters and a
/// non-empty single-line message running to the end.
pub open spec fn chat_tail(t: Seq<char>, user: Seq<char>, message: Seq<char>) -> bool {
    let ul = user.len() as int;
    &&& 3 <= ul <= 16
    &&& forall|i: int| 0 <= i < ul ==> is_name_char(#[trigger] user[i])
    &&& message.len() >= 1
    &&& single_line(message)
    &&& t.len() == ul + message.len() + 3
    &&& t[0] == '<'
    &&& t.subrange(1, ul + 1) == user
    &&& t[ul + 1] == '>'
    &&& is_white_space(t[ul + 2])
    &&& t.skip(ul + 3) == message
}

/// `b` is `(?:\[Not Secure\]\s)?<user>\s(message)`.
pub open spec fn chat_body(b: Seq<char>, user: Seq<char>, message: Seq<char>) -> bool {
    ||| chat_tail(b, user, message)
    ||| {
        &&& b.len() >= 13
        &&& starts_with_seq(b, "[Not Secure]"@)
        &&& is_white_space(b[12])
        &&& chat_tail(b.skip(13), user, message)
    }
}

/// `line` is a chat line in which `user` said `message`.
pub open spec fn chat_line(line: Seq<char>, user: Seq<char>, message: Seq<char>) -> bool {
    exists|n: int| #[trigger] log_prefix(line, n) && chat_body(line.skip(n), user, message)
}

/// `line` is a log line whose payload is `payload`.
pub open spec fn system_line(line: Seq<char>, payload: Seq<char>) -> bool {
    exists|n: int|
        #[trigger] log_prefix(line, n) && payload == line.skip(n) && payload.len() >= 1
            && single_line(payload)
}

// ---------------------------------------------------------------------------
// What a system message means
// ---------------------------------------------------------------------------

/// The phrases by which a system message reports a death.
pub open spec fn spec_death_sentences() -> Seq<Seq<char>> {
    seq![
        "was slain by"@,
        "was smashed by"@,
        "was impaled by"@,
        "was shot by"@,
        "was pummeled by"@,
        "was blown up by"@,
        "was skewered by"@,
        "was spit at by"@,
        "was struck by lightning"@,
        "was frozen to death"@,
        "was squashed by"@,
        "was squished too much"@,
        "was poked to death"@,
        "was pricked to death"@,
        "was doomed to fall"@,
        "fell from a high place"@,
        "hit the ground too hard"@,
        "fell out of the world"@,
        "didn't want to live"@,
        "experienced kinetic energy"@,
        "drowned"@,
        "suffocated in a wall"@,
        "starved to death"@,
        "burned to death"@,
        "went up in flames"@,
        "tried to swim in lava"@,
        "discovered the floor was lava"@,
        "withered away"@,
        "killed by magic"@,
        "froze "@,
        "left the confines of this world"@,
    ]
}

/// `payload` contains one of the death phrases.
pub open spec fn mentions_death(payload: Seq<char>) -> bool {
    exists|i: int|
        0 <= i < spec_death_sentences().len() && contains_seq(
            payload,
            #[trigger] spec_death_sentences()[i],
        )
}

/// A system message that is server noise and is not relayed.
pub open spec fn is_noise(payload: Seq<char>) -> bool {
    ||| contains_seq(payload, "lost connection:"@)
    ||| contains_seq(payload, "Logged in with entity id"@)
    ||| contains_seq(payload, "Saving chunks for level"@)
    ||| contains_seq(payload, "Stopping server"@)
    ||| starts_with_seq(payload, "Rcon connection from"@)
}

/// The event that a system message reports, in order of precedence: a join,
/// a leave, noise (nothing), an advancement or challenge, a death, or nothing.
pub open spec fn classify_payload(payload: Seq<char>) -> Option<MinecraftEventView> {
    if contains_seq(payload, "joined the game"@) {
        Some(MinecraftEventView::PlayerJoinLeave { system_message: payload, is_join: true })
    } else if contains_seq(payload, "left the game"@) {
        Some(MinecraftEventView::PlayerJoinLeave { system_message: payload, is_join: false })
    } else if is_noise(payload) {
        None
    } else if contains_seq(payload, "has made the advancement"@) || contains_seq(
        payload,
        "has completed the challenge"@,
    ) {
        Some(MinecraftEventView::Advancement { system_message: payload })
    } else if mentions_death(payload) {
        Some(MinecraftEventView::Death { system_message: payload })
    } else {
        None
    }
}

/// The event that a log line reports: a chat line is chat; any other log line
/// is classified by its payload; anything else reports nothing.
pub open spec fn spec_parse_log_line(line: Seq<char>) -> Option<MinecraftEventView> {
    if exists|u: Seq<char>, m: Seq<char>| chat_line(line, u, m) {
        let (u, m) = choose|u: Seq<char>, m: Seq<char>| chat_line(line, u, m);
        Some(MinecraftEventView::Chat { username: u, message: m })
    } else if exists|p: Seq<char>| system_line(line, p) {
        classify_payload(choose|p: Seq<char>| system_line(line, p))
    } else {
        None
    }
}

// ---------------------------------------------------------------------------
// Uniqueness: a line has at most one reading
// ---------------------------------------------------------------------------

/// A line has at most one log prefix.
pub proof fn lemma_log_prefix_unique(s: Seq<char>, n1: int, n2: int)
    requires
        log_prefix(s, n1),
        log_prefix(s, n2),
    ensures
        n1 == n2,
{
    reveal_strlit("/INFO]:");
    assert(s.subrange(n1 - 8, n1 - 1)[5] == s[n1 - 3]);
    assert(s.subrange(n2 - 8, n2 - 1)[5] == s[n2 - 3]);
}

proof fn lemma_chat_tail_unique(t: Seq<char>, u1: Seq<char>, m1: Seq<char>, u2: Seq<char>, m2: Seq<char>)
    requires
        chat_tail(t, u1, m1),
        chat_tail(t, u2, m2),
    ensures
        u1 == u2,
        m1 == m2,
{
    if u1.len() < u2.len() {
        assert(t.subrange(1, u2.len() as int + 1)[u1.len() as int] == t[u1.len() as int + 1]);
        assert(is_name_char(u2[u1.len() as int]));
    } else if u2.len() < u1.len() {
        assert(t.subrange(1, u1.len() as int + 1)[u2.len() as int] == t[u2.len() as int + 1]);
        assert(is_name_char(u1[u2.len() as int]));
    }
}

proof fn lemma_chat_body_unique(b: Seq<char>, u1: Seq<char>, m1: Seq<char>, u2: Seq<char>, m2: Seq<char>)
    requires
        chat_body(b, u1, m1),
        chat_body(b, u2, m2),
    ensures
        u1 == u2,
        m1 == m2,
{
    reveal_strlit("[Not Secure]");
    if chat_tail(b, u1, m1) && chat_tail(b, u2, m2) {
        lemma_chat_tail_unique(b, u1, m1, u2, m2);
    } else if !chat_tail(b, u1, m1) && !chat_tail(b, u2, m2) {
        lemma_chat_tail_unique(b.skip(13), u1, m1, u2, m2);
    } else {
        // One reading starts with '<', the other with '['.
        assert(b.subrange(0, 12)[0] == b[0]);
    }
}

/// A chat line names one speaker and one message.
pub proof fn lemma_chat_line_unique(
    s: Seq<char>,
    u1: Seq<char>,
    m1: Seq<char>,
    u2: Seq<char>,
    m2: Seq<char>,
)
    requires
        chat_line(s, u1, m1),
        chat_line(s, u2, m2),
    ensures
        u1 == u2,
        m1 == m2,
{
    let n1 = choose|n: int| #[trigger] log_prefix(s, n) && chat_body(s.skip(n), u1, m1);
    let n2 = choose|n: int| #[trigger] log_prefix(s, n) && chat_body(s.skip(n), u2, m2);
    lemma_log_prefix_unique(s, n1, n2);
    lemma_chat_body_unique(s.skip(n1), u1, m1, u2, m2);
}

/// A log line has one payload.
pub proof fn lemma_system_line_unique(s: Seq<char>, p1: Seq<char>, p2: Seq<char>)
    requires
        system_line(s, p1),
        system_line(s, p2),
    ensures
        p1 == p2,
{
    let n1 = choose|n: int|
        #[trigger] log_prefix(s, n) && p1 == s.skip(n) && p1.len() >= 1 && single_line(p1);
    let n2 = choose|n: int|
        #[trigger] log_prefix(s, n) && p2 == s.skip(n) && p2.len() >= 1 && single_line(p2);
    lemma_log_prefix_unique(s, n1, n2);
}

/// A time stamp `hh:mm:ss`.
pub open spec fn is_time_stamp(stamp: Seq<char>) -> bool {
    &&& stamp.len() == 8
    &&& is_decimal_digit(stamp[0]) && is_decimal_digit(stamp[1]) && stamp[2] == ':'
    &&& is_decimal_digit(stamp[3]) && is_decimal_digit(stamp[4]) && stamp[5] == ':'
    &&& is_decimal_digit(stamp[6]) && is_decimal_digit(stamp[7])
}

/// The log line in which `user` says `message`.
pub open spec fn compose_chat_line(
    stamp: Seq<char>,
    thread: Seq<char>,
    user: Seq<char>,
    message: Seq<char>,
) -> Seq<char> {
    "["@ + stamp + "] ["@ + thread + "/INFO]: <"@ + user + "> "@ + message
}

/// A chat line written by the server is read back as what was said, by whom.
pub proof fn law_chat_line_read_back(
    stamp: Seq<char>,
    thread: Seq<char>,
    user: Seq<char>,
    message: Seq<char>,
)
    requires
        is_time_stamp(stamp),
        thread.len() >= 1,
        forall|i: int| 0 <= i < thread.len() ==> thread[i] != ']',
        3 <= user.len() <= 16,
        forall|i: int| 0 <= i < user.len() ==> is_name_char(#[trigger] user[i]),
        message.len() >= 1,
        single_line(message),
    ensures
        spec_parse_log_line(compose_chat_line(stamp, thread, user, message))
            == Some(MinecraftEventView::Chat { username: user, message }),
{
    reveal_strlit("[");
    reveal_strlit("] [");
    reveal_strlit("/INFO]: <");
    reveal_strlit("> ");
    reveal_strlit("/INFO]:");
    let line = compose_chat_line(stamp, thread, user, message);
    let t = thread.len() as int;
    let u = user.len() as int;
    let head = seq!['['] + stamp + seq![']', ' ', '['] + thread + "/INFO]:"@ + seq![' '];
    let tail = seq!['<'] + user + seq!['>', ' '] + message;
    assert(line =~= head + tail);
    let n = 20 + t;
    assert(head.len() == n);
    assert(line.skip(n) =~= tail);
    assert(line.subrange(n - 8, n - 1) =~= "/INFO]:"@);
    assert forall|i: int| 12 <= i < n - 3 implies line[i] != ']' by {
        if i < 12 + t {
            assert(line[i] == thread[i - 12]);
        } else {
            assert(line[i] == "/INFO]:"@[i - 12 - t]);
        }
    }
    assert(log_prefix(line, n));
    assert(tail.subrange(1, u + 1) =~= user);
    assert(tail.skip(u + 3) =~= message);
    assert(chat_tail(tail, user, message));
    assert(chat_line(line, user, message));
    assert forall|u2: Seq<char>, m2: Seq<char>| chat_line(line, u2, m2) implies u2 == user && m2
        == message by {
        lemma_chat_line_unique(line, user, message, u2, m2);
    }
}

/// The log line with a system message.
pub open spec fn compose_system_line(stamp: Seq<char>, thread: Seq<char>, payload: Seq<char>) -> Seq<
    char,
> {
    "["@ + stamp + "] ["@ + thread + "/INFO]: "@ + payload
}

/// A system message written by the server is read back as what its text
/// reports (where the text does not begin as chat does, with `<` or `[`).
pub proof fn law_system_line_read_back(stamp: Seq<char>, thread: Seq<char>, payload: Seq<char>)
    requires
        is_time_stamp(stamp),
        thread.len() >= 1,
        forall|i: int| 0 <= i < thread.len() ==> thread[i] != ']',
        payload.len() >= 1,
        single_line(payload),
        payload[0] != '<',
        payload[0] != '[',
    ensures
        spec_parse_log_line(compose_system_line(stamp, thread, payload)) == classify_payload(
            payload,
        ),
{
    reveal_strlit("[");
    reveal_strlit("] [");
    reveal_strlit("/INFO]: ");
    reveal_strlit("/INFO]:");
    reveal_strlit("[Not Secure]");
    let line = compose_system_line(stamp, thread, payload);
    let t = thread.len() as int;
    let head = seq!['['] + stamp + seq![']', ' ', '['] + thread + "/INFO]:"@ + seq![' '];
    assert(line =~= head + payload);
    let n = 20 + t;
    assert(head.len() == n);
    assert(line.skip(n) =~= payload);
    assert(line.subrange(n - 8, n - 1) =~= "/INFO]:"@);
    assert forall|i: int| 12 <= i < n - 3 implies line[i] != ']' by {
        if i < 12 + t {
            assert(line[i] == thread[i - 12]);
        } else {
            assert(line[i] == "/INFO]:"@[i - 12 - t]);
        }
    }
    assert(log_prefix(line, n));
    assert(system_line(line, payload));
    assert forall|u: Seq<char>, m: Seq<char>| !chat_line(line, u, m) by {
        if chat_line(line, u, m) {
            let k = choose|k: int| #[trigger] log_prefix(line, k) && chat_body(line.skip(k), u, m);
            lemma_log_prefix_unique(line, k, n);
            if payload.len() >= 12 {
                assert(payload.subrange(0, 12)[0] == payload[0]);
            }
        }
    }
    assert forall|p: Seq<char>| system_line(line, p) implies p == payload by {
        lemma_system_line_unique(line, payload, p);
    }
}

/// A system message reports a death exactly when it contains one of these
/// phrases.
pub proof fn law_death_phrases(p: Seq<char>)
    ensures
        mentions_death(p) <==> (
        contains_seq(p, "was slain by"@)
        || contains_seq(p, "was smashed by"@)
        || contains_seq(p, "was impaled by"@)
        || contains_seq(p, "was shot by"@)
        || contains_seq(p, "was pummeled by"@)
        || contains_seq(p, "was blown up by"@)
        || contains_seq(p, "was skewered by"@)
        || contains_seq(p, "was spit at by"@)
        || contains_seq(p, "was struck by lightning"@)
        || contains_seq(p, "was frozen to death"@)
        || contains_seq(p, "was squashed by"@)
        || contains_seq(p, "was squished too much"@)
        || contains_seq(p, "was poked to death"@)
        || contains_seq(p, "was pricked to death"@)
        || contains_seq(p, "was doomed to fall"@)
        || contains_seq(p, "fell from a high place"@)
        || contains_seq(p, "hit the ground too hard"@)
        || contains_seq(p, "fell out of the world"@)
        || contains_seq(p, "didn't want to live"@)
        || contains_seq(p, "experienced kinetic energy"@)
        || contains_seq(p, "drowned"@)
        || contains_seq(p, "suffocated in a wall"@)
        || contains_seq(p, "starved to death"@)
        || contains_seq(p, "burned to death"@)
        || contains_seq(p, "went up in flames"@)
        || contains_seq(p, "tried to swim in lava"@)
        || contains_seq(p, "discovered the floor was lava"@)
        || contains_seq(p, "withered away"@)
        || contains_seq(p, "killed by magic"@)
        || contains_seq(p, "froze "@)
        || contains_seq(p, "left the confines of this world"@)
        ),
{
    let ds = spec_death_sentences();
    assert(ds.len() == 31);
    if mentions_death(p) {
        let i = choose|i: int| 0 <= i < ds.len() && contains_seq(p, #[trigger] ds[i]);
        if i == 0 {
            assert(ds[0] == "was slain by"@);
        } else if i == 1 {
            assert(ds[1] == "was smashed by"@);
        } else if i == 2 {
            assert(ds[2] == "was impaled by"@);
        } else if i == 3 {
            assert(ds[3] == "was shot by"@);
        } else if i == 4 {
            assert(ds[4] == "was pummeled by"@);
        } else if i == 5 {
            assert(ds[5] == "was blown up by"@);
        } else if i == 6 {
            assert(ds[6] == "was skewered by"@);
        } else if i == 7 {
            assert(ds[7] == "was spit at by"@);
        } else if i == 8 {
            assert(ds[8] == "was struck by lightning"@);
        } else if i == 9 {
            assert(ds[9] == "was frozen to death"@);
        } else if i == 10 {
            assert(ds[10] == "was squashed by"@);
        } else if i == 11 {
            assert(ds[11] == "was squished too much"@);
        } else if i == 12 {
            assert(ds[12] == "was poked to death"@);
        } else if i == 13 {
            assert(ds[13] == "was pricked to death"@);
        } else if i == 14 {
            assert(ds[14] == "was doomed to fall"@);
        } else if i == 15 {
            assert(ds[15] == "fell from a high place"@);
        } else if i == 16 {
            assert(ds[16] == "hit the ground too hard"@);
        } else if i == 17 {
            assert(ds[17] == "fell out of the world"@);
        } else if i == 18 {
            assert(ds[18] == "didn't want to live"@);
        } else if i == 19 {
            assert(ds[19] == "experienced kinetic energy"@);
        } else if i == 20 {
            assert(ds[20] == "drowned"@);
        } else if i == 21 {
            assert(ds[21] == "suffocated in a wall"@);
        } else if i == 22 {
            assert(ds[22] == "starved to death"@);
        } else if i == 23 {
            assert(ds[23] == "burned to death"@);
        } else if i == 24 {
            assert(ds[24] == "went up in flames"@);
        } else if i == 25 {
            assert(ds[25] == "tried to swim in lava"@);
        } else if i == 26 {
            assert(ds[26] == "discovered the floor was lava"@);
        } else if i == 27 {
            assert(ds[27] == "withered away"@);
        } else if i == 28 {
            assert(ds[28] == "killed by magic"@);
        } else if i == 29 {
            assert(ds[29] == "froze "@);
        } else if i == 30 {
            assert(ds[30] == "left the confines of this world"@);
        }
    }
    if contains_seq(p, "was slain by"@) {
        assert(ds[0] == "was slain by"@);
        assert(contains_seq(p, ds[0]));
    }
    if contains_seq(p, "was smashed by"@) {
        assert(ds[1] == "was smashed by"@);
        assert(contains_seq(p, ds[1]));
    }
    if contains_seq(p, "was impaled by"@) {
        assert(ds[2] == "was impaled by"@);
        assert(contains_seq(p, ds[2]));
    }
    if contains_seq(p, "was shot by"@) {
        assert(ds[3] == "was shot by"@);
        assert(contains_seq(p, ds[3]));
    }
    if contains_seq(p, "was pummeled by"@) {
        assert(ds[4] == "was pummeled by"@);
        assert(contains_seq(p, ds[4]));
    }
    if contains_seq(p, "was blown up by"@) {
        assert(ds[5] == "was blown up by"@);
        assert(contains_seq(p, ds[5]));
    }
    if contains_seq(p, "was skewered by"@) {
        assert(ds[6] == "was skewered by"@);
        assert(contains_seq(p, ds[6]));
    }
    if contains_seq(p, "was spit at by"@) {
        assert(ds[7] == "was spit at by"@);
        assert(contains_seq(p, ds[7]));
    }
    if contains_seq(p, "was struck by lightning"@) {
        assert(ds[8] == "was struck by lightning"@);
        assert(contains_seq(p, ds[8]));
    }
    if contains_seq(p, "was frozen to death"@) {
        assert(ds[9] == "was frozen to death"@);
        assert(contains_seq(p, ds[9]));
    }
    if contains_seq(p, "was squashed by"@) {
        assert(ds[10] == "was squashed by"@);
        assert(contains_seq(p, ds[10]));
    }
    if contains_seq(p, "was squished too much"@) {
        assert(ds[11] == "was squished too much"@);
        assert(contains_seq(p, ds[11]));
    }
    if contains_seq(p, "was poked to death"@) {
        assert(ds[12] == "was poked to death"@);
        assert(contains_seq(p, ds[12]));
    }
    if contains_seq(p, "was pricked to death"@) {
        assert(ds[13] == "was pricked to death"@);
        assert(contains_seq(p, ds[13]));
    }
    if contains_seq(p, "was doomed to fall"@) {
        assert(ds[14] == "was doomed to fall"@);
        assert(contains_seq(p, ds[14]));
    }
    if contains_seq(p, "fell from a high place"@) {
        assert(ds[15] == "fell from a high place"@);
        assert(contains_seq(p, ds[15]));
    }
    if contains_seq(p, "hit the ground too hard"@) {
        assert(ds[16] == "hit the ground too hard"@);
        assert(contains_seq(p, ds[16]));
    }
    if contains_seq(p, "fell out of the world"@) {
        assert(ds[17] == "fell out of the world"@);
        assert(contains_seq(p, ds[17]));
    }
    if contains_seq(p, "didn't want to live"@) {
        assert(ds[18] == "didn't want to live"@);
        assert(contains_seq(p, ds[18]));
    }
    if contains_seq(p, "experienced kinetic energy"@) {
        assert(ds[19] == "experienced kinetic energy"@);
        assert(contains_seq(p, ds[19]));
    }
    if contains_seq(p, "drowned"@) {
        assert(ds[20] == "drowned"@);
        assert(contains_seq(p, ds[20]));
    }
    if contains_seq(p, "suffocated in a wall"@) {
        assert(ds[21] == "suffocated in a wall"@);
        assert(contains_seq(p, ds[21]));
    }
    if contains_seq(p, "starved to death"@) {
        assert(ds[22] == "starved to death"@);
        assert(contains_seq(p, ds[22]));
    }
    if contains_seq(p, "burned to death"@) {
        assert(ds[23] == "burned to death"@);
        assert(contains_seq(p, ds[23]));
    }
    if contains_seq(p, "went up in flames"@) {
        assert(ds[24] == "went up in flames"@);
        assert(contains_seq(p, ds[24]));
    }
    if contains_seq(p, "tried to swim in lava"@) {
        assert(ds[25] == "tried to swim in lava"@);
        assert(contains_seq(p, ds[25]));
    }
    if contains_seq(p, "discovered the floor was lava"@) {
        assert(ds[26] == "discovered the floor was lava"@);
        assert(contains_seq(p, ds[26]));
    }
    if contains_seq(p, "withered away"@) {
        assert(ds[27] == "withered away"@);
        assert(contains_seq(p, ds[27]));
    }
    if contains_seq(p, "killed by magic"@) {
        assert(ds[28] == "killed by magic"@);
        assert(contains_seq(p, ds[28]));
    }
    if contains_seq(p, "froze "@) {
        assert(ds[29] == "froze "@);
        assert(contains_seq(p, ds[29]));
    }
    if contains_seq(p, "left the confines of this world"@) {
        assert(ds[30] == "left the confines of this world"@);
        assert(contains_seq(p, ds[30]));
    }
}

/// A system message with one of the death phrases, and no join, leave,
/// noise or advancement phrase, is read as that death; so is the log line
/// that carries it.
pub proof fn law_death_read(stamp: Seq<char>, thread: Seq<char>, p: Seq<char>)
    requires
            contains_seq(p, "was slain by"@)
            || contains_seq(p, "was smashed by"@)
            || contains_seq(p, "was impaled by"@)
            || contains_seq(p, "was shot by"@)
            || contains_seq(p, "was pummeled by"@)
            || contains_seq(p, "was blown up by"@)
            || contains_seq(p, "was skewered by"@)
            || contains_seq(p, "was spit at by"@)
            || contains_seq(p, "was struck by lightning"@)
            || contains_seq(p, "was frozen to death"@)
            || contains_seq(p, "was squashed by"@)
            || contains_seq(p, "was squished too much"@)
            || contains_seq(p, "was poked to death"@)
            || contains_seq(p, "was pricked to death"@)
            || contains_seq(p, "was doomed to fall"@)
            || contains_seq(p, "fell from a high place"@)
            || contains_seq(p, "hit the ground too hard"@)
            || contains_seq(p, "fell out of the world"@)
            || contains_seq(p, "didn't want to live"@)
            || contains_seq(p, "experienced kinetic energy"@)
            || contains_seq(p, "drowned"@)
            || contains_seq(p, "suffocated in a wall"@)
            || contains_seq(p, "starved to death"@)
            || contains_seq(p, "burned to death"@)
            || contains_seq(p, "went up in flames"@)
            || contains_seq(p, "tried to swim in lava"@)
            || contains_seq(p, "discovered the floor was lava"@)
            || contains_seq(p, "withered away"@)
            || contains_seq(p, "killed by magic"@)
            || contains_seq(p, "froze "@)
            || contains_seq(p, "left the confines of this world"@),
        !contains_seq(p, "joined the game"@),
        !contains_seq(p, "left the game"@),
        !is_noise(p),
        !contains_seq(p, "has made the advancement"@),
        !contains_seq(p, "has completed the challenge"@),
    ensures
        classify_payload(p) == Some(MinecraftEventView::Death { system_message: p }),
        (is_time_stamp(stamp) && thread.len() >= 1 && (forall|i: int|
            0 <= i < thread.len() ==> thread[i] != ']') && p.len() >= 1 && single_line(p) && p[0]
            != '<' && p[0] != '[') ==> spec_parse_log_line(compose_system_line(stamp, thread, p))
            == Some(MinecraftEventView::Death { system_message: p }),
{
    law_death_phrases(p);
    if is_time_stamp(stamp) && thread.len() >= 1 && (forall|i: int|
        0 <= i < thread.len() ==> thread[i] != ']') && p.len() >= 1 && single_line(p) && p[0]
        != '<' && p[0] != '[' {
        law_system_line_read_back(stamp, thread, p);
    }
}

/// What a system message reports, by its phrases and in this order of
/// precedence: `joined the game` is a join, `left the game` a leave; the
/// server's own notices (a lost connection, a login with an entity id, saving
/// chunks, stopping, an RCON connection) report nothing; `has made the
/// advancement` or `has completed the challenge` is an advancement.
pub proof fn law_system_message_kinds(p: Seq<char>)
    ensures
        contains_seq(p, "joined the game"@) ==> classify_payload(p) == Some(
            MinecraftEventView::PlayerJoinLeave { system_message: p, is_join: true },
        ),
        !contains_seq(p, "joined the game"@) && contains_seq(p, "left the game"@)
            ==> classify_payload(p) == Some(
            MinecraftEventView::PlayerJoinLeave { system_message: p, is_join: false },
        ),
        !contains_seq(p, "joined the game"@) && !contains_seq(p, "left the game"@) && (
        contains_seq(p, "lost connection:"@) || contains_seq(p, "Logged in with entity id"@)
            || contains_seq(p, "Saving chunks for level"@) || contains_seq(p, "Stopping server"@)
            || starts_with_seq(p, "Rcon connection from"@)) ==> classify_payload(p) is None,
        !contains_seq(p, "joined the game"@) && !contains_seq(p, "left the game"@) && !(
        contains_seq(p, "lost connection:"@) || contains_seq(p, "Logged in with entity id"@)
            || contains_seq(p, "Saving chunks for level"@) || contains_seq(p, "Stopping server"@)
            || starts_with_seq(p, "Rcon connection from"@)) && (contains_seq(
            p,
            "has made the advancement"@,
        ) || contains_seq(p, "has completed the challenge"@)) ==> classify_payload(p) == Some(
            MinecraftEventView::Advancement { system_message: p },
        ),
{
}

// ---------------------------------------------------------------------------
// Recognising a log line
// ---------------------------------------------------------------------------

fn name_char(c: char) -> (res: bool)
    ensures
        res == is_name_char(c),
{
    ('a' <= c && c <= 'z') || ('A' <= c && c <= 'Z') || ('0' <= c && c <= '9') || c == '_'
}

/// No line break in `v[from..]`.
fn single_line_from(v: &Vec<char>, from: usize) -> (res: bool)
    requires
        from <= v.len(),
    ensures
        res == single_line(v@.skip(from as int)),
{
    let mut i = from;
    while i < v.len()
        invariant
            from <= i <= v.len(),
            forall|j: int| from <= j < i ==> v@[j] != '\n',
        decreases v.len() - i,
    {
        if v[i] == '\n' {
            assert(v@.skip(from as int)[i - from] == '\n');
            return false;
        }
        i += 1;
    }
    assert forall|j: int| 0 <= j < v@.skip(from as int).len() implies v@.skip(from as int)[j]
        != '\n' by {
        assert(v@.skip(from as int)[j] == v@[from + j]);
    }
    true
}

/// The length of the log prefix of `v`, if it has one.
fn log_prefix_len(v: &Vec<char>) -> (res: Option<usize>)
    ensures
        match res {
            Some(n) => log_prefix(v@, n as int),
            None => forall|n: int| !log_prefix(v@, n),
        },
{
    proof {
        reveal_strlit("/INFO]:");
    }
    if v.len() < 21 {
        return None;
    }
    if !(v[0] == '[' && decimal_digit(v[1]) && decimal_digit(v[2]) && v[3] == ':'
        && decimal_digit(v[4]) && decimal_digit(v[5]) && v[6] == ':' && decimal_digit(v[7])
        && decimal_digit(v[8]) && v[9] == ']' && white_space(v[10]) && v[11] == '[') {
        return None;
    }
    // The first ']' after the opening of the thread name.
    let mut j: usize = 12;
    while j < v.len() && v[j] != ']'
        invariant
            12 <= j <= v.len(),
            forall|i: int| 12 <= i < j ==> v@[i] != ']',
        decreases v.len() - j,
    {
        j += 1;
    }
    if j == v.len() {
        proof {
            assert forall|n: int| !log_prefix(v@, n) by {
                if log_prefix(v@, n) {
                    assert(v@.subrange(n - 8, n - 1)[5] == v@[n - 3]);
                }
            }
        }
        return None;
    }
    let info = chars_of("/INFO]:");
    if j >= 18 && v.len() - j > 2 && matches_at(v, &info, j - 5) && white_space(v[j + 2]) {
        return Some(j + 3);
    }
    proof {
        assert forall|n: int| !log_prefix(v@, n) by {
            if log_prefix(v@, n) {
                assert(v@.subrange(n - 8, n - 1)[5] == v@[n - 3]);
                assert(n - 3 == j);
            }
        }
    }
    None
}

/// Reads `<name>\s(message)` at `t`: the length of the name, if it is there.
fn chat_tail_name_len(v: &Vec<char>, t: usize) -> (res: Option<usize>)
    requires
        t <= v.len(),
    ensures
        match res {
            Some(u) => t + u + 3 <= v.len() && chat_tail(
                v@.skip(t as int),
                v@.subrange(t + 1, t + 1 + u),
                v@.skip(t + u + 3),
            ),
            None => forall|user: Seq<char>, message: Seq<char>|
                !chat_tail(v@.skip(t as int), user, message),
        },
{
    let ghost tail = v@.skip(t as int);
    if t >= v.len() || v[t] != '<' {
        return None;
    }
    let mut k = t + 1;
    while k < v.len() && name_char(v[k])
        invariant
            t + 1 <= k <= v.len(),
            forall|i: int| t + 1 <= i < k ==> is_name_char(v@[i]),
        decreases v.len() - k,
    {
        k += 1;
    }
    let u = k - (t + 1);
    if 3 <= u && u <= 16 && v.len() - k > 2 && v[k] == '>' && white_space(v[k + 1])
        && single_line_from(v, k + 2) {
        proof {
            let user = v@.subrange(t + 1, t + 1 + u);
            let message = v@.skip(t + u + 3);
            assert(tail.subrange(1, u + 1) =~= user);
            assert(tail.skip(u + 3) =~= message);
            assert forall|i: int| 0 <= i < user.len() implies is_name_char(#[trigger] user[i]) by {
                assert(user[i] == v@[t + 1 + i]);
            }
        }
        return Some(u);
    }
    proof {
        assert forall|user: Seq<char>, message: Seq<char>| !chat_tail(tail, user, message) by {
            if chat_tail(tail, user, message) {
                let ul = user.len() as int;
                // The name ends exactly where the run of name characters ends.
                if t + 1 + ul < k {
                    assert(tail[ul + 1] == v@[t + 1 + ul]);
                } else if t + 1 + ul > k {
                    assert(tail.subrange(1, ul + 1)[k - t - 1] == v@[k as int]);
                    assert(is_name_char(user[k - t - 1]));
                } else {
                    assert(tail[ul + 1] == v@[k as int]);
                    assert(tail[ul + 2] == v@[k + 1]);
                    assert(tail.skip(ul + 3) =~= v@.skip(k + 2));
                }
            }
        }
    }
    None
}

/// The phrases by which a system message reports a death.
pub fn death_sentences() -> (res: Vec<&'static str>)
    ensures
        res@.map_values(|s: &str| s@) == spec_death_sentences(),
{
    let res = vec![
        "was slain by",
        "was smashed by",
        "was impaled by",
        "was shot by",
        "was pummeled by",
        "was blown up by",
        "was skewered by",
        "was spit at by",
        "was struck by lightning",
        "was frozen to death",
        "was squashed by",
        "was squished too much",
        "was poked to death",
        "was pricked to death",
        "was doomed to fall",
        "fell from a high place",
        "hit the ground too hard",
        "fell out of the world",
        "didn't want to live",
        "experienced kinetic energy",
        "drowned",
        "suffocated in a wall",
        "starved to death",
        "burned to death",
        "went up in flames",
        "tried to swim in lava",
        "discovered the floor was lava",
        "withered away",
        "killed by magic",
        "froze ",
        "left the confines of this world",
    ];
    assert(res@.map_values(|s: &str| s@) =~= spec_death_sentences());
    res
}

/// Does the system message report a death?
fn is_death(payload: &Vec<char>) -> (res: bool)
    ensures
        res == mentions_death(payload@),
{
    let sentences = death_sentences();
    let mut i: usize = 0;
    while i < sentences.len()
        invariant
            i <= sentences.len(),
            sentences@.map_values(|s: &str| s@) == spec_death_sentences(),
            forall|j: int| 0 <= j < i ==> !contains_seq(payload@, spec_death_sentences()[j]),
        decreases sentences.len() - i,
    {
        assert(spec_death_sentences()[i as int] == sentences@[i as int]@);
        if contains(payload, sentences[i]) {
            return true;
        }
        i += 1;
    }
    false
}

/// The event that the system message `payload` reports.
pub fn classify(payload: String) -> (res: Option<MinecraftEvent>)
    ensures
        event_option_view(res) == classify_payload(payload@),
{
    let p = chars_of(payload.as_str());
    if contains(&p, "joined the game") {
        return Some(MinecraftEvent::PlayerJoinLeave { system_message: payload, is_join: true });
    }
    if contains(&p, "left the game") {
        return Some(MinecraftEvent::PlayerJoinLeave { system_message: payload, is_join: false });
    }
    if contains(&p, "lost connection:") {
        return None;
    }
    if contains(&p, "Logged in with entity id") || contains(&p, "Saving chunks for level")
        || contains(&p, "Stopping server") || starts_with(&p, "Rcon connection from") {
        return None;
    }
    if contains(&p, "has made the advancement") || contains(&p, "has completed the challenge") {
        return Some(MinecraftEvent::Advancement { system_message: payload });
    }
    if is_death(&p) {
        return Some(MinecraftEvent::Death { system_message: payload });
    }
    None
}

/// The event that a line of the server log reports: chat, a join or leave,
/// an advancement, a death, or nothing.
pub fn parse_log_line(line: &str) -> (res: Option<MinecraftEvent>)
    ensures
        event_option_view(res) == spec_parse_log_line(line@),
{
    let v = chars_of(line);
    let n = match log_prefix_len(&v) {
        Some(n) => n,
        None => {
            proof {
                assert forall|u: Seq<char>, m: Seq<char>| !chat_line(line@, u, m) by {
                    if chat_line(line@, u, m) {
                        let k = choose|k: int| #[trigger]
                            log_prefix(line@, k) && chat_body(line@.skip(k), u, m);
                    }
                }
                assert forall|p: Seq<char>| !system_line(line@, p) by {
                    if system_line(line@, p) {
                        let k = choose|k: int|
                            #[trigger] log_prefix(line@, k) && p == line@.skip(k) && p.len()
                                >= 1 && single_line(p);
                    }
                }
            }
            return None;
        },
    };
    let ghost body = v@.skip(n as int);
    proof {
        reveal_strlit("[Not Secure]");
    }
    // The optional "[Not Secure] " marker before the chat tail.
    let not_secure = chars_of("[Not Secure]");
    let t = if matches_at(&v, &not_secure, n) && n + 12 < v.len() && white_space(v[n + 12]) {
        n + 13
    } else {
        n
    };
    match chat_tail_name_len(&v, t) {
        Some(u) => {
            let username = string_of(&v, t + 1, t + 1 + u);
            let message = string_of(&v, t + u + 3, v.len());
            proof {
                let user = v@.subrange(t + 1, t + 1 + u);
                let msg = v@.skip(t + u + 3);
                assert(message@ =~= msg);
                if t == n + 13 {
                    assert(body.subrange(0, 12) =~= v@.subrange(n as int, n + 12));
                    assert(body.skip(13) =~= v@.skip(t as int));
                    assert(chat_body(body, user, msg));
                } else {
                    assert(body =~= v@.skip(t as int));
                }
                assert(chat_line(line@, user, msg));
                assert forall|u2: Seq<char>, m2: Seq<char>| chat_line(line@, u2, m2) implies u2
                    == user && m2 == msg by {
                    lemma_chat_line_unique(line@, user, msg, u2, m2);
                }
            }
            return Some(MinecraftEvent::Chat { username, message });
        },
        None => {},
    }
    proof {
        assert forall|u: Seq<char>, m: Seq<char>| !chat_line(line@, u, m) by {
            if chat_line(line@, u, m) {
                let k = choose|k: int| #[trigger]
                    log_prefix(line@, k) && chat_body(line@.skip(k), u, m);
                lemma_log_prefix_unique(line@, k, n as int);
                if chat_tail(body, u, m) {
                    if t == n + 13 {
                        assert(body.subrange(0, 12)[0] == body[0]);
                    } else {
                        assert(body =~= v@.skip(t as int));
                    }
                } else {
                    assert(body.subrange(0, 12) =~= v@.subrange(n as int, n + 12));
                    assert(body.skip(13) =~= v@.skip(n + 13));
                }
            }
        }
    }
    if n < v.len() && single_line_from(&v, n) {
        let payload = string_of(&v, n, v.len());
        proof {
            assert(payload@ =~= body);
            assert(system_line(line@, payload@));
            assert forall|p: Seq<char>| system_line(line@, p) implies p == payload@ by {
                lemma_system_line_unique(line@, payload@, p);
            }
        }
        return classify(payload);
    }
    proof {
        assert forall|p: Seq<char>| !system_line(line@, p) by {
            if system_line(line@, p) {
                let k = choose|k: int|
                    #[trigger] log_prefix(line@, k) && p == line@.skip(k) && p.len() >= 1
                        && single_line(p);
                lemma_log_prefix_unique(line@, k, n as int);
            }
        }
    }
    None
}

} // verus!
