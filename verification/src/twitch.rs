use vstd::prelude::*;
use vstd::string::StrSliceExecFns;
use vstd::string::StringExecFns;
use crate::Command;
use crate::text::has_prefix_at;
use crate::text::is_ws_char;
use crate::text::prefix_at;
use crate::text::scan_word_run;
use crate::text::scan_ws_run;
use crate::text::str_eq;
use crate::text::trim_ws;
use crate::text::trim_ws_back;
use crate::text::trim_ws_str;
use crate::text::word_run_end;
use crate::text::ws_char;
use crate::text::ws_run_end;

verus! {

// ---------------------------------------------------------------------------
// Outbound wire text. A message is one line of text destined for the wire,
// already terminated; the formatters below are the only producers.
// ---------------------------------------------------------------------------

/// One outbound line of wire text.
#[derive(Debug)]
pub struct IRCMessage(pub String);

pub open spec fn pass_text(secret: Seq<char>) -> Seq<char> {
    "PASS "@ + secret + "\r\n"@
}

pub open spec fn nick_text(nick: Seq<char>) -> Seq<char> {
    "NICK "@ + nick + "\r\n"@
}

pub open spec fn join_text(channel: Seq<char>) -> Seq<char> {
    "JOIN #"@ + channel + "\r\n"@
}

pub open spec fn plain_text(text: Seq<char>) -> Seq<char> {
    text + "\r\n"@
}

pub open spec fn privmsg_text(text: Seq<char>, channel: Seq<char>) -> Seq<char> {
    "PRIVMSG #"@ + channel + " :"@ + text + "\r\n"@
}

pub open spec fn pong_text() -> Seq<char> {
    "PONG :tmi.twitch.tv\r\n"@
}

/// Renders the outbound message kinds to wire text.
pub struct TwitchFmt {}

impl TwitchFmt {
    pub fn pass(pass: &String) -> (m: IRCMessage)
        ensures
            m.0@ == pass_text(pass@),
    {
        let mut s = "PASS ".to_owned();
        s.append(pass.as_str());
        s.append("\r\n");
        IRCMessage(s)
    }

    pub fn nick(nick: &String) -> (m: IRCMessage)
        ensures
            m.0@ == nick_text(nick@),
    {
        let mut s = "NICK ".to_owned();
        s.append(nick.as_str());
        s.append("\r\n");
        IRCMessage(s)
    }

    pub fn join(join: &String) -> (m: IRCMessage)
        ensures
            m.0@ == join_text(join@),
    {
        let mut s = "JOIN #".to_owned();
        s.append(join.as_str());
        s.append("\r\n");
        IRCMessage(s)
    }

    pub fn text(text: &String) -> (m: IRCMessage)
        ensures
            m.0@ == plain_text(text@),
    {
        let mut s = text.as_str().to_owned();
        s.append("\r\n");
        IRCMessage(s)
    }

    pub fn privmsg(text: &String, channel: &String) -> (m: IRCMessage)
        ensures
            m.0@ == privmsg_text(text@, channel@),
    {
        let mut s = "PRIVMSG #".to_owned();
        s.append(channel.as_str());
        s.append(" :");
        s.append(text.as_str());
        s.append("\r\n");
        IRCMessage(s)
    }

    pub fn pong() -> (m: IRCMessage)
        ensures
            m.0@ == pong_text(),
    {
        IRCMessage("PONG :tmi.twitch.tv\r\n".to_owned())
    }
}

// ---------------------------------------------------------------------------
// The secondary line classifier: lines that are not chat commands. An empty
// line means the far end closed the session; the literal keep-alive probe
// line gets exactly one keep-alive reply; anything else is ignored.
// ---------------------------------------------------------------------------

pub open spec fn keepalive_probe() -> Seq<char> {
    "PING :tmi.twitch.tv"@
}

pub fn handle_twitch(line: &String) -> (r: (Command, Option<IRCMessage>))
    ensures
        trim_ws(line@) == Seq::<char>::empty() ==> r.0 == Command::Stop && r.1 is None,
        trim_ws(line@) == keepalive_probe() ==> r.0 == Command::Continue && (r.1 matches Some(m)
            && m.0@ == pong_text()),
        trim_ws(line@) != Seq::<char>::empty() && trim_ws(line@) != keepalive_probe() ==> r.0
            == Command::Continue && r.1 is None,
{
    proof {
        reveal_strlit("PING :tmi.twitch.tv");
    }
    let t = trim_ws_str(line.as_str());
    if t.unicode_len() == 0 {
        proof {
            assert(t@ =~= Seq::<char>::empty());
        }
        (Command::Stop, None)
    } else if str_eq(t, "PING :tmi.twitch.tv") {
        (Command::Continue, Some(TwitchFmt::pong()))
    } else {
        (Command::Continue, None)
    }
}

// ---------------------------------------------------------------------------
// The chat-message pattern. A recognized line has the shape
//
//   :<speaker>!<user>@<host>.tmi.twitch.tv PRIVMSG #<channel> :<trigger><text>
//
// anchored at the line's start, where <speaker>, <user>, <host> and
// <channel> are maximal (possibly empty) runs of ASCII word characters, the
// trigger is the keyword "bot " or one of the marks '!' and '~' after
// optional whitespace, and the command text is what follows the trigger,
// stripped of surrounding whitespace and not empty. The extraction yields
// the speaker and the command text.
// ---------------------------------------------------------------------------

pub open spec fn parse_after_trigger(s: Seq<char>, t_end: int, speaker: Seq<char>) -> Option<
    (Seq<char>, Seq<char>),
> {
    let c0 = ws_run_end(s, t_end);
    let text = trim_ws_back(s.skip(c0));
    if text.len() == 0 {
        None
    } else {
        Some((speaker, text))
    }
}

pub open spec fn parse_privmsg_spec(s: Seq<char>) -> Option<(Seq<char>, Seq<char>)> {
    if s.len() == 0 || s[0] != ':' {
        None
    } else {
        let i1 = word_run_end(s, 1);
        if !(i1 < s.len() && s[i1] == '!') {
            None
        } else {
            let i2 = word_run_end(s, i1 + 1);
            if !(i2 < s.len() && s[i2] == '@') {
                None
            } else {
                let i3 = word_run_end(s, i2 + 1);
                if !has_prefix_at(s, i3, ".tmi.twitch.tv PRIVMSG #"@) {
                    None
                } else {
                    let i4 = word_run_end(s, i3 + ".tmi.twitch.tv PRIVMSG #"@.len());
                    if !has_prefix_at(s, i4, " :"@) {
                        None
                    } else {
                        let i5 = ws_run_end(s, i4 + " :"@.len());
                        let speaker = s.subrange(1, i1);
                        if has_prefix_at(s, i5, "bot "@) {
                            parse_after_trigger(s, i5 + "bot "@.len(), speaker)
                        } else if i5 < s.len() && (s[i5] == '!' || s[i5] == '~') {
                            parse_after_trigger(s, i5 + 1, speaker)
                        } else {
                            None
                        }
                    }
                }
            }
        }
    }
}

/// Extracts the speaker and the command text from a chat-message line.
pub fn parse_privmsg(line: &str) -> (r: Option<(String, String)>)
    ensures
        match r {
            Some(p) => parse_privmsg_spec(line@) == Some((p.0@, p.1@)),
            None => parse_privmsg_spec(line@) is None,
        },
{
    let len = line.unicode_len();
    if len == 0 || line.get_char(0) != ':' {
        return None;
    }
    let i1 = scan_word_run(line, 1);
    if !(i1 < len && line.get_char(i1) == '!') {
        return None;
    }
    let i2 = scan_word_run(line, i1 + 1);
    if !(i2 < len && line.get_char(i2) == '@') {
        return None;
    }
    let i3 = scan_word_run(line, i2 + 1);
    if !prefix_at(line, i3, ".tmi.twitch.tv PRIVMSG #") {
        return None;
    }
    let host_len = ".tmi.twitch.tv PRIVMSG #".unicode_len();
    let i4 = scan_word_run(line, i3 + host_len);
    if !prefix_at(line, i4, " :") {
        return None;
    }
    let sep_len = " :".unicode_len();
    let i5 = scan_ws_run(line, i4 + sep_len);
    let t_end: usize;
    if prefix_at(line, i5, "bot ") {
        t_end = i5 + "bot ".unicode_len();
    } else if i5 < len && (line.get_char(i5) == '!' || line.get_char(i5) == '~') {
        t_end = i5 + 1;
    } else {
        return None;
    }
    let c0 = scan_ws_run(line, t_end);
    let mut e: usize = len;
    proof {
        assert(line@.subrange(c0 as int, len as int) =~= line@.skip(c0 as int));
    }
    while e > c0 && ws_char(line.get_char(e - 1))
        invariant
            c0 <= e <= len,
            len == line@.len(),
            trim_ws_back(line@.subrange(c0 as int, e as int)) == trim_ws_back(
                line@.skip(c0 as int),
            ),
        decreases e,
    {
        proof {
            assert(line@.subrange(c0 as int, e as int).drop_last() =~= line@.subrange(
                c0 as int,
                e as int - 1,
            ));
        }
        e = e - 1;
    }
    proof {
        assert(trim_ws_back(line@.subrange(c0 as int, e as int)) == line@.subrange(
            c0 as int,
            e as int,
        ));
    }
    if e == c0 {
        return None;
    }
    let speaker = line.substring_char(1, i1).to_owned();
    let text = line.substring_char(c0, e).to_owned();
    Some((speaker, text))
}

} // verus!
