use rustybot::twitch::{parse_privmsg, handle_twitch, TwitchFmt};
use rustybot::Command;

#[test]
fn pass_line_is_formatted() {
    let m = TwitchFmt::pass(&"hunter2".to_string());
    assert_eq!(m.0, "PASS hunter2\r\n");
}

#[test]
fn nick_line_is_formatted() {
    let m = TwitchFmt::nick(&"rustybot".to_string());
    assert_eq!(m.0, "NICK rustybot\r\n");
}

#[test]
fn join_line_is_formatted() {
    let m = TwitchFmt::join(&"desktopfolder".to_string());
    assert_eq!(m.0, "JOIN #desktopfolder\r\n");
}

#[test]
fn raw_text_gets_terminator() {
    let m = TwitchFmt::text(&"CAP REQ :twitch.tv/tags".to_string());
    assert_eq!(m.0, "CAP REQ :twitch.tv/tags\r\n");
}

#[test]
fn privmsg_targets_the_channel() {
    let m = TwitchFmt::privmsg(&"hello".to_string(), &"desktopfolder".to_string());
    assert_eq!(m.0, "PRIVMSG #desktopfolder :hello\r\n");
}

#[test]
fn pong_line_is_fixed() {
    let m = TwitchFmt::pong();
    assert_eq!(m.0, "PONG :tmi.twitch.tv\r\n");
}

#[test]
fn chat_line_with_bang_trigger_is_extracted() {
    let line = ":someuser!someuser@someuser.tmi.twitch.tv PRIVMSG #desktopfolder :!say hello there\r\n";
    let (speaker, text) = parse_privmsg(line).expect("line should match");
    assert_eq!(speaker, "someuser");
    assert_eq!(text, "say hello there");
}

#[test]
fn chat_line_with_tilde_trigger_is_extracted() {
    let line = ":a_b9!a_b9@a_b9.tmi.twitch.tv PRIVMSG #chan :~json\r\n";
    let (speaker, text) = parse_privmsg(line).expect("line should match");
    assert_eq!(speaker, "a_b9");
    assert_eq!(text, "json");
}

#[test]
fn chat_line_with_keyword_trigger_is_extracted() {
    let line = ":viewer!viewer@viewer.tmi.twitch.tv PRIVMSG #chan : bot game bet for 10\r\n";
    let (speaker, text) = parse_privmsg(line).expect("line should match");
    assert_eq!(speaker, "viewer");
    assert_eq!(text, "game bet for 10");
}

#[test]
fn command_text_is_trimmed_of_surrounding_whitespace() {
    let line = ":u!u@u.tmi.twitch.tv PRIVMSG #c :!   spaced out   \r\n";
    let (_, text) = parse_privmsg(line).expect("line should match");
    assert_eq!(text, "spaced out");
}

#[test]
fn line_without_trigger_does_not_match() {
    let line = ":u!u@u.tmi.twitch.tv PRIVMSG #c :just chatting\r\n";
    assert!(parse_privmsg(line).is_none());
}

#[test]
fn keepalive_probe_does_not_match_the_chat_pattern() {
    assert!(parse_privmsg("PING :tmi.twitch.tv\r\n").is_none());
}

#[test]
fn server_notice_does_not_match_the_chat_pattern() {
    let line = ":tmi.twitch.tv 001 rustybot :Welcome, GLHF!\r\n";
    assert!(parse_privmsg(line).is_none());
}

#[test]
fn wrong_host_does_not_match() {
    let line = ":u!u@u.example.org PRIVMSG #c :!say hi\r\n";
    assert!(parse_privmsg(line).is_none());
}

#[test]
fn empty_command_text_does_not_match() {
    let line = ":u!u@u.tmi.twitch.tv PRIVMSG #c :!\r\n";
    assert!(parse_privmsg(line).is_none());
}

#[test]
fn empty_line_stops_the_session() {
    let (c, m) = handle_twitch(&"\r\n".to_string());
    assert!(matches!(c, Command::Stop));
    assert!(m.is_none());
}

#[test]
fn keepalive_probe_gets_exactly_one_pong() {
    let (c, m) = handle_twitch(&"PING :tmi.twitch.tv\r\n".to_string());
    assert!(matches!(c, Command::Continue));
    assert_eq!(m.expect("a pong is owed").0, "PONG :tmi.twitch.tv\r\n");
}

#[test]
fn other_lines_are_ignored() {
    let (c, m) = handle_twitch(&":tmi.twitch.tv 372 rustybot :motd\r\n".to_string());
    assert!(matches!(c, Command::Continue));
    assert!(m.is_none());
}
