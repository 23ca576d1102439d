use rustybot::command_tree::{CmdValue, CommandNode, CommandTree};
use rustybot::dispatch::{
    auth_messages, do_command, game_reply, process_line, DispatchOutcome, GameOp, GameResponse,
};
use rustybot::Command;

fn one_command_tree(name: &str, node: CommandNode) -> CommandTree {
    CommandTree {
        version: "0.0.0".to_string(),
        host: "irc.chat.twitch.tv".to_string(),
        port: "6667".to_string(),
        commands: vec![(name.to_string(), node)],
    }
}

fn outcome(ct: &CommandTree, user: &str, cmd: &str) -> DispatchOutcome {
    do_command(ct, &user.to_string(), cmd.to_string(), &"chan".to_string())
}

#[test]
fn string_response_is_replied_verbatim() {
    let ct = one_command_tree(
        "json",
        CommandNode::new(CmdValue::StringResponse("JSON wins".to_string())),
    );
    let r = outcome(&ct, "viewer", "json");
    assert!(matches!(r.control, Command::Continue));
    assert_eq!(r.reply.expect("a reply is owed").0, "PRIVMSG #chan :JSON wins\r\n");
    assert!(r.game.is_none());
}

#[test]
fn no_match_does_nothing() {
    let ct = one_command_tree(
        "json",
        CommandNode::new(CmdValue::StringResponse("JSON wins".to_string())),
    );
    let r = outcome(&ct, "viewer", "nosuch");
    assert!(matches!(r.control, Command::Continue));
    assert!(r.reply.is_none());
    assert!(r.game.is_none());
}

#[test]
fn admin_only_command_is_blocked_for_others() {
    let mut stop = CommandNode::new(CmdValue::Generic("meta:stop".to_string()));
    stop.admin_only = true;
    let ct = one_command_tree("stop", stop);
    let r = outcome(&ct, "viewer", "stop");
    assert!(matches!(r.control, Command::Continue));
    assert_eq!(
        r.reply.expect("a rejection is owed").0,
        "PRIVMSG #chan :Naughty naughty, that's not for you!\r\n"
    );
    assert!(r.game.is_none());
}

#[test]
fn admin_only_command_runs_for_the_administrator() {
    let mut stop = CommandNode::new(CmdValue::Generic("meta:stop".to_string()));
    stop.admin_only = true;
    let ct = one_command_tree("stop", stop);
    let r = outcome(&ct, "desktopfolder", "stop");
    assert!(matches!(r.control, Command::Stop));
    assert!(r.reply.is_none());
    assert!(r.game.is_none());
}

#[test]
fn help_command_replies_with_fixed_text() {
    let ct = one_command_tree("help", CommandNode::new(CmdValue::Generic("meta:help".to_string())));
    let r = outcome(&ct, "viewer", "help");
    assert_eq!(r.reply.expect("a reply is owed").0, "PRIVMSG #chan :No help for you, good sir!\r\n");
}

#[test]
fn say_command_echoes_the_residual_arguments() {
    let ct = one_command_tree("say", CommandNode::new(CmdValue::Generic("meta:say".to_string())));
    let r = outcome(&ct, "viewer", "say hello, friends");
    assert_eq!(r.reply.expect("a reply is owed").0, "PRIVMSG #chan :hello, friends\r\n");
    assert!(matches!(r.control, Command::Continue));
}

#[test]
fn say_raw_command_sends_unwrapped_text() {
    let ct = one_command_tree("raw", CommandNode::new(CmdValue::Generic("meta:say_raw".to_string())));
    let r = outcome(&ct, "viewer", "raw CAP REQ");
    assert_eq!(r.reply.expect("a reply is owed").0, "CAP REQ\r\n");
}

#[test]
fn leftover_alias_does_nothing() {
    let ct = one_command_tree("a", CommandNode::new(CmdValue::Alias("a".to_string())));
    let r = outcome(&ct, "viewer", "a");
    assert!(matches!(r.control, Command::Continue));
    assert!(r.reply.is_none());
    assert!(r.game.is_none());
}

#[test]
fn unknown_generic_key_does_nothing() {
    let ct = one_command_tree("odd", CommandNode::new(CmdValue::Generic("meta:odd".to_string())));
    let r = outcome(&ct, "viewer", "odd");
    assert!(matches!(r.control, Command::Continue));
    assert!(r.reply.is_none());
    assert!(r.game.is_none());
}

#[test]
fn bet_for_is_delegated_to_the_game() {
    let ct = one_command_tree(
        "bet",
        CommandNode::new(CmdValue::Generic("game:bet_for".to_string())),
    );
    let r = outcome(&ct, "viewer", "bet 10");
    assert!(r.reply.is_none());
    assert!(matches!(r.game, Some(GameOp::BetFor(u, a)) if u == "viewer" && a == "10"));
}

#[test]
fn bet_against_is_delegated_to_the_game() {
    let ct = one_command_tree(
        "doubt",
        CommandNode::new(CmdValue::Generic("game:bet_against".to_string())),
    );
    let r = outcome(&ct, "viewer", "doubt 5");
    assert!(matches!(r.game, Some(GameOp::BetAgainst(u, a)) if u == "viewer" && a == "5"));
}

#[test]
fn status_query_defaults_to_the_invoker() {
    let ct = one_command_tree(
        "status",
        CommandNode::new(CmdValue::Generic("game:status".to_string())),
    );
    let r = outcome(&ct, "viewer", "status");
    assert!(matches!(r.game, Some(GameOp::Status(q)) if q == "viewer"));
    let r2 = outcome(&ct, "viewer", "status other");
    assert!(matches!(r2.game, Some(GameOp::Status(q)) if q == "other"));
}

#[test]
fn outcome_commands_map_to_game_ops() {
    let ct = one_command_tree(
        "failed",
        CommandNode::new(CmdValue::Generic("game:failed".to_string())),
    );
    assert!(matches!(outcome(&ct, "v", "failed").game, Some(GameOp::Failed)));
    let ct2 = one_command_tree(
        "worked",
        CommandNode::new(CmdValue::Generic("game:worked".to_string())),
    );
    assert!(matches!(outcome(&ct2, "v", "worked").game, Some(GameOp::Worked)));
    let ct3 = one_command_tree(
        "reload",
        CommandNode::new(CmdValue::Generic("game:reload".to_string())),
    );
    assert!(matches!(outcome(&ct3, "v", "reload").game, Some(GameOp::Reload)));
    let ct4 = one_command_tree("save", CommandNode::new(CmdValue::Generic("game:save".to_string())));
    assert!(matches!(outcome(&ct4, "v", "save").game, Some(GameOp::Save)));
}

#[test]
fn rejected_bet_is_reported_to_the_channel() {
    let r = game_reply(GameResponse::Rejected("no such stake".to_string()), &"chan".to_string());
    assert_eq!(r.expect("an explanation is owed").0, "PRIVMSG #chan :no such stake\r\n");
}

#[test]
fn accepted_bet_is_quiet() {
    assert!(game_reply(GameResponse::Accepted, &"chan".to_string()).is_none());
    assert!(game_reply(GameResponse::Done, &"chan".to_string()).is_none());
}

#[test]
fn game_report_is_sent_to_the_channel() {
    let r = game_reply(GameResponse::Report("viewer is up 3".to_string()), &"chan".to_string());
    assert_eq!(r.expect("a report is owed").0, "PRIVMSG #chan :viewer is up 3\r\n");
}

#[test]
fn probe_line_gets_one_pong_and_never_reaches_the_resolver() {
    let ct = one_command_tree(
        "ping",
        CommandNode::new(CmdValue::StringResponse("should not fire".to_string())),
    );
    let r = process_line(
        &ct,
        &"chan".to_string(),
        &"PING :tmi.twitch.tv\r\n".to_string(),
    );
    assert!(matches!(r.control, Command::Continue));
    assert_eq!(r.reply.expect("a pong is owed").0, "PONG :tmi.twitch.tv\r\n");
    assert!(r.game.is_none());
}

#[test]
fn empty_line_ends_the_read_loop() {
    let ct = one_command_tree(
        "json",
        CommandNode::new(CmdValue::StringResponse("JSON wins".to_string())),
    );
    let r = process_line(&ct, &"chan".to_string(), &"\r\n".to_string());
    assert!(matches!(r.control, Command::Stop));
    assert!(r.reply.is_none());
    assert!(r.game.is_none());
}

#[test]
fn chat_line_is_dispatched_end_to_end() {
    let ct = one_command_tree(
        "json",
        CommandNode::new(CmdValue::StringResponse("JSON wins".to_string())),
    );
    let line = ":viewer!viewer@viewer.tmi.twitch.tv PRIVMSG #chan :!json\r\n".to_string();
    let r = process_line(&ct, &"chan".to_string(), &line);
    assert!(matches!(r.control, Command::Continue));
    assert_eq!(r.reply.expect("a reply is owed").0, "PRIVMSG #chan :JSON wins\r\n");
    assert!(r.game.is_none());
}

#[test]
fn admin_command_from_chat_is_blocked_for_others() {
    let mut stop = CommandNode::new(CmdValue::Generic("meta:stop".to_string()));
    stop.admin_only = true;
    let ct = one_command_tree("stop", stop);
    let line = ":viewer!viewer@viewer.tmi.twitch.tv PRIVMSG #chan :!stop\r\n".to_string();
    let r = process_line(&ct, &"chan".to_string(), &line);
    assert!(matches!(r.control, Command::Continue));
    assert_eq!(
        r.reply.expect("a rejection is owed").0,
        "PRIVMSG #chan :Naughty naughty, that's not for you!\r\n"
    );
}

#[test]
fn unrecognized_line_is_ignored() {
    let ct = one_command_tree(
        "json",
        CommandNode::new(CmdValue::StringResponse("JSON wins".to_string())),
    );
    let r = process_line(&ct, &"chan".to_string(), &":tmi.twitch.tv 372 bot :motd\r\n".to_string());
    assert!(matches!(r.control, Command::Continue));
    assert!(r.reply.is_none());
    assert!(r.game.is_none());
}

#[test]
fn nested_command_from_chat_reaches_the_game() {
    let mut bet = CommandNode::new(CmdValue::StringResponse("unused".to_string()));
    bet.subcommands = vec![(
        "for".to_string(),
        CommandNode::new(CmdValue::Generic("game:bet_for".to_string())),
    )];
    let mut game = CommandNode::new(CmdValue::StringResponse("game".to_string()));
    game.subcommands = vec![("bet".to_string(), bet)];
    let ct = one_command_tree("game", game);
    let line = ":viewer!viewer@viewer.tmi.twitch.tv PRIVMSG #chan :!game bet for 10\r\n".to_string();
    let r = process_line(&ct, &"chan".to_string(), &line);
    assert!(matches!(r.control, Command::Continue));
    assert!(r.reply.is_none());
    assert!(matches!(r.game, Some(GameOp::BetFor(u, a)) if u == "viewer" && a == "10"));
}

#[test]
fn handshake_sends_three_lines_in_order() {
    let v = auth_messages(
        &"rustybot".to_string(),
        &"oauth:token".to_string(),
        &"desktopfolder".to_string(),
    );
    assert_eq!(v.len(), 3);
    assert_eq!(v[0].0, "PASS oauth:token\r\n");
    assert_eq!(v[1].0, "NICK rustybot\r\n");
    assert_eq!(v[2].0, "JOIN #desktopfolder\r\n");
}
