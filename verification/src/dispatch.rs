use vstd::prelude::*;
use crate::Command;
use crate::command_tree::CmdValue;
use crate::command_tree::CommandTree;
use crate::command_tree::find_spec;
use crate::text::str_eq;
use crate::text::trim_ws;
use crate::text::trim_ws_front;
use crate::text::is_ws_char;
use crate::text::lemma_trim_ws_back_prefix;
use crate::twitch::IRCMessage;
use crate::twitch::TwitchFmt;
use crate::twitch::handle_twitch;
use crate::twitch::keepalive_probe;
use crate::twitch::parse_privmsg;
use crate::twitch::parse_privmsg_spec;
use crate::twitch::plain_text;
use crate::twitch::pong_text;
use crate::twitch::privmsg_text;
use crate::twitch::pass_text;
use crate::twitch::nick_text;
use crate::twitch::join_text;

verus! {

// ---------------------------------------------------------------------------
// The command dispatcher: turns a resolved node, the residual argument text
// and the invoking identity into a control signal, at most one outbound
// reply, and at most one request to the external game collaborator.
// ---------------------------------------------------------------------------

/// The administrator identity; only it may invoke admin-only commands.
pub open spec fn admin_name() -> Seq<char> {
    "desktopfolder"@
}

/// The fixed reply to a privilege violation.
pub open spec fn rejection_text() -> Seq<char> {
    "Naughty naughty, that's not for you!"@
}

/// The fixed reply to the help command.
pub open spec fn help_reply_text() -> Seq<char> {
    "No help for you, good sir!"@
}

/// A request to the external game collaborator.
#[derive(Debug)]
pub enum GameOp {
    /// Record a bet that it works: invoker, stake text.
    BetFor(String, String),
    /// Record a bet that it fails: invoker, stake text.
    BetAgainst(String, String),
    /// Note the outcome: it failed.
    Failed,
    /// Note the outcome: it worked.
    Worked,
    /// Query a player's standing.
    Status(String),
    /// Reload the game's persisted state.
    Reload,
    /// Save the game's state.
    Save,
}

/// The value of a game request, for contracts.
pub enum GameOpView {
    BetFor(Seq<char>, Seq<char>),
    BetAgainst(Seq<char>, Seq<char>),
    Failed,
    Worked,
    Status(Seq<char>),
    Reload,
    Save,
}

pub open spec fn view_game_op(g: GameOp) -> GameOpView {
    match g {
        GameOp::BetFor(u, a) => GameOpView::BetFor(u@, a@),
        GameOp::BetAgainst(u, a) => GameOpView::BetAgainst(u@, a@),
        GameOp::Failed => GameOpView::Failed,
        GameOp::Worked => GameOpView::Worked,
        GameOp::Status(q) => GameOpView::Status(q@),
        GameOp::Reload => GameOpView::Reload,
        GameOp::Save => GameOpView::Save,
    }
}

/// What one inbound utterance amounts to: a control signal, at most one
/// outbound line, and at most one game request.
#[derive(Debug)]
pub struct DispatchOutcome {
    pub control: Command,
    pub reply: Option<IRCMessage>,
    pub game: Option<GameOp>,
}

/// The dispatch table for generic action keys. Unknown keys do nothing.
pub open spec fn dispatch_generic(
    id: Seq<char>,
    user: Seq<char>,
    args: Seq<char>,
    channel: Seq<char>,
) -> (Command, Option<Seq<char>>, Option<GameOpView>) {
    if id == "meta:help"@ {
        (Command::Continue, Some(privmsg_text(help_reply_text(), channel)), None)
    } else if id == "meta:stop"@ {
        (Command::Stop, None, None)
    } else if id == "meta:say"@ {
        (Command::Continue, Some(privmsg_text(args, channel)), None)
    } else if id == "meta:say_raw"@ {
        (Command::Continue, Some(plain_text(args)), None)
    } else if id == "game:bet_for"@ {
        (Command::Continue, None, Some(GameOpView::BetFor(user, args)))
    } else if id == "game:bet_against"@ {
        (Command::Continue, None, Some(GameOpView::BetAgainst(user, args)))
    } else if id == "game:failed"@ {
        (Command::Continue, None, Some(GameOpView::Failed))
    } else if id == "game:worked"@ {
        (Command::Continue, None, Some(GameOpView::Worked))
    } else if id == "game:status"@ {
        (
            Command::Continue,
            None,
            Some(GameOpView::Status(if args.len() == 0 { user } else { args })),
        )
    } else if id == "game:reload"@ {
        (Command::Continue, None, Some(GameOpView::Reload))
    } else if id == "game:save"@ {
        (Command::Continue, None, Some(GameOpView::Save))
    } else {
        (Command::Continue, None, None)
    }
}

/// What a resolved node does for an invoker that passed the privilege gate.
/// A leftover alias is a configuration error and does nothing.
pub open spec fn dispatch_value(
    value: CmdValue,
    user: Seq<char>,
    args: Seq<char>,
    channel: Seq<char>,
) -> (Command, Option<Seq<char>>, Option<GameOpView>) {
    match value {
        CmdValue::StringResponse(x) => (
            Command::Continue,
            Some(privmsg_text(x@, channel)),
            None,
        ),
        CmdValue::Alias(_) => (Command::Continue, None, None),
        CmdValue::Generic(x) => dispatch_generic(x@, user, args, channel),
    }
}

/// The whole dispatch: resolve, gate on privilege, act.
pub open spec fn dispatch_spec(
    cmds: Seq<(String, crate::command_tree::CommandNode)>,
    user: Seq<char>,
    cmd: Seq<char>,
    channel: Seq<char>,
) -> (Command, Option<Seq<char>>, Option<GameOpView>) {
    match find_spec(cmds, cmd) {
        None => (Command::Continue, None, None),
        Some(p) => {
            if p.0.admin_only && user != admin_name() {
                (Command::Continue, Some(privmsg_text(rejection_text(), channel)), None)
            } else {
                dispatch_value(p.0.value, user, p.1, channel)
            }
        },
    }
}

/// The exec outcome agrees with the spec triple.
pub open spec fn outcome_matches(
    r: DispatchOutcome,
    d: (Command, Option<Seq<char>>, Option<GameOpView>),
) -> bool {
    &&& r.control == d.0
    &&& (match r.reply {
        Some(m) => d.1 == Some(m.0@),
        None => d.1 is None,
    })
    &&& (match r.game {
        Some(op) => d.2 == Some(view_game_op(op)),
        None => d.2 is None,
    })
}

/// Resolves and dispatches one utterance: `cmd` is the raw command text,
/// `user` the invoking identity. Privilege is enforced before any action.
pub fn do_command(ct: &CommandTree, user: &String, cmd: String, channel: &String) -> (r:
    DispatchOutcome)
    ensures
        outcome_matches(r, dispatch_spec(ct.commands@, user@, cmd@, channel@)),
{
    let mut rest = cmd;
    let node = match ct.find(&mut rest) {
        Some(x) => x,
        None => {
            return DispatchOutcome { control: Command::Continue, reply: None, game: None };
        },
    };
    let args = rest;
    if node.admin_only && !str_eq(user.as_str(), "desktopfolder") {
        return DispatchOutcome {
            control: Command::Continue,
            reply: Some(TwitchFmt::privmsg(&"Naughty naughty, that's not for you!".to_owned(), channel)),
            game: None,
        };
    }
    match &node.value {
        CmdValue::StringResponse(x) => DispatchOutcome {
            control: Command::Continue,
            reply: Some(TwitchFmt::privmsg(x, channel)),
            game: None,
        },
        CmdValue::Alias(_) => DispatchOutcome {
            control: Command::Continue,
            reply: None,
            game: None,
        },
        CmdValue::Generic(x) => {
            let id = x.as_str();
            if str_eq(id, "meta:help") {
                DispatchOutcome {
                    control: Command::Continue,
                    reply: Some(TwitchFmt::privmsg(&"No help for you, good sir!".to_owned(), channel)),
                    game: None,
                }
            } else if str_eq(id, "meta:stop") {
                DispatchOutcome { control: Command::Stop, reply: None, game: None }
            } else if str_eq(id, "meta:say") {
                DispatchOutcome {
                    control: Command::Continue,
                    reply: Some(TwitchFmt::privmsg(&args, channel)),
                    game: None,
                }
            } else if str_eq(id, "meta:say_raw") {
                DispatchOutcome {
                    control: Command::Continue,
                    reply: Some(TwitchFmt::text(&args)),
                    game: None,
                }
            } else if str_eq(id, "game:bet_for") {
                DispatchOutcome {
                    control: Command::Continue,
                    reply: None,
                    game: Some(GameOp::BetFor(user.clone(), args)),
                }
            } else if str_eq(id, "game:bet_against") {
                DispatchOutcome {
                    control: Command::Continue,
                    reply: None,
                    game: Some(GameOp::BetAgainst(user.clone(), args)),
                }
            } else if str_eq(id, "game:failed") {
                DispatchOutcome { control: Command::Continue, reply: None, game: Some(GameOp::Failed) }
            } else if str_eq(id, "game:worked") {
                DispatchOutcome { control: Command::Continue, reply: None, game: Some(GameOp::Worked) }
            } else if str_eq(id, "game:status") {
                let query = if args.as_str().unicode_len() == 0 {
                    user.clone()
                } else {
                    args
                };
                DispatchOutcome {
                    control: Command::Continue,
                    reply: None,
                    game: Some(GameOp::Status(query)),
                }
            } else if str_eq(id, "game:reload") {
                DispatchOutcome { control: Command::Continue, reply: None, game: Some(GameOp::Reload) }
            } else if str_eq(id, "game:save") {
                DispatchOutcome { control: Command::Continue, reply: None, game: Some(GameOp::Save) }
            } else {
                DispatchOutcome { control: Command::Continue, reply: None, game: None }
            }
        },
    }
}

// ---------------------------------------------------------------------------
// The game collaborator's answer, and the reply owed for it. The dispatcher
// does not know how the game decides; it promises a reply for every possible
// answer.
// ---------------------------------------------------------------------------

/// What the external game collaborator answered.
#[derive(Debug)]
pub enum GameResponse {
    /// A bet was accepted; nothing to say.
    Accepted,
    /// A bet was rejected with this explanation.
    Rejected(String),
    /// A report to show: an outcome summary or a player's standing.
    Report(String),
    /// A reload or save finished; nothing to say.
    Done,
}

/// The reply owed to the channel for a game answer.
pub fn game_reply(resp: GameResponse, channel: &String) -> (r: Option<IRCMessage>)
    ensures
        match resp {
            GameResponse::Accepted => r is None,
            GameResponse::Done => r is None,
            GameResponse::Rejected(e) => r matches Some(m) && m.0@ == privmsg_text(e@, channel@),
            GameResponse::Report(s) => r matches Some(m) && m.0@ == privmsg_text(s@, channel@),
        },
{
    match resp {
        GameResponse::Accepted => None,
        GameResponse::Done => None,
        GameResponse::Rejected(e) => Some(TwitchFmt::privmsg(&e, channel)),
        GameResponse::Report(s) => Some(TwitchFmt::privmsg(&s, channel)),
    }
}

// ---------------------------------------------------------------------------
// One step of the read loop: classify a framed line and act on it. A chat
// command goes through the resolver and the dispatcher; an empty line ends
// the loop; the keep-alive probe gets exactly one reply; anything else is
// ignored.
// ---------------------------------------------------------------------------

pub fn process_line(ct: &CommandTree, channel: &String, line: &String) -> (r: DispatchOutcome)
    ensures
        match parse_privmsg_spec(line@) {
            Some(p) => outcome_matches(r, dispatch_spec(ct.commands@, p.0, p.1, channel@)),
            None => {
                &&& r.game is None
                &&& (trim_ws(line@) == Seq::<char>::empty() ==> r.control == Command::Stop
                    && r.reply is None)
                &&& (trim_ws(line@) == keepalive_probe() ==> r.control == Command::Continue && (
                r.reply matches Some(m) && m.0@ == pong_text()))
                &&& (trim_ws(line@) != Seq::<char>::empty() && trim_ws(line@) != keepalive_probe()
                    ==> r.control == Command::Continue && r.reply is None)
            },
        },
{
    match parse_privmsg(line.as_str()) {
        Some(pair) => do_command(ct, &pair.0, pair.1, channel),
        None => {
            let c = handle_twitch(line);
            DispatchOutcome { control: c.0, reply: c.1, game: None }
        },
    }
}

// ---------------------------------------------------------------------------
// The handshake: exactly three formatted lines, in order.
// ---------------------------------------------------------------------------

/// The three handshake lines, in order: credential, identity, channel join.
pub fn auth_messages(nick: &String, secret: &String, channel: &String) -> (r: Vec<IRCMessage>)
    ensures
        r@.len() == 3,
        r@[0].0@ == pass_text(secret@),
        r@[1].0@ == nick_text(nick@),
        r@[2].0@ == join_text(channel@),
{
    let mut v: Vec<IRCMessage> = Vec::new();
    v.push(TwitchFmt::pass(secret));
    v.push(TwitchFmt::nick(nick));
    v.push(TwitchFmt::join(channel));
    v
}

// ---------------------------------------------------------------------------
// Laws of the dispatcher and the classifier.
// ---------------------------------------------------------------------------

/// Law: an admin-only command invoked by anyone but the administrator
/// produces the fixed rejection reply and nothing else — no stop, no game
/// request.
pub proof fn lemma_admin_gate(
    cmds: Seq<(String, crate::command_tree::CommandNode)>,
    user: Seq<char>,
    cmd: Seq<char>,
    channel: Seq<char>,
)
    requires
        find_spec(cmds, cmd) is Some,
        (find_spec(cmds, cmd)->0).0.admin_only,
        user != admin_name(),
    ensures
        dispatch_spec(cmds, user, cmd, channel) == (
            Command::Continue,
            Some(privmsg_text(rejection_text(), channel)),
            Option::<GameOpView>::None,
        ),
{
}

/// Law: for the administrator the privilege gate is no gate: the command
/// acts by its value alone.
pub proof fn lemma_admin_passes(
    cmds: Seq<(String, crate::command_tree::CommandNode)>,
    cmd: Seq<char>,
    channel: Seq<char>,
)
    requires
        find_spec(cmds, cmd) is Some,
    ensures
        dispatch_spec(cmds, admin_name(), cmd, channel) == dispatch_value(
            (find_spec(cmds, cmd)->0).0.value,
            admin_name(),
            (find_spec(cmds, cmd)->0).1,
            channel,
        ),
{
}

/// Law: a line that is the keep-alive probe, up to surrounding whitespace,
/// never parses as a chat command, so it never reaches the resolver.
pub proof fn lemma_probe_not_privmsg(line: Seq<char>)
    requires
        trim_ws(line) == keepalive_probe(),
    ensures
        parse_privmsg_spec(line) is None,
{
    reveal_strlit("PING :tmi.twitch.tv");
    if line.len() > 0 && line[0] == ':' {
        assert(!is_ws_char(line[0]));
        assert(trim_ws_front(line) == line);
        lemma_trim_ws_back_prefix(line);
        assert(trim_ws(line).len() > 0);
        assert(trim_ws(line)[0] == ':');
        assert(keepalive_probe()[0] == 'P');
        assert(false);
    }
}

} // verus!
