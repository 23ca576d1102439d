use vstd::prelude::*;
use vstd::string::StrSliceExecFns;
use crate::text::is_uppercase_char;
use crate::text::char_is_uppercase;
use crate::text::str_eq;

verus! {

// ---------------------------------------------------------------------------
// The command tree: a two-level store of command definitions. Top-level
// commands are looked up case-insensitively by their first token; nested
// subcommands are matched literally, token by token. Entries are kept as
// association lists; a lookup takes the first entry whose key matches.
// ---------------------------------------------------------------------------

/// What a command does when it is invoked.
#[derive(Debug)]
pub enum CmdValue {
    /// A fixed textual reply.
    StringResponse(String),
    /// A redirect to another top-level command name.
    Alias(String),
    /// An opaque action key interpreted by the dispatcher.
    Generic(String),
}

/// One command definition, with its nested subcommands.
#[derive(Debug)]
pub struct CommandNode {
    pub value: CmdValue,
    pub admin_only: bool,
    pub subcommands: Vec<(String, CommandNode)>,
    pub hidden: bool,
    pub sound: String,
}

impl CommandNode {
    pub fn new(value: CmdValue) -> (r: CommandNode)
        ensures
            r.value == value,
            r.admin_only == false,
            r.subcommands@ == Seq::<(String, CommandNode)>::empty(),
            r.hidden == false,
            r.sound@ == Seq::<char>::empty(),
    {
        CommandNode {
            value: value,
            admin_only: false,
            subcommands: Vec::new(),
            hidden: false,
            sound: String::new(),
        }
    }

    pub fn new_easter(value: CmdValue) -> (r: CommandNode)
        ensures
            r.value == value,
            r.admin_only == false,
            r.subcommands@ == Seq::<(String, CommandNode)>::empty(),
            r.hidden == true,
            r.sound@ == Seq::<char>::empty(),
    {
        CommandNode {
            value: value,
            admin_only: false,
            subcommands: Vec::new(),
            hidden: true,
            sound: String::new(),
        }
    }
}

/// The whole command definition store.
#[derive(Debug)]
pub struct CommandTree {
    pub version: String,
    pub host: String,
    pub port: String,
    pub commands: Vec<(String, CommandNode)>,
}

// ---------------------------------------------------------------------------
// Association-list lookup.
// ---------------------------------------------------------------------------

/// The node stored under key `k`: the first entry whose key matches.
pub open spec fn assoc_get(s: Seq<(String, CommandNode)>, k: Seq<char>) -> Option<CommandNode>
    decreases s.len(),
{
    if s.len() == 0 {
        None
    } else if s[0].0@ == k {
        Some(s[0].1)
    } else {
        assoc_get(s.skip(1), k)
    }
}

pub open spec fn has_key(s: Seq<(String, CommandNode)>, k: Seq<char>) -> bool {
    assoc_get(s, k) is Some
}

/// The stored node under a present key.
pub open spec fn node_of(s: Seq<(String, CommandNode)>, k: Seq<char>) -> CommandNode {
    assoc_get(s, k)->0
}

/// The views of the keys, in entry order.
pub open spec fn key_views(s: Seq<(String, CommandNode)>) -> Seq<Seq<char>> {
    s.map_values(|p: (String, CommandNode)| p.0@)
}

pub proof fn lemma_has_key_in_keys(s: Seq<(String, CommandNode)>, k: Seq<char>)
    ensures
        has_key(s, k) == key_views(s).to_set().contains(k),
    decreases s.len(),
{
    if s.len() == 0 {
        assert(!key_views(s).to_set().contains(k));
    } else {
        lemma_has_key_in_keys(s.skip(1), k);
        assert(key_views(s.skip(1)) =~= key_views(s).skip(1));
        if s[0].0@ == k {
            assert(key_views(s)[0] == k);
            assert(key_views(s).to_set().contains(k));
        } else {
            if key_views(s).to_set().contains(k) {
                let i = choose|i: int| 0 <= i < key_views(s).len() && key_views(s)[i] == k;
                assert(i != 0);
                assert(key_views(s).skip(1)[i - 1] == k);
                assert(key_views(s).skip(1).to_set().contains(k));
            }
            if key_views(s).skip(1).to_set().contains(k) {
                let i = choose|i: int|
                    0 <= i < key_views(s).skip(1).len() && key_views(s).skip(1)[i] == k;
                assert(key_views(s)[i + 1] == k);
            }
        }
    }
}

fn assoc_find<'a>(cmds: &'a Vec<(String, CommandNode)>, k: &str) -> (r: Option<&'a CommandNode>)
    ensures
        match r {
            Some(n) => assoc_get(cmds@, k@) == Some(*n),
            None => assoc_get(cmds@, k@) is None,
        },
{
    let mut i: usize = 0;
    proof {
        assert(cmds@.skip(0) =~= cmds@);
    }
    while i < cmds.len()
        invariant
            i <= cmds@.len(),
            assoc_get(cmds@, k@) == assoc_get(cmds@.skip(i as int), k@),
        decreases cmds@.len() - i,
    {
        if str_eq(cmds[i].0.as_str(), k) {
            proof {
                assert(cmds@.skip(i as int)[0] == cmds@[i as int]);
            }
            return Some(&cmds[i].1);
        }
        proof {
            assert(cmds@.skip(i as int).skip(1) =~= cmds@.skip(i as int + 1));
        }
        i = i + 1;
    }
    None
}

// ---------------------------------------------------------------------------
// Alias resolution. An alias redirects to another top-level name; the chain
// is followed while tracking the names already visited, so that a recurring
// name ends the resolution with no match instead of looping.
// ---------------------------------------------------------------------------

/// The set of string views of a list of visited names.
pub open spec fn visited_set(ts: Seq<String>) -> Set<Seq<char>> {
    crate::text::views_of(ts).to_set()
}

/// Bound on the remaining depth of an alias resolution: the keys not yet
/// visited, plus one step for the key under inspection.
pub open spec fn resolve_measure(
    cmds: Seq<(String, CommandNode)>,
    key: Seq<char>,
    visited: Set<Seq<char>>,
) -> int {
    key_views(cmds).to_set().difference(visited).len() + (if has_key(cmds, key) {
        1int
    } else {
        0int
    })
}

pub proof fn lemma_measure_decreases(
    cmds: Seq<(String, CommandNode)>,
    t: Seq<char>,
    visited: Set<Seq<char>>,
)
    requires
        visited.finite(),
        !visited.contains(t),
    ensures
        resolve_measure(cmds, t, visited.insert(t)) < key_views(cmds).to_set().difference(
            visited,
        ).len() + 1,
{
    broadcast use vstd::seq_lib::seq_to_set_is_finite;

    let kset = key_views(cmds).to_set();
    lemma_has_key_in_keys(cmds, t);
    if kset.contains(t) {
        kset.lemma_set_insert_diff_decreases(visited, t);
    } else {
        assert(kset.difference(visited.insert(t)).subset_of(kset.difference(visited)));
        vstd::set_lib::lemma_set_subset_finite(kset, kset.difference(visited));
        vstd::set_lib::lemma_len_subset(
            kset.difference(visited.insert(t)),
            kset.difference(visited),
        );
    }
}

/// The node an alias chain starting at `key` settles on, or nothing when the
/// chain leaves the map or revisits a name.
pub open spec fn resolve_alias(
    cmds: Seq<(String, CommandNode)>,
    key: Seq<char>,
    visited: Set<Seq<char>>,
) -> Option<CommandNode>
    decreases resolve_measure(cmds, key, visited),
    when visited.finite()
    via resolve_alias_decreases
{
    match assoc_get(cmds, key) {
        None => None,
        Some(node) => match node.value {
            CmdValue::Alias(t) => {
                if visited.contains(t@) {
                    None
                } else {
                    resolve_alias(cmds, t@, visited.insert(t@))
                }
            },
            _ => Some(node),
        },
    }
}

#[via_fn]
proof fn resolve_alias_decreases(
    cmds: Seq<(String, CommandNode)>,
    key: Seq<char>,
    visited: Set<Seq<char>>,
) {
    match assoc_get(cmds, key) {
        None => {},
        Some(node) => match node.value {
            CmdValue::Alias(t) => {
                if !visited.contains(t@) {
                    lemma_measure_decreases(cmds, t@, visited);
                }
            },
            _ => {},
        },
    }
}

pub proof fn lemma_visited_push(ts: Seq<String>, x: String)
    ensures
        visited_set(ts.push(x)) == visited_set(ts).insert(x@),
{
    let vs = crate::text::views_of(ts);
    assert(crate::text::views_of(ts.push(x)) =~= vs.push(x@));
    assert forall|y: Seq<char>| vs.push(x@).to_set().contains(y) implies visited_set(
        ts,
    ).insert(x@).contains(y) by {
        let i = choose|i: int| 0 <= i < vs.push(x@).len() && vs.push(x@)[i] == y;
        if i < vs.len() {
            assert(vs[i] == y);
        }
    }
    assert forall|y: Seq<char>| visited_set(ts).insert(x@).contains(y) implies vs.push(
        x@,
    ).to_set().contains(y) by {
        if y == x@ {
            assert(vs.push(x@)[vs.len() as int] == y);
        } else {
            let i = choose|i: int| 0 <= i < vs.len() && vs[i] == y;
            assert(vs.push(x@)[i] == y);
        }
    }
    assert(visited_set(ts.push(x)) =~= visited_set(ts).insert(x@));
}

impl CommandTree {
    /// Follows an alias chain from `key`, looking the names up literally
    /// among the top-level commands. `prev` holds the names already visited:
    /// a name about to recur ends the resolution with no match.
    pub fn find_recurse<'a>(&'a self, key: &String, prev: Vec<String>) -> (r: Option<
        &'a CommandNode,
    >)
        ensures
            ({
                let res = resolve_alias(self.commands@, key@, visited_set(prev@));
                match r {
                    Some(n) => res == Some(*n),
                    None => res is None,
                }
            }),
        decreases resolve_measure(self.commands@, key@, visited_set(prev@)),
    {
        broadcast use vstd::seq_lib::seq_to_set_is_finite;

        match assoc_find(&self.commands, key.as_str()) {
            None => None,
            Some(node) => {
                match &node.value {
                    CmdValue::Alias(k) => {
                        if crate::text::contains_string(&prev, k.as_str()) {
                            proof {
                                let i = choose|i: int| 0 <= i < prev@.len() && prev@[i]@ == k@;
                                assert(crate::text::views_of(prev@)[i] == k@);
                                assert(visited_set(prev@).contains(k@));
                            }
                            None
                        } else {
                            proof {
                                if visited_set(prev@).contains(k@) {
                                    let i = choose|i: int|
                                        0 <= i < crate::text::views_of(prev@).len()
                                            && crate::text::views_of(prev@)[i] == k@;
                                    assert(prev@[i]@ == k@);
                                }
                            }
                            let ghost pv = prev@;
                            let mut prev2 = prev;
                            prev2.push(k.clone());
                            proof {
                                lemma_visited_push(pv, *k);
                                lemma_measure_decreases(self.commands@, k@, visited_set(pv));
                            }
                            self.find_recurse(k, prev2)
                        }
                    },
                    _ => Some(node),
                }
            },
        }
    }
}

// ---------------------------------------------------------------------------
// Subcommand traversal. After the first token picked the top-level command,
// the following tokens descend into nested subcommands: a token equal to the
// two-dash sentinel is consumed and ends the walk; otherwise the token,
// trimmed of dashes and newlines, is matched literally against the current
// node's subcommands — on a hit it is consumed, on a miss the walk stops.
// ---------------------------------------------------------------------------

/// The node reached from `node` by consuming matching tokens, and how many
/// tokens were consumed.
pub open spec fn walk(node: CommandNode, toks: Seq<Seq<char>>) -> (CommandNode, int)
    decreases toks.len(),
{
    if toks.len() == 0 {
        (node, 0)
    } else if toks[0] == "--"@ {
        (node, 1)
    } else {
        match assoc_get(node.subcommands@, crate::text::trim_marks(toks[0])) {
            Some(n) => {
                let w = walk(n, toks.skip(1));
                (w.0, 1 + w.1)
            },
            None => (node, 0),
        }
    }
}

pub proof fn lemma_walk_count(node: CommandNode, toks: Seq<Seq<char>>)
    ensures
        0 <= walk(node, toks).1 <= toks.len(),
    decreases toks.len(),
{
    if toks.len() > 0 && !(toks[0] == "--"@) {
        match assoc_get(node.subcommands@, crate::text::trim_marks(toks[0])) {
            Some(n) => {
                lemma_walk_count(n, toks.skip(1));
            },
            None => {},
        }
    }
}

impl CommandTree {
    /// Descends from `node` through the subcommand tokens `toks[start..]`,
    /// and returns the node reached together with the index of the first
    /// unconsumed token.
    pub fn find_subcommands<'a>(
        &self,
        toks: &Vec<String>,
        start: usize,
        node: &'a CommandNode,
    ) -> (r: (&'a CommandNode, usize))
        requires
            start <= toks@.len(),
        ensures
            ({
                let w = walk(*node, crate::text::views_of(toks@).skip(start as int));
                &&& *r.0 == w.0
                &&& r.1 - start == w.1
                &&& start <= r.1 <= toks@.len()
            }),
        decreases toks@.len() - start,
    {
        let ghost ts = crate::text::views_of(toks@).skip(start as int);
        if start == toks.len() {
            (node, start)
        } else {
            let tok = toks[start].as_str();
            proof {
                assert(ts[0] == toks@[start as int]@);
            }
            if crate::text::str_eq(tok, "--") {
                (node, start + 1)
            } else {
                let sc = crate::text::trim_marks_str(tok);
                match assoc_find(&node.subcommands, sc) {
                    Some(n) => {
                        let w = self.find_subcommands(toks, start + 1, n);
                        proof {
                            assert(crate::text::views_of(toks@).skip(start as int + 1) =~= ts.skip(
                                1,
                            ));
                        }
                        w
                    },
                    None => (node, start),
                }
            }
        }
    }
}

// ---------------------------------------------------------------------------
// The full lookup: first token picked case-insensitively among the top-level
// commands, aliases resolved cycle-safely, subcommands walked, and the
// unconsumed tokens rejoined into the residual argument text.
// ---------------------------------------------------------------------------

/// The node found for the raw command string `input`, with the residual
/// argument text, or nothing when the input names no command or an alias
/// chain fails to settle.
pub open spec fn find_spec(cmds: Seq<(String, CommandNode)>, input: Seq<char>) -> Option<
    (CommandNode, Seq<char>),
> {
    let toks = crate::text::split_spec(input);
    let rest = toks.skip(1);
    match assoc_get(cmds, crate::text::lowercase_of(toks[0])) {
        None => None,
        Some(node) => match node.value {
            CmdValue::Alias(t) => match resolve_alias(cmds, t@, set![input]) {
                None => None,
                Some(res) => {
                    let w = walk(res, rest);
                    Some((w.0, crate::text::join_spec(rest.skip(w.1))))
                },
            },
            _ => {
                let w = walk(node, rest);
                Some((w.0, crate::text::join_spec(rest.skip(w.1))))
            },
        },
    }
}

impl CommandTree {
    /// Resolves the raw command string in `key`: the first token picks the
    /// top-level command case-insensitively, aliases are followed cycle-safely,
    /// and the following tokens descend into subcommands. On a match, `key` is
    /// replaced by the residual argument text; otherwise it is left alone.
    pub fn find<'a>(&'a self, key: &mut String) -> (r: Option<&'a CommandNode>)
        ensures
            ({
                let res = find_spec(self.commands@, old(key)@);
                match r {
                    Some(n) => res is Some && *n == (res->0).0 && final(key)@ == (res->0).1,
                    None => res is None && final(key)@ == old(key)@,
                }
            }),
    {
        broadcast use vstd::seq_lib::seq_to_set_is_finite;

        proof {
            crate::text::lemma_split_len(key@);
        }
        let toks = crate::text::split_str(key.as_str());
        let ghost tviews = crate::text::views_of(toks@);
        let lower = crate::text::to_lowercase(toks[0].as_str());
        match assoc_find(&self.commands, lower.as_str()) {
            None => None,
            Some(node) => {
                match &node.value {
                    CmdValue::Alias(k) => {
                        let mut visited: Vec<String> = Vec::new();
                        visited.push(key.clone());
                        proof {
                            assert(crate::text::views_of(visited@) =~= seq![old(key)@]);
                            assert(seq![old(key)@][0] == old(key)@);
                            assert(seq![old(key)@].contains(old(key)@));
                            assert(visited_set(visited@) =~= set![old(key)@]);
                        }
                        match self.find_recurse(k, visited) {
                            Some(res) => {
                                proof {
                                    lemma_walk_count(*res, tviews.skip(1));
                                }
                                let w = self.find_subcommands(&toks, 1, res);
                                let joined = crate::text::join_from(&toks, w.1);
                                proof {
                                    assert(tviews.skip(w.1 as int) =~= tviews.skip(1).skip(
                                        w.1 as int - 1,
                                    ));
                                }
                                *key = joined;
                                Some(w.0)
                            },
                            None => None,
                        }
                    },
                    _ => {
                        proof {
                            lemma_walk_count(*node, tviews.skip(1));
                        }
                        let w = self.find_subcommands(&toks, 1, node);
                        let joined = crate::text::join_from(&toks, w.1);
                        proof {
                            assert(tviews.skip(w.1 as int) =~= tviews.skip(1).skip(w.1 as int - 1));
                        }
                        *key = joined;
                        Some(w.0)
                    },
                }
            },
        }
    }
}

// ---------------------------------------------------------------------------
// Validation: every top-level key must be free of uppercase characters.
// ---------------------------------------------------------------------------

/// No top-level key holds an uppercase character.
pub open spec fn all_keys_lowercase(cmds: Seq<(String, CommandNode)>) -> bool {
    forall|i: int, j: int|
        0 <= i < cmds.len() && 0 <= j < cmds[i].0@.len() ==> !is_uppercase_char(#[trigger] cmds[i].0@[j])
}

impl CommandTree {
    /// Accepts a definition store only when no top-level key holds an
    /// uppercase character; used at load time to reject malformed trees.
    pub fn validate(ct: &CommandTree) -> (r: bool)
        ensures
            r == all_keys_lowercase(ct.commands@),
    {
        let mut i: usize = 0;
        while i < ct.commands.len()
            invariant
                i <= ct.commands@.len(),
                forall|i0: int, j0: int|
                    0 <= i0 < i && 0 <= j0 < ct.commands@[i0].0@.len() ==> !is_uppercase_char(
                        #[trigger] ct.commands@[i0].0@[j0],
                    ),
            decreases ct.commands@.len() - i,
        {
            let key = ct.commands[i].0.as_str();
            let klen = key.unicode_len();
            let mut j: usize = 0;
            while j < klen
                invariant
                    j <= klen,
                    klen == key@.len(),
                    key@ == ct.commands@[i as int].0@,
                    i < ct.commands@.len(),
                    forall|j0: int| 0 <= j0 < j ==> !is_uppercase_char(#[trigger] key@[j0]),
                decreases klen - j,
            {
                if char_is_uppercase(key.get_char(j)) {
                    return false;
                }
                j = j + 1;
            }
            i = i + 1;
        }
        true
    }
}

/// Law: a tree with an uppercase character anywhere in a top-level key fails
/// validation.
pub proof fn lemma_uppercase_key_fails(cmds: Seq<(String, CommandNode)>, i: int, j: int)
    requires
        0 <= i < cmds.len(),
        0 <= j < cmds[i].0@.len(),
        is_uppercase_char(cmds[i].0@[j]),
    ensures
        !all_keys_lowercase(cmds),
{
}

// ---------------------------------------------------------------------------
// The default definition store.
// ---------------------------------------------------------------------------

fn default_ver() -> (r: String)
    ensures
        r@ == "0.0.0"@,
{
    "0.0.0".to_owned()
}

fn default_host() -> (r: String)
    ensures
        r@ == "irc.chat.twitch.tv"@,
{
    "irc.chat.twitch.tv".to_owned()
}

fn default_port() -> (r: String)
    ensures
        r@ == "6667"@,
{
    "6667".to_owned()
}

impl CommandTree {
    /// A fresh definition store holding only the hidden "json" command, with
    /// the default version, host and port.
    pub fn new_default() -> (r: CommandTree)
        ensures
            r.version@ == "0.0.0"@,
            r.host@ == "irc.chat.twitch.tv"@,
            r.port@ == "6667"@,
            r.commands@.len() == 1,
            r.commands@[0].0@ == "json"@,
            r.commands@[0].1.value matches CmdValue::StringResponse(t) && t@
                == "The truth is alterable. The truth never has been altered. JSON is the best data format. JSON has always been the best data format."@,
            r.commands@[0].1.hidden == true,
            r.commands@[0].1.admin_only == false,
            r.commands@[0].1.subcommands@.len() == 0,
    {
        let mut commands: Vec<(String, CommandNode)> = Vec::new();
        commands.push(
            (
                "json".to_owned(),
                CommandNode::new_easter(
                    CmdValue::StringResponse(
                        "The truth is alterable. The truth never has been altered. JSON is the best data format. JSON has always been the best data format.".to_owned(),
                    ),
                ),
            ),
        );
        CommandTree {
            version: default_ver(),
            host: default_host(),
            port: default_port(),
            commands: commands,
        }
    }
}

// ---------------------------------------------------------------------------
// Laws of the resolver.
// ---------------------------------------------------------------------------

/// `chain` is an alias chain in `cmds`: every name but the last is stored and
/// aliases the next one, and the last is stored and is not an alias.
pub open spec fn alias_chain(cmds: Seq<(String, CommandNode)>, chain: Seq<Seq<char>>) -> bool {
    &&& chain.len() >= 1
    &&& forall|i: int|
        0 <= i < chain.len() - 1 ==> has_key(cmds, #[trigger] chain[i]) && (node_of(
            cmds,
            chain[i],
        ).value matches CmdValue::Alias(t) && t@ == chain[i + 1])
    &&& has_key(cmds, chain.last())
    &&& !(node_of(cmds, chain.last()).value is Alias)
}

/// Law: resolution of an acyclic alias chain returns the chain's terminal
/// non-alias node; that it returns at all is witnessed by the decreases
/// measure of `resolve_alias`.
pub proof fn lemma_acyclic_chain_resolves(
    cmds: Seq<(String, CommandNode)>,
    chain: Seq<Seq<char>>,
    visited: Set<Seq<char>>,
)
    requires
        visited.finite(),
        alias_chain(cmds, chain),
        forall|i: int, j: int| 0 <= i < j < chain.len() ==> chain[i] != chain[j],
        forall|i: int| 1 <= i < chain.len() ==> !visited.contains(#[trigger] chain[i]),
    ensures
        resolve_alias(cmds, chain[0], visited) == Some(node_of(cmds, chain.last())),
    decreases chain.len(),
{
    if chain.len() == 1 {
    } else {
        assert(has_key(cmds, chain[0]));
        let chain2 = chain.skip(1);
        assert forall|i: int| 0 <= i < chain2.len() - 1 implies has_key(
            cmds,
            #[trigger] chain2[i],
        ) && (node_of(cmds, chain2[i]).value matches CmdValue::Alias(t) && t@ == chain2[i
            + 1]) by {
            assert(chain2[i] == chain[i + 1]);
            assert(chain2[i + 1] == chain[i + 2]);
        }
        assert(chain2.last() == chain.last());
        assert(alias_chain(cmds, chain2));
        assert forall|i: int, j: int| 0 <= i < j < chain2.len() implies chain2[i] != chain2[j] by {
            assert(chain2[i] == chain[i + 1]);
            assert(chain2[j] == chain[j + 1]);
        }
        let visited2 = visited.insert(chain[1]);
        assert forall|i: int| 1 <= i < chain2.len() implies !visited2.contains(
            #[trigger] chain2[i],
        ) by {
            assert(chain2[i] == chain[i + 1]);
            assert(chain[i + 1] != chain[1]);
        }
        lemma_acyclic_chain_resolves(cmds, chain2, visited2);
        assert(chain2[0] == chain[1]);
    }
}

/// Law: when every name in `cycle` is stored as an alias whose target stays
/// in `cycle`, resolution from any of them returns no match rather than
/// looping.
pub proof fn lemma_alias_cycle_no_match(
    cmds: Seq<(String, CommandNode)>,
    cycle: Set<Seq<char>>,
    key: Seq<char>,
    visited: Set<Seq<char>>,
)
    requires
        visited.finite(),
        cycle.contains(key),
        forall|k: Seq<char>|
            #[trigger] cycle.contains(k) ==> has_key(cmds, k) && (node_of(
                cmds,
                k,
            ).value matches CmdValue::Alias(t) && cycle.contains(t@)),
    ensures
        resolve_alias(cmds, key, visited) is None,
    decreases resolve_measure(cmds, key, visited),
{
    let node = node_of(cmds, key);
    match node.value {
        CmdValue::Alias(t) => {
            if visited.contains(t@) {
            } else {
                lemma_measure_decreases(cmds, t@, visited);
                lemma_alias_cycle_no_match(cmds, cycle, t@, visited.insert(t@));
            }
        },
        _ => {
            assert(false);
        },
    }
}

/// Law: the walk consumes tokens from the front only, and stops exactly at
/// the token list's end, right after an end-of-subcommands sentinel, or at
/// the first token that matches no subcommand, which stays unconsumed.
pub proof fn lemma_walk_stops(node: CommandNode, toks: Seq<Seq<char>>)
    ensures
        ({
            let w = walk(node, toks);
            &&& 0 <= w.1 <= toks.len()
            &&& (w.1 == toks.len() || (w.1 >= 1 && toks[w.1 - 1] == "--"@) || assoc_get(
                w.0.subcommands@,
                crate::text::trim_marks(toks[w.1]),
            ) is None)
        }),
    decreases toks.len(),
{
    lemma_walk_count(node, toks);
    if toks.len() == 0 {
    } else if toks[0] == "--"@ {
    } else {
        match assoc_get(node.subcommands@, crate::text::trim_marks(toks[0])) {
            Some(n) => {
                lemma_walk_stops(n, toks.skip(1));
                lemma_walk_count(n, toks.skip(1));
            },
            None => {},
        }
    }
}

/// Law: the residual argument text of a successful lookup is a suffix of the
/// input string: the tokens the walk left untouched, rejoined with single
/// spaces.
pub proof fn lemma_residual_is_suffix(cmds: Seq<(String, CommandNode)>, input: Seq<char>)
    requires
        find_spec(cmds, input) is Some,
    ensures
        exists|p: int| 0 <= p <= input.len() && (find_spec(cmds, input)->0).1 == input.skip(p),
{
    let toks = crate::text::split_spec(input);
    let rest = toks.skip(1);
    crate::text::lemma_split_len(input);
    match assoc_get(cmds, crate::text::lowercase_of(toks[0])) {
        None => {},
        Some(node) => {
            match node.value {
                CmdValue::Alias(t) => {
                    match resolve_alias(cmds, t@, set![input]) {
                        None => {},
                        Some(res) => {
                            let w = walk(res, rest);
                            lemma_walk_count(res, rest);
                            assert(rest.skip(w.1) =~= toks.skip(1 + w.1));
                            crate::text::lemma_join_split_suffix(input, 1 + w.1);
                        },
                    }
                },
                _ => {
                    let w = walk(node, rest);
                    lemma_walk_count(node, rest);
                    assert(rest.skip(w.1) =~= toks.skip(1 + w.1));
                    crate::text::lemma_join_split_suffix(input, 1 + w.1);
                },
            }
        },
    }
}

} // verus!
