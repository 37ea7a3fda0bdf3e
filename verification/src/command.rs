//! The command tree, the walk that resolves a list of words to a handler,
//! and the completion of a partly typed line.

use vstd::prelude::*;
use vstd::string::StringExecFns;
use crate::seqs::{first_index, lemma_first_index, lemma_first_index_is, lemma_first_index_none};
use crate::text::{all_whitespace, chars_of, is_blank, str_eq};
use crate::tokenizer::{shlex_split, tokenize, word_views};

verus! {

/// The effect that a node of the tree stands for. The shell that owns the
/// tree maps each of these to the code that performs it.
#[derive(Clone, Copy, Debug, PartialEq, Eq, Structural)]
pub enum Handler {
    ListServers,
    ListMods,
    SearchServerVersions,
    SearchMods,
    SearchModVersions,
    Select,
    Selected,
    SetMaxMemory,
    SetMinMemory,
    SetJavaHome,
    AddServer,
    AddMod,
    GenerateStartScript,
    UpdateServer,
    CheckModsSupport,
    AcceptEula,
    StartServer,
    Exit,
}

/// A named flag of a command, typed as `--name`.
pub struct CommandOption {
    pub name: &'static str,
    pub help: &'static str,
}

/// A node below a top-level command.
pub struct SubCommand {
    pub name: String,
    pub sub_commands: Vec<SubCommand>,
    pub options: Vec<CommandOption>,
    pub help: &'static str,
    pub handler: Option<Handler>,
}

/// A top-level command.
pub struct Command {
    pub name: &'static str,
    pub sub_commands: Vec<SubCommand>,
    pub options: Vec<CommandOption>,
    pub help: &'static str,
    pub handler: Option<Handler>,
}

/// The commands that the shell knows.
pub struct CommandManager {
    pub commands: Vec<Command>,
}

/// Why a list of words leads to no handler.
#[derive(Clone, Copy, Debug, PartialEq, Eq, Structural)]
pub enum DispatchError {
    /// No top-level command has the first word as its name.
    UnknownCommand,
    /// The command exists, but neither it nor any node that the words lead
    /// to has a handler: a sub-command is needed.
    NoHandler,
}

/// What the shell is to do with a line.
pub enum Dispatch {
    /// The line holds no word: nothing to do.
    Idle,
    /// Call `handler` with the words of the line.
    Invoke { handler: Handler, tokens: Vec<String> },
}

/// Holds of a node whose name is one of `tokens`.
pub open spec fn is_named(tokens: Seq<Seq<char>>) -> spec_fn(SubCommand) -> bool {
    |node: SubCommand| tokens.contains(node.name@)
}

/// Holds of a command called `name`.
pub open spec fn is_called(name: Seq<char>) -> spec_fn(Command) -> bool {
    |command: Command| command.name@ == name
}

/// The nodes reached below `node` by going, at each level, to the first child
/// whose name is one of `tokens`, until a level has no such child.
pub open spec fn chain_below(node: SubCommand, tokens: Seq<Seq<char>>) -> Seq<SubCommand>
    decreases node,
{
    match first_index(node.sub_commands@, is_named(tokens)) {
        Some(i) => if 0 <= i < node.sub_commands@.len() {
            seq![node.sub_commands@[i]] + chain_below(node.sub_commands@[i], tokens)
        } else {
            Seq::empty()
        },
        None => Seq::empty(),
    }
}

/// The chain of nodes matched from a list of siblings downwards: the first of
/// `nodes` named among `tokens`, then the first of its children named among
/// them, and so on. Any word of the line may name a node, not only the next
/// one, and the first sibling in declaration order wins.
pub open spec fn match_chain(nodes: Seq<SubCommand>, tokens: Seq<Seq<char>>) -> Seq<SubCommand> {
    match first_index(nodes, is_named(tokens)) {
        Some(i) => seq![nodes[i]] + chain_below(nodes[i], tokens),
        None => Seq::empty(),
    }
}

/// The handler that a chain of matched nodes gives: that of the deepest node
/// that has one, and `top` where none has.
pub open spec fn chain_handler(top: Option<Handler>, chain: Seq<SubCommand>) -> Option<Handler>
    decreases chain.len(),
{
    if chain.len() == 0 {
        top
    } else if chain.last().handler is Some {
        chain.last().handler
    } else {
        chain_handler(top, chain.drop_last())
    }
}

/// The handler that a list of words resolves to.
pub open spec fn resolve(commands: Seq<Command>, tokens: Seq<Seq<char>>) -> Result<
    Handler,
    DispatchError,
> {
    if tokens.len() == 0 {
        Err(DispatchError::UnknownCommand)
    } else {
        match first_index(commands, is_called(tokens[0])) {
            None => Err(DispatchError::UnknownCommand),
            Some(i) => match chain_handler(
                commands[i].handler,
                match_chain(commands[i].sub_commands@, tokens),
            ) {
                Some(handler) => Ok(handler),
                None => Err(DispatchError::NoHandler),
            },
        }
    }
}

/// Whether `chain` is a path down the tree from the siblings `nodes`: its
/// first node is one of them, and each further node is a child of the one
/// before it.
pub open spec fn is_path(nodes: Seq<SubCommand>, chain: Seq<SubCommand>) -> bool {
    &&& chain.len() > 0 ==> nodes.contains(chain[0])
    &&& forall|k: int|
        0 < k < chain.len() ==> (#[trigger] chain[k - 1]).sub_commands@.contains(chain[k])
}

/// The nodes matched below a node form a path below it, every one of them
/// is named by a word of the line exactly, and the last has no child that
/// a word names.
pub proof fn lemma_chain_below(node: SubCommand, tokens: Seq<Seq<char>>)
    ensures
        is_path(node.sub_commands@, chain_below(node, tokens)),
        forall|k: int|
            0 <= k < chain_below(node, tokens).len() ==> tokens.contains(
                (#[trigger] chain_below(node, tokens)[k]).name@,
            ),
        chain_below(node, tokens).len() > 0 ==> first_index(
            chain_below(node, tokens).last().sub_commands@,
            is_named(tokens),
        ) is None,
        chain_below(node, tokens).len() == 0 ==> first_index(
            node.sub_commands@,
            is_named(tokens),
        ) is None,
    decreases node,
{
    lemma_first_index(node.sub_commands@, is_named(tokens));
    match first_index(node.sub_commands@, is_named(tokens)) {
        Some(i) => {
            let child = node.sub_commands@[i];
            lemma_chain_below(child, tokens);
        },
        None => {},
    }
}

/// Resolution is exact: the nodes matched form a path down the tree, and
/// every one of them bears a name that is a word of the line, never a mere
/// beginning of one. The walk stops where no child is named.
pub proof fn lemma_match_chain(nodes: Seq<SubCommand>, tokens: Seq<Seq<char>>)
    ensures
        is_path(nodes, match_chain(nodes, tokens)),
        forall|k: int|
            0 <= k < match_chain(nodes, tokens).len() ==> tokens.contains(
                (#[trigger] match_chain(nodes, tokens)[k]).name@,
            ),
        match_chain(nodes, tokens).len() > 0 ==> first_index(
            match_chain(nodes, tokens).last().sub_commands@,
            is_named(tokens),
        ) is None,
        match_chain(nodes, tokens).len() == 0 <==> first_index(nodes, is_named(tokens)) is None,
{
    lemma_first_index(nodes, is_named(tokens));
    match first_index(nodes, is_named(tokens)) {
        Some(i) => {
            let first = nodes[i];
            lemma_chain_below(first, tokens);
        },
        None => {},
    }
}

/// A line resolves to a handler only through a command whose name is its
/// first word, and the handler is that of the command or of a node that the
/// words lead to.
pub proof fn lemma_resolve_is_exact(commands: Seq<Command>, tokens: Seq<Seq<char>>, handler: Handler)
    requires
        resolve(commands, tokens) == Ok::<Handler, DispatchError>(handler),
    ensures
        tokens.len() > 0,
        exists|i: int|
            0 <= i < commands.len() && (#[trigger] commands[i]).name@ == tokens[0] && (
            commands[i].handler == Some(handler) || exists|k: int|
                0 <= k < match_chain(commands[i].sub_commands@, tokens).len() && (
                #[trigger] match_chain(commands[i].sub_commands@, tokens)[k]).handler == Some(
                    handler,
                )),
{
    lemma_first_index(commands, is_called(tokens[0]));
    let i = first_index(commands, is_called(tokens[0]))->0;
    lemma_chain_handler_source(commands[i].handler, match_chain(commands[i].sub_commands@, tokens));
}

/// The handler of a chain is that of one of its nodes, or the one given
/// from above.
pub proof fn lemma_chain_handler_source(top: Option<Handler>, chain: Seq<SubCommand>)
    ensures
        chain_handler(top, chain) == top || exists|k: int|
            0 <= k < chain.len() && (#[trigger] chain[k]).handler == chain_handler(top, chain)
                && chain[k].handler is Some,
    decreases chain.len(),
{
    if chain.len() == 0 {
    } else if chain.last().handler is Some {
        assert(chain[chain.len() - 1].handler == chain_handler(top, chain));
    } else {
        let front = chain.drop_last();
        lemma_chain_handler_source(top, front);
        if chain_handler(top, front) != top {
            let k = choose|k: int|
                0 <= k < front.len() && (#[trigger] front[k]).handler == chain_handler(top, front)
                    && front[k].handler is Some;
            assert(chain[k] == front[k]);
        }
    }
}

/// Whether `name` is one of `tokens`.
pub fn is_among(name: &String, tokens: &[String]) -> (b: bool)
    ensures
        b == word_views(tokens@).contains(name@),
{
    let mut i: usize = 0;
    while i < tokens.len()
        invariant
            i <= tokens@.len(),
            forall|j: int| 0 <= j < i ==> word_views(tokens@)[j] != name@,
        decreases tokens@.len() - i,
    {
        if tokens[i] == *name {
            assert(word_views(tokens@)[i as int] == name@);
            return true;
        }
        i += 1;
    }
    false
}

/// The position of the first of `nodes` whose name is one of `tokens`.
pub fn find_first_named(nodes: &[SubCommand], tokens: &[String]) -> (r: Option<usize>)
    ensures
        match r {
            Some(i) => first_index(nodes@, is_named(word_views(tokens@))) == Some(i as int) && i
                < nodes@.len(),
            None => first_index(nodes@, is_named(word_views(tokens@))) is None,
        },
{
    let ghost named = is_named(word_views(tokens@));
    let mut i: usize = 0;
    while i < nodes.len()
        invariant
            i <= nodes@.len(),
            named == is_named(word_views(tokens@)),
            forall|j: int| 0 <= j < i ==> !named(#[trigger] nodes@[j]),
        decreases nodes@.len() - i,
    {
        if is_among(&nodes[i].name, tokens) {
            proof {
                lemma_first_index_is(nodes@, named, i as int);
            }
            return Some(i);
        }
        i += 1;
    }
    proof {
        lemma_first_index_none(nodes@, named);
    }
    None
}

/// Walks down from `subcommands` along the words. Gives the deepest node
/// reached, and the handler of the deepest node on the way that has one
/// (`top` where none has).
fn walk<'a>(subcommands: &'a [SubCommand], tokens: &[String], top: Option<Handler>) -> (r: (
    Option<&'a SubCommand>,
    Option<Handler>,
))
    ensures
        match r.0 {
            Some(node) => match_chain(subcommands@, word_views(tokens@)).len() > 0 && *node
                == match_chain(subcommands@, word_views(tokens@)).last(),
            None => match_chain(subcommands@, word_views(tokens@)).len() == 0,
        },
        r.1 == chain_handler(top, match_chain(subcommands@, word_views(tokens@))),
{
    let ghost words = word_views(tokens@);
    let first = match find_first_named(subcommands, tokens) {
        Some(i) => i,
        None => {
            return (None, top);
        },
    };
    let mut current: &SubCommand = &subcommands[first];
    let mut best: Option<Handler> = if current.handler.is_some() {
        current.handler
    } else {
        top
    };
    let ghost mut walked: Seq<SubCommand> = seq![*current];
    proof {
        assert(walked.drop_last() =~= Seq::<SubCommand>::empty());
        assert(chain_handler(top, Seq::<SubCommand>::empty()) == top);
    }
    loop
        invariant
            words == word_views(tokens@),
            walked.len() > 0,
            walked.last() == *current,
            match_chain(subcommands@, words) == walked + chain_below(*current, words),
            best == chain_handler(top, walked),
        decreases *current,
    {
        match find_first_named(current.sub_commands.as_slice(), tokens) {
            Some(i) => {
                let next = &current.sub_commands[i];
                proof {
                    assert(walked.push(*next).drop_last() =~= walked);
                    walked = walked.push(*next);
                }
                if next.handler.is_some() {
                    best = next.handler;
                }
                current = next;
            },
            None => {
                return (Some(current), best);
            },
        }
    }
}

/// The deepest node of the tree that the words lead to: the last node of
/// `match_chain`, or `None` where no node of `subcommands` is named.
pub fn find_deepest_subcommand<'a>(subcommands: &'a [SubCommand], tokens: &[String]) -> (r: Option<
    &'a SubCommand,
>)
    ensures
        match r {
            Some(node) => match_chain(subcommands@, word_views(tokens@)).len() > 0 && *node
                == match_chain(subcommands@, word_views(tokens@)).last(),
            None => match_chain(subcommands@, word_views(tokens@)).len() == 0,
        },
{
    walk(subcommands, tokens, None).0
}

impl CommandManager {
    /// The position of the first command called `name`.
    pub fn find_command(&self, name: &str) -> (r: Option<usize>)
        ensures
            match r {
                Some(i) => first_index(self.commands@, is_called(name@)) == Some(i as int) && i
                    < self.commands@.len(),
                None => first_index(self.commands@, is_called(name@)) is None,
            },
    {
        let ghost called = is_called(name@);
        let mut i: usize = 0;
        while i < self.commands.len()
            invariant
                i <= self.commands@.len(),
                called == is_called(name@),
                forall|j: int| 0 <= j < i ==> !called(#[trigger] self.commands@[j]),
            decreases self.commands@.len() - i,
        {
            if str_eq(self.commands[i].name, name) {
                proof {
                    lemma_first_index_is(self.commands@, called, i as int);
                }
                return Some(i);
            }
            i += 1;
        }
        proof {
            lemma_first_index_none(self.commands@, called);
        }
        None
    }

    /// Resolves a list of words to the handler to call. The first word names
    /// the command, by exact equality; the walk below it takes only nodes
    /// that a word names exactly.
    pub fn resolve_handler(&self, tokens: &[String]) -> (r: Result<Handler, DispatchError>)
        ensures
            r == resolve(self.commands@, word_views(tokens@)),
    {
        if tokens.len() == 0 {
            return Err(DispatchError::UnknownCommand);
        }
        let index = match self.find_command(tokens[0].as_str()) {
            Some(i) => i,
            None => {
                return Err(DispatchError::UnknownCommand);
            },
        };
        let command = &self.commands[index];
        match walk(command.sub_commands.as_slice(), tokens, command.handler).1 {
            Some(handler) => Ok(handler),
            None => Err(DispatchError::NoHandler),
        }
    }

    /// Decides what to do with a typed line. A line of whitespace alone, or
    /// without any word, asks for nothing. Otherwise the line is split into
    /// words and resolved; what goes wrong is told in the words shown to the
    /// user, and the shell goes on.
    pub fn execute(&self, line: &str) -> (r: Result<Dispatch, String>)
        ensures
            match r {
                Ok(Dispatch::Idle) => is_blank(line@) || shlex_split(line@) == Some(
                    Seq::<Seq<char>>::empty(),
                ),
                Ok(Dispatch::Invoke { handler, tokens }) => {
                    &&& !is_blank(line@)
                    &&& tokens@.len() > 0
                    &&& shlex_split(line@) == Some(word_views(tokens@))
                    &&& resolve(self.commands@, word_views(tokens@)) == Ok::<
                        Handler,
                        DispatchError,
                    >(handler)
                },
                Err(message) => !is_blank(line@) && match shlex_split(line@) {
                    None => message@ == "Failed to parse command"@,
                    Some(tokens) => tokens.len() > 0 && match resolve(self.commands@, tokens) {
                        Err(DispatchError::UnknownCommand) => message@ == "Unknown command: "@
                            + tokens[0],
                        Err(DispatchError::NoHandler) => message@
                            == "Command does not have a handler."@,
                        Ok(_) => false,
                    },
                },
            },
    {
        let chars = chars_of(line);
        if all_whitespace(chars.as_slice()) {
            return Ok(Dispatch::Idle);
        }
        let tokens = match tokenize(line) {
            Ok(tokens) => tokens,
            Err(_) => {
                return Err(String::from_str("Failed to parse command"));
            },
        };
        if tokens.len() == 0 {
            return Ok(Dispatch::Idle);
        }
        match self.resolve_handler(tokens.as_slice()) {
            Ok(handler) => Ok(Dispatch::Invoke { handler, tokens }),
            Err(DispatchError::UnknownCommand) => Err(
                String::from_str("Unknown command: ").concat(tokens[0].as_str()),
            ),
            Err(DispatchError::NoHandler) => Err(
                String::from_str("Command does not have a handler."),
            ),
        }
    }
}

} // verus!
