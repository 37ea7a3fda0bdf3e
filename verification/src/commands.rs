//! The commands of the shell.

use vstd::prelude::*;
use vstd::string::StringExecFns;
use crate::command::{
    chain_below,
    chain_handler,
    is_called,
    is_named,
    match_chain,
    resolve,
    Command,
    CommandManager,
    CommandOption,
    DispatchError,
    Handler,
    SubCommand,
};
use crate::seqs::{first_index, lemma_first_index};

verus! {

/// Whether no two of the nodes have the same name.
pub open spec fn distinct_names(nodes: Seq<SubCommand>) -> bool {
    forall|i: int, j: int|
        0 <= i < j < nodes.len() ==> (#[trigger] nodes[i]).name@ != (#[trigger] nodes[j]).name@
}

/// Whether, below this node and at every depth, no two siblings have the
/// same name: a word then names at most one child.
pub open spec fn unambiguous(node: SubCommand) -> bool
    decreases node,
{
    &&& distinct_names(node.sub_commands@)
    &&& forall|i: int|
        0 <= i < node.sub_commands@.len() ==> unambiguous(#[trigger] node.sub_commands@[i])
}

/// Whether this node and every node below it has a handler.
pub open spec fn fully_handled(node: SubCommand) -> bool
    decreases node,
{
    &&& node.handler is Some
    &&& forall|i: int|
        0 <= i < node.sub_commands@.len() ==> fully_handled(#[trigger] node.sub_commands@[i])
}

/// Whether a list of commands is well formed: no two commands have the same
/// name, no two siblings below them have, and a command without a handler
/// of its own has sub-commands, all of which have one.
pub open spec fn well_formed(commands: Seq<Command>) -> bool {
    &&& forall|i: int, j: int|
        0 <= i < j < commands.len() ==> (#[trigger] commands[i]).name@
            != (#[trigger] commands[j]).name@
    &&& forall|i: int|
        0 <= i < commands.len() ==> distinct_names((#[trigger] commands[i]).sub_commands@)
    &&& forall|i: int, k: int|
        0 <= i < commands.len() && 0 <= k < commands[i].sub_commands@.len() ==> unambiguous(
            #[trigger] commands[i].sub_commands@[k],
        )
    &&& forall|i: int|
        0 <= i < commands.len() && (#[trigger] commands[i]).handler is None
            ==> commands[i].sub_commands@.len() > 0
    &&& forall|i: int, k: int|
        0 <= i < commands.len() && commands[i].handler is None && 0 <= k
            < commands[i].sub_commands@.len() ==> fully_handled(
            #[trigger] commands[i].sub_commands@[k],
        )
}

/// Below a node that is fully handled, the walk ends on a node with a
/// handler.
pub proof fn lemma_chain_below_handled(node: SubCommand, tokens: Seq<Seq<char>>)
    requires
        fully_handled(node),
    ensures
        chain_below(node, tokens).len() > 0 ==> fully_handled(chain_below(node, tokens).last()),
    decreases node,
{
    lemma_first_index(node.sub_commands@, is_named(tokens));
    match first_index(node.sub_commands@, is_named(tokens)) {
        Some(i) => {
            let child = node.sub_commands@[i];
            lemma_chain_below_handled(child, tokens);
        },
        None => {},
    }
}

/// In a well-formed list of commands, a line fails for want of a handler
/// exactly where its first word names a command without one and no word
/// names one of its sub-commands: such a command needs a sub-command.
pub proof fn lemma_no_handler_needs_subcommand(commands: Seq<Command>, tokens: Seq<Seq<char>>)
    requires
        well_formed(commands),
        tokens.len() > 0,
    ensures
        resolve(commands, tokens) == Err::<Handler, DispatchError>(DispatchError::NoHandler) <==> (
        first_index(commands, is_called(tokens[0])) matches Some(i) && commands[i].handler is None
            && first_index(commands[i].sub_commands@, is_named(tokens)) is None),
{
    lemma_first_index(commands, is_called(tokens[0]));
    match first_index(commands, is_called(tokens[0])) {
        Some(i) => {
            let command = commands[i];
            let chain = match_chain(command.sub_commands@, tokens);
            lemma_first_index(command.sub_commands@, is_named(tokens));
            match first_index(command.sub_commands@, is_named(tokens)) {
                Some(k) => {
                    let child = command.sub_commands@[k];
                    let below = chain_below(child, tokens);
                    if command.handler is None {
                        assert(fully_handled(child));
                        lemma_chain_below_handled(child, tokens);
                        if below.len() > 0 {
                            assert(chain.last() == below.last());
                        } else {
                            assert(chain.last() == child);
                        }
                        assert(chain_handler(command.handler, chain) is Some);
                    } else {
                        lemma_chain_handler_keeps(command.handler, chain);
                    }
                },
                None => {
                    assert(chain.len() == 0);
                },
            }
        },
        None => {},
    }
}

/// A chain never loses the handler that the command above it has.
pub proof fn lemma_chain_handler_keeps(top: Option<Handler>, chain: Seq<SubCommand>)
    requires
        top is Some,
    ensures
        chain_handler(top, chain) is Some,
    decreases chain.len(),
{
    if chain.len() > 0 && chain.last().handler is None {
        lemma_chain_handler_keeps(top, chain.drop_last());
    }
}

/// What matters of a sub-command for dispatch and completion: its name,
/// the names of its options and its handler.
pub ghost struct SubShape {
    pub name: Seq<char>,
    pub options: Seq<Seq<char>>,
    pub handler: Option<Handler>,
}

/// What matters of a command for dispatch and completion: its name, its
/// handler and its sub-commands.
pub ghost struct CommandShape {
    pub name: Seq<char>,
    pub handler: Option<Handler>,
    pub subs: Seq<SubShape>,
}

/// The names of a list of options.
pub open spec fn option_names(options: Seq<CommandOption>) -> Seq<Seq<char>> {
    Seq::new(options.len(), |j: int| options[j].name@)
}

/// The shape of a sub-command.
pub open spec fn sub_shape(node: SubCommand) -> SubShape {
    SubShape { name: node.name@, options: option_names(node.options@), handler: node.handler }
}

/// The shape of a command.
pub open spec fn command_shape(command: Command) -> CommandShape {
    CommandShape {
        name: command.name@,
        handler: command.handler,
        subs: Seq::new(
            command.sub_commands@.len(),
            |k: int| sub_shape(command.sub_commands@[k]),
        ),
    }
}

/// Whether a command is flat: it has no options of its own, and its
/// sub-commands have no sub-commands.
pub open spec fn is_flat(command: Command) -> bool {
    &&& command.options@.len() == 0
    &&& forall|k: int|
        0 <= k < command.sub_commands@.len() ==> (
        #[trigger] command.sub_commands@[k]).sub_commands@.len() == 0
}

/// A sub-command without options.
pub open spec fn bare(name: Seq<char>, handler: Handler) -> SubShape {
    SubShape { name, options: Seq::empty(), handler: Some(handler) }
}

/// A command that does its work itself.
pub open spec fn acting(name: Seq<char>, handler: Handler) -> CommandShape {
    CommandShape { name, handler: Some(handler), subs: Seq::empty() }
}

/// A command that is the head of its sub-commands.
pub open spec fn heading(name: Seq<char>, subs: Seq<SubShape>) -> CommandShape {
    CommandShape { name, handler: None, subs }
}

/// The names of the options that name the versions of a Fabric server.
pub open spec fn version_option_names() -> Seq<Seq<char>> {
    seq!["game"@, "loader"@, "installer"@, "latest-stable"@]
}

/// `list`: the servers, or the mods of the selected server.
pub open spec fn list_shape() -> CommandShape {
    heading(
        "list"@,
        seq![
            bare("servers"@, Handler::ListServers),
            SubShape {
                name: "mods"@,
                options: seq!["update"@],
                handler: Some(Handler::ListMods),
            },
        ],
    )
}

/// `search`: versions of the server software, mods, or the versions of a mod.
pub open spec fn search_shape() -> CommandShape {
    heading(
        "search"@,
        seq![
            SubShape {
                name: "server-versions"@,
                options: seq!["all"@, "stable-only"@],
                handler: Some(Handler::SearchServerVersions),
            },
            SubShape {
                name: "mods"@,
                options: seq!["facets"@, "index"@, "limit"@],
                handler: Some(Handler::SearchMods),
            },
            SubShape {
                name: "mod-versions"@,
                options: seq!["featured"@],
                handler: Some(Handler::SearchModVersions),
            },
        ],
    )
}

/// `set`: the memory limits or the Java home of the selected server.
pub open spec fn set_shape() -> CommandShape {
    heading(
        "set"@,
        seq![
            bare("max-memory"@, Handler::SetMaxMemory),
            bare("min-memory"@, Handler::SetMinMemory),
            bare("java"@, Handler::SetJavaHome),
        ],
    )
}

/// `add`: a server, or a mod for the selected server.
pub open spec fn add_shape() -> CommandShape {
    heading(
        "add"@,
        seq![
            SubShape {
                name: "server"@,
                options: version_option_names(),
                handler: Some(Handler::AddServer),
            },
            bare("mod"@, Handler::AddMod),
        ],
    )
}

/// The commands of the shell: what each is called, what it does, and which
/// sub-commands and options it takes.
pub open spec fn shell_shapes() -> Seq<CommandShape> {
    seq![
        list_shape(),
        search_shape(),
        acting("select"@, Handler::Select),
        acting("selected"@, Handler::Selected),
        set_shape(),
        add_shape(),
        heading("generate"@, seq![bare("start-script"@, Handler::GenerateStartScript)]),
        heading(
            "update"@,
            seq![
                SubShape {
                    name: "server"@,
                    options: version_option_names(),
                    handler: Some(Handler::UpdateServer),
                },
            ],
        ),
        heading("check"@, seq![bare("mods-support"@, Handler::CheckModsSupport)]),
        acting("accept-eula"@, Handler::AcceptEula),
        acting("start"@, Handler::StartServer),
        acting("exit"@, Handler::Exit),
    ]
}

/// The shapes of a list of commands.
pub open spec fn command_shapes(commands: Seq<Command>) -> Seq<CommandShape> {
    Seq::new(commands.len(), |i: int| command_shape(commands[i]))
}

/// No two commands of the shell have the same name.
pub proof fn lemma_shell_names_differ()
    ensures
        forall|i: int, j: int|
            0 <= i < j < shell_shapes().len() ==> (#[trigger] shell_shapes()[i]).name != (
            #[trigger] shell_shapes()[j]).name,
{
    reveal_strlit("list");
    reveal_strlit("search");
    reveal_strlit("select");
    reveal_strlit("selected");
    reveal_strlit("set");
    reveal_strlit("add");
    reveal_strlit("generate");
    reveal_strlit("update");
    reveal_strlit("check");
    reveal_strlit("accept-eula");
    reveal_strlit("start");
    reveal_strlit("exit");
    assert("search"@.len() == 6 && "search"@[2] == 'a');
    assert("select"@.len() == 6 && "select"@[2] == 'l' && "select"@[0] == 's');
    assert("selected"@.len() == 8 && "selected"@[0] == 's');
    assert("set"@.len() == 3 && "set"@[0] == 's');
    assert("add"@.len() == 3 && "add"@[0] == 'a');
    assert("generate"@.len() == 8 && "generate"@[0] == 'g');
    assert("update"@.len() == 6 && "update"@[0] == 'u');
    assert("check"@.len() == 5 && "check"@[0] == 'c');
    assert("accept-eula"@.len() == 11);
    assert("start"@.len() == 5 && "start"@[0] == 's');
    assert("exit"@.len() == 4 && "exit"@[0] == 'e');
}

impl Default for Command {
    fn default() -> (r: Command)
        ensures
            r.name@.len() == 0,
            r.sub_commands@.len() == 0,
            r.options@.len() == 0,
            r.help@.len() == 0,
            r.handler is None,
    {
        proof {
            reveal_strlit("");
        }
        Command {
            name: "",
            sub_commands: Vec::new(),
            options: Vec::new(),
            help: "",
            handler: None,
        }
    }
}

impl Default for SubCommand {
    fn default() -> (r: SubCommand)
        ensures
            r.name@.len() == 0,
            r.sub_commands@.len() == 0,
            r.options@.len() == 0,
            r.help@.len() == 0,
            r.handler is None,
    {
        proof {
            reveal_strlit("");
        }
        SubCommand {
            name: String::new(),
            sub_commands: Vec::new(),
            options: Vec::new(),
            help: "",
            handler: None,
        }
    }
}

/// A sub-command without children.
fn leaf(name: &'static str, help: &'static str, options: Vec<CommandOption>, handler: Handler) -> (r:
    SubCommand)
    ensures
        r.sub_commands@.len() == 0,
        r.help == help,
        unambiguous(r),
        fully_handled(r),
        sub_shape(r) == (SubShape {
            name: name@,
            options: option_names(options@),
            handler: Some(handler),
        }),
{
    SubCommand {
        name: String::from_str(name),
        sub_commands: Vec::new(),
        options,
        help,
        handler: Some(handler),
    }
}

/// A sub-command without children or options.
fn plain(name: &'static str, help: &'static str, handler: Handler) -> (r: SubCommand)
    ensures
        r.sub_commands@.len() == 0,
        r.help == help,
        unambiguous(r),
        fully_handled(r),
        sub_shape(r) == bare(name@, handler),
{
    let options: Vec<CommandOption> = Vec::new();
    assert(option_names(options@) =~= Seq::<Seq<char>>::empty());
    leaf(name, help, options, handler)
}

/// A command that is nothing but the head of its sub-commands.
fn group(name: &'static str, sub_commands: Vec<SubCommand>) -> (r: Command)
    ensures
        r.name == name,
        r.sub_commands == sub_commands,
        r.options@.len() == 0,
        r.help@.len() == 0,
        r.handler is None,
{
    proof {
        reveal_strlit("");
    }
    Command { name, sub_commands, options: Vec::new(), help: "", handler: None }
}

/// A command without sub-commands or options.
fn action(name: &'static str, help: &'static str, handler: Handler) -> (r: Command)
    ensures
        r.help == help,
        r.sub_commands@.len() == 0,
        command_shape(r) == acting(name@, handler),
        is_flat(r),
{
    let r = Command {
        name,
        sub_commands: Vec::new(),
        options: Vec::new(),
        help,
        handler: Some(handler),
    };
    assert(command_shape(r).subs =~= Seq::<SubShape>::empty());
    r
}

/// A command whose one sub-command does the work.
fn single(name: &'static str, sub: SubCommand) -> (r: Command)
    requires
        sub.sub_commands@.len() == 0,
        unambiguous(sub),
        fully_handled(sub),
    ensures
        command_shape(r) == heading(name@, seq![sub_shape(sub)]),
        is_flat(r),
        r.handler is None,
        r.sub_commands@.len() == 1,
        distinct_names(r.sub_commands@),
        forall|k: int|
            0 <= k < r.sub_commands@.len() ==> unambiguous(#[trigger] r.sub_commands@[k])
                && fully_handled(r.sub_commands@[k]),
{
    let mut subs: Vec<SubCommand> = Vec::new();
    subs.push(sub);
    let r = group(name, subs);
    assert(command_shape(r).subs =~= seq![sub_shape(sub)]);
    r
}

fn option(name: &'static str, help: &'static str) -> (r: CommandOption)
    ensures
        r.name == name,
        r.help == help,
{
    CommandOption { name, help }
}

/// The options that name the versions of a Fabric server.
fn version_options() -> (r: Vec<CommandOption>)
    ensures
        option_names(r@) == version_option_names(),
{
    let mut options: Vec<CommandOption> = Vec::new();
    options.push(option("game", "The Minecraft version."));
    options.push(option("loader", "The Fabric Loader version."));
    options.push(option("installer", "The Fabric Installer version."));
    options.push(option("latest-stable", "Use the latest stable versions for the unspecified."));
    options
}

fn list_command() -> (r: Command)
    ensures
        command_shape(r) == list_shape(),
        is_flat(r),
        r.handler is None,
        r.sub_commands@.len() > 0,
        distinct_names(r.sub_commands@),
        forall|k: int|
            0 <= k < r.sub_commands@.len() ==> unambiguous(#[trigger] r.sub_commands@[k])
                && fully_handled(r.sub_commands@[k]),
{
    let mut subs: Vec<SubCommand> = Vec::new();
    subs.push(plain("servers", "List the server names.", Handler::ListServers));
    let mut options: Vec<CommandOption> = Vec::new();
    options.push(option("update", "Whether to update the mod if available."));
    assert(option_names(options@) =~= seq!["update"@]);
    subs.push(
        leaf(
            "mods",
            "List installed mods with their current versions and check for updates on Modrinth.",
            options,
            Handler::ListMods,
        ),
    );
    proof {
        reveal_strlit("servers");
        reveal_strlit("mods");
        assert(sub_shape(subs@[1]).name == subs@[1].name@);
    }
    let r = group("list", subs);
    assert(command_shape(r).subs =~= list_shape().subs);
    r
}

fn search_command() -> (r: Command)
    ensures
        command_shape(r) == search_shape(),
        is_flat(r),
        r.handler is None,
        r.sub_commands@.len() > 0,
        distinct_names(r.sub_commands@),
        forall|k: int|
            0 <= k < r.sub_commands@.len() ==> unambiguous(#[trigger] r.sub_commands@[k])
                && fully_handled(r.sub_commands@[k]),
{
    let mut subs: Vec<SubCommand> = Vec::new();
    let mut options: Vec<CommandOption> = Vec::new();
    options.push(option("all", "List all versions, stable and unstable."));
    options.push(option("stable-only", "List only stable versions."));
    assert(option_names(options@) =~= seq!["all"@, "stable-only"@]);
    subs.push(
        leaf(
            "server-versions",
            "List Minecraft, Fabric Loader, and Fabric Installer versions from fabric-meta.",
            options,
            Handler::SearchServerVersions,
        ),
    );
    let mut options: Vec<CommandOption> = Vec::new();
    options.push(
        option(
            "facets",
            "The search facets. For example, \"categories:fabric, versions:1.17.1\".",
        ),
    );
    options.push(option("index", "The index to sort by, e.g., 'downloads'."));
    options.push(option("limit", "The maximum number of results to return."));
    assert(option_names(options@) =~= seq!["facets"@, "index"@, "limit"@]);
    subs.push(leaf("mods", "Search for mods on Modrinth.", options, Handler::SearchMods));
    let mut options: Vec<CommandOption> = Vec::new();
    options.push(
        option("featured", "Allows to filter for featured or non-featured versions only."),
    );
    assert(option_names(options@) =~= seq!["featured"@]);
    subs.push(
        leaf(
            "mod-versions",
            "Get versions of a mod from Modrinth.",
            options,
            Handler::SearchModVersions,
        ),
    );
    proof {
        reveal_strlit("server-versions");
        reveal_strlit("mods");
        reveal_strlit("mod-versions");
        assert(sub_shape(subs@[1]).name == subs@[1].name@);
        assert(sub_shape(subs@[2]).name == subs@[2].name@);
    }
    let r = group("search", subs);
    assert(command_shape(r).subs =~= search_shape().subs);
    r
}

fn set_command() -> (r: Command)
    ensures
        command_shape(r) == set_shape(),
        is_flat(r),
        r.handler is None,
        r.sub_commands@.len() > 0,
        distinct_names(r.sub_commands@),
        forall|k: int|
            0 <= k < r.sub_commands@.len() ==> unambiguous(#[trigger] r.sub_commands@[k])
                && fully_handled(r.sub_commands@[k]),
{
    let mut subs: Vec<SubCommand> = Vec::new();
    subs.push(
        plain("max-memory", "Set the maximum memory for the server.", Handler::SetMaxMemory),
    );
    subs.push(
        plain("min-memory", "Set the minimum memory for the server.", Handler::SetMinMemory),
    );
    subs.push(
        plain(
            "java",
            "Set the JAVA_HOME for the server. This will change the start command to use the specified Java.",
            Handler::SetJavaHome,
        ),
    );
    proof {
        reveal_strlit("max-memory");
        reveal_strlit("min-memory");
        reveal_strlit("java");
        assert("max-memory"@[1] == 'a' && "min-memory"@[1] == 'i' && "java"@.len() == 4
            && "max-memory"@.len() == 10 && "min-memory"@.len() == 10);
    }
    let r = group("set", subs);
    assert(command_shape(r).subs =~= set_shape().subs);
    r
}

fn add_command() -> (r: Command)
    ensures
        command_shape(r) == add_shape(),
        is_flat(r),
        r.handler is None,
        r.sub_commands@.len() > 0,
        distinct_names(r.sub_commands@),
        forall|k: int|
            0 <= k < r.sub_commands@.len() ==> unambiguous(#[trigger] r.sub_commands@[k])
                && fully_handled(r.sub_commands@[k]),
{
    let mut subs: Vec<SubCommand> = Vec::new();
    subs.push(
        leaf(
            "server",
            "Download the selected versions for the server.",
            version_options(),
            Handler::AddServer,
        ),
    );
    subs.push(plain("mod", "Download a mod version from Modrinth.", Handler::AddMod));
    proof {
        reveal_strlit("server");
        reveal_strlit("mod");
        assert(sub_shape(subs@[1]).name == subs@[1].name@);
    }
    let r = group("add", subs);
    assert(command_shape(r).subs =~= add_shape().subs);
    r
}

impl CommandManager {
    /// A manager of the commands of the shell.
    pub fn new() -> (r: CommandManager)
        ensures
            command_shapes(r.commands@) == shell_shapes(),
            forall|i: int| 0 <= i < r.commands@.len() ==> is_flat(#[trigger] r.commands@[i]),
            well_formed(r.commands@),
    {
        CommandManager { commands: CommandManager::create_commands() }
    }

    /// The commands of the shell. Each is flat: sub-commands go one level
    /// deep, and options belong to sub-commands. They are well formed, so
    /// that a word names at most one node at each level, and a command
    /// without a handler of its own is answered by each of its
    /// sub-commands.
    pub fn create_commands() -> (r: Vec<Command>)
        ensures
            command_shapes(r@) == shell_shapes(),
            forall|i: int| 0 <= i < r@.len() ==> is_flat(#[trigger] r@[i]),
            well_formed(r@),
    {
        let mut commands: Vec<Command> = Vec::new();
        commands.push(list_command());
        commands.push(search_command());
        commands.push(
            action(
                "select",
                "Select a server from the servers list to operate on.",
                Handler::Select,
            ),
        );
        commands.push(action("selected", "Get the currently selected server.", Handler::Selected));
        commands.push(set_command());
        commands.push(add_command());
        commands.push(
            single(
                "generate",
                plain(
                    "start-script",
                    "Generate a start script for the selected server.",
                    Handler::GenerateStartScript,
                ),
            ),
        );
        commands.push(
            single(
                "update",
                leaf(
                    "server",
                    "Update the server executable jar to the specified versions.",
                    version_options(),
                    Handler::UpdateServer,
                ),
            ),
        );
        commands.push(
            single(
                "check",
                plain(
                    "mods-support",
                    "Check if the mods in the selected server have availible version for the specified game version on Modrinth.",
                    Handler::CheckModsSupport,
                ),
            ),
        );
        commands.push(
            action(
                "accept-eula",
                "Accept the EULA for the selected server. This will modify the eula.txt file.",
                Handler::AcceptEula,
            ),
        );
        commands.push(action("start", "Start the selected server.", Handler::StartServer));
        commands.push(action("exit", "Exit the program.", Handler::Exit));
        proof {
            lemma_shell_names_differ();
        }
        commands
    }
}

impl Default for CommandManager {
    fn default() -> (r: CommandManager)
        ensures
            command_shapes(r.commands@) == shell_shapes(),
            forall|i: int| 0 <= i < r.commands@.len() ==> is_flat(#[trigger] r.commands@[i]),
            well_formed(r.commands@),
    {
        CommandManager::new()
    }
}

} // verus!
