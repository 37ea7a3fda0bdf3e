//! The state of the interactive shell: the known servers, the selected
//! one, and whether typed lines are commands or input for a running server.

use vstd::prelude::*;
use vstd::string::StringExecFns;
use crate::command::{is_called, Command, CommandManager, SubCommand};
use crate::config::Config;
use crate::seqs::first_index;
use crate::tokenizer::word_views;

verus! {

/// What the shell does with typed lines. It starts as `Default`, becomes
/// `MinecraftServer` when a server is started, and goes back to `Default`
/// when that server ends. `H` is the handle through which the running
/// server is written to.
pub enum Context<H> {
    /// Lines are commands.
    Default,
    /// Lines are passed on to the running server.
    MinecraftServer(H),
}

/// What the line editor hands to the shell.
pub enum Input {
    /// A line was typed.
    Line(String),
    /// The user interrupted the prompt.
    Interrupt,
    /// The input has ended.
    Eof,
}

/// What the shell is to do next.
pub enum Action {
    /// Run the line as a command.
    Execute(String),
    /// Write the text to the running server and flush.
    Forward(String),
    /// Write the text, which asks the running server to stop, flush, wait
    /// until the context is `Default` again, and then leave.
    Shutdown(String),
    /// Leave with exit code 0.
    Exit,
}

/// An action, with its text as characters.
pub ghost enum ActionView {
    Execute(Seq<char>),
    Forward(Seq<char>),
    Shutdown(Seq<char>),
    Exit,
}

impl View for Action {
    type V = ActionView;

    open spec fn view(&self) -> ActionView {
        match *self {
            Action::Execute(line) => ActionView::Execute(line@),
            Action::Forward(text) => ActionView::Forward(text@),
            Action::Shutdown(text) => ActionView::Shutdown(text@),
            Action::Exit => ActionView::Exit,
        }
    }
}

/// The line that asks a running server to stop.
pub open spec fn shutdown_line() -> Seq<char> {
    "stop\n"@
}

/// What is done with an input. While lines are commands, a line is run and
/// an interrupt or the end of the input ends the shell. While a server is
/// attached, a line goes to the server as it was typed, with a line feed
/// after it, and an interrupt or the end of the input asks the server to
/// stop.
pub open spec fn reaction(attached: bool, input: Input) -> ActionView {
    match input {
        Input::Line(line) => if attached {
            ActionView::Forward(line@ + "\n"@)
        } else {
            ActionView::Execute(line@)
        },
        _ => if attached {
            ActionView::Shutdown(shutdown_line())
        } else {
            ActionView::Exit
        },
    }
}

/// While a server is attached no command is run, and while none is, no
/// line is passed on: exactly one of the two contexts is in force.
pub proof fn lemma_one_context_at_a_time(attached: bool, input: Input)
    ensures
        attached ==> !(reaction(attached, input) is Execute) && !(reaction(attached, input) is Exit),
        !attached ==> !(reaction(attached, input) is Forward) && !(reaction(
            attached,
            input,
        ) is Shutdown),
{
}

/// A line typed while a server is attached reaches the server as it was
/// typed: the text passed on is the line and a line feed, whatever the line
/// holds.
pub proof fn lemma_attached_line_is_verbatim(line: String)
    ensures
        reaction(true, Input::Line(line)) == ActionView::Forward(line@.push('\n')),
{
    reveal_strlit("\n");
    assert(line@ + "\n"@ =~= line@.push('\n'));
}

/// Why a server cannot be selected.
#[derive(Clone, Copy, Debug, PartialEq, Eq, Structural)]
pub enum SelectServerError {
    /// No server of that name is known.
    ServerNotFound,
}

impl SelectServerError {
    /// The words shown to the user.
    pub fn message(&self) -> (r: &'static str)
        ensures
            r@ == "ServerNotFound"@,
    {
        "ServerNotFound"
    }
}

/// A server instance and its configuration.
pub struct Server {
    pub name: String,
    pub config: Config,
}

/// The state of the shell.
pub struct State<H> {
    pub commands: CommandManager,
    pub selected_server: Option<Server>,
    pub server_names: Vec<String>,
    pub context: Context<H>,
}

/// Whether a node is a name for completion and nothing else: no children,
/// no options, no help and no handler.
pub open spec fn is_bare(node: SubCommand) -> bool {
    &&& node.sub_commands@.len() == 0
    &&& node.options@.len() == 0
    &&& node.help@.len() == 0
    &&& node.handler is None
}

/// Whether `nodes` are bare nodes with the names `names`, in that order.
pub open spec fn are_names(nodes: Seq<SubCommand>, names: Seq<Seq<char>>) -> bool {
    &&& nodes.len() == names.len()
    &&& forall|i: int|
        0 <= i < nodes.len() ==> is_bare(#[trigger] nodes[i]) && nodes[i].name@ == names[i]
}

/// One bare node for each name.
pub fn name_nodes(names: &[String]) -> (r: Vec<SubCommand>)
    ensures
        are_names(r@, word_views(names@)),
{
    let mut nodes: Vec<SubCommand> = Vec::new();
    let mut i: usize = 0;
    while i < names.len()
        invariant
            i <= names@.len(),
            nodes@.len() == i,
            forall|j: int|
                0 <= j < i ==> is_bare(#[trigger] nodes@[j]) && nodes@[j].name@ == names@[j]@,
        decreases names@.len() - i,
    {
        let help: &'static str = "";
        proof {
            reveal_strlit("");
        }
        nodes.push(
            SubCommand {
                name: names[i].clone(),
                sub_commands: Vec::new(),
                options: Vec::new(),
                help,
                handler: None,
            },
        );
        i += 1;
    }
    nodes
}

impl<H> State<H> {
    /// The state at the start: no server known, none selected, and lines
    /// are commands.
    pub fn new(commands: CommandManager) -> (r: State<H>)
        ensures
            r.commands == commands,
            r.selected_server is None,
            r.server_names@.len() == 0,
            r.context is Default,
    {
        State {
            commands,
            selected_server: None,
            server_names: Vec::new(),
            context: Context::Default,
        }
    }

    /// The commands of the shell.
    pub fn command_manager(&self) -> (r: &CommandManager)
        ensures
            *r == self.commands,
    {
        &self.commands
    }

    /// The commands of the shell, to change them.
    pub fn command_manager_mut(&mut self) -> (r: &mut CommandManager)
        ensures
            *r == old(self).commands,
            final(self).commands == *final(r),
            final(self).selected_server == old(self).selected_server,
            final(self).server_names == old(self).server_names,
            final(self).context == old(self).context,
    {
        &mut self.commands
    }

    /// The top-level commands of the shell.
    pub fn commands(&self) -> (r: &Vec<Command>)
        ensures
            *r == self.commands.commands,
    {
        &self.commands.commands
    }

    /// The top-level commands of the shell, to change them.
    pub fn commands_mut(&mut self) -> (r: &mut Vec<Command>)
        ensures
            *r == old(self).commands.commands,
            final(self).commands.commands == *final(r),
            final(self).selected_server == old(self).selected_server,
            final(self).server_names == old(self).server_names,
            final(self).context == old(self).context,
    {
        &mut self.commands.commands
    }

    /// Whether a server of that name is known.
    pub fn knows_server(&self, server_name: &String) -> (b: bool)
        ensures
            b == word_views(self.server_names@).contains(server_name@),
    {
        crate::command::is_among(server_name, self.server_names.as_slice())
    }

    /// Selects the server `server_name`, whose configuration is `config`.
    /// A name that is not known is refused, and the selection stays as it
    /// was.
    pub fn select_server(&mut self, server_name: String, config: Config) -> (r: Result<
        (),
        SelectServerError,
    >)
        ensures
            final(self).commands == old(self).commands,
            final(self).server_names == old(self).server_names,
            final(self).context == old(self).context,
            r is Ok <==> word_views(old(self).server_names@).contains(server_name@),
            match r {
                Ok(_) => final(self).selected_server == Some(Server { name: server_name, config }),
                Err(_) => final(self).selected_server == old(self).selected_server,
            },
    {
        if !self.knows_server(&server_name) {
            return Err(SelectServerError::ServerNotFound);
        }
        self.selected_server = Some(Server { name: server_name, config });
        Ok(())
    }

    /// Takes over the names of the servers found on disk, and makes them the
    /// sub-commands of the first command called `select`, in place of those
    /// it had. All other commands stay as they are.
    pub fn update_server_names(&mut self, dir_names: Vec<String>)
        ensures
            final(self).server_names == dir_names,
            final(self).selected_server == old(self).selected_server,
            final(self).context == old(self).context,
            final(self).commands.commands@.len() == old(self).commands.commands@.len(),
            forall|i: int|
                0 <= i < old(self).commands.commands@.len() && first_index(
                    old(self).commands.commands@,
                    is_called("select"@),
                ) != Some(i) ==> #[trigger] final(self).commands.commands@[i] == old(
                    self,
                ).commands.commands@[i],
            match first_index(old(self).commands.commands@, is_called("select"@)) {
                Some(i) => {
                    let before = old(self).commands.commands@[i];
                    let after = final(self).commands.commands@[i];
                    &&& after.name == before.name
                    &&& after.options == before.options
                    &&& after.help == before.help
                    &&& after.handler == before.handler
                    &&& are_names(after.sub_commands@, word_views(dir_names@))
                },
                None => true,
            },
    {
        let nodes = name_nodes(dir_names.as_slice());
        self.server_names = dir_names;
        match self.commands.find_command("select") {
            Some(i) => {
                self.commands.commands[i].sub_commands = nodes;
            },
            None => {},
        }
    }

    /// Lets a change of context that a handler has announced take effect.
    pub fn switch_context(&mut self, pending: Option<Context<H>>)
        ensures
            final(self).commands == old(self).commands,
            final(self).selected_server == old(self).selected_server,
            final(self).server_names == old(self).server_names,
            final(self).context == match pending {
                Some(context) => context,
                None => old(self).context,
            },
    {
        match pending {
            Some(context) => {
                self.context = context;
            },
            None => {},
        }
    }

    /// Whether lines are passed on to a running server.
    pub fn is_attached(&self) -> (b: bool)
        ensures
            b == (self.context is MinecraftServer),
    {
        match &self.context {
            Context::Default => false,
            Context::MinecraftServer(_) => true,
        }
    }

    /// What to do with an input in the present context.
    pub fn next_action(&self, input: Input) -> (r: Action)
        ensures
            r@ == reaction(self.context is MinecraftServer, input),
    {
        let attached = self.is_attached();
        match input {
            Input::Line(line) => if attached {
                Action::Forward(line.concat("\n"))
            } else {
                Action::Execute(line)
            },
            _ => if attached {
                Action::Shutdown(String::from_str("stop\n"))
            } else {
                Action::Exit
            },
        }
    }

    /// One turn of the shell: a change of context that was announced since
    /// the last turn takes effect first, and the input is then treated in
    /// the context that holds.
    pub fn step(&mut self, pending: Option<Context<H>>, input: Input) -> (r: Action)
        ensures
            final(self).commands == old(self).commands,
            final(self).selected_server == old(self).selected_server,
            final(self).server_names == old(self).server_names,
            final(self).context == match pending {
                Some(context) => context,
                None => old(self).context,
            },
            r@ == reaction(final(self).context is MinecraftServer, input),
    {
        self.switch_context(pending);
        self.next_action(input)
    }
}

} // verus!
