use mcerv::command::{Command, CommandManager, SubCommand};
use mcerv::config::Config;
use mcerv::system::state::{Action, Context, Input, SelectServerError, State};

fn shell() -> State<Vec<String>> {
    State::new(CommandManager::default())
}

fn names(items: &[&str]) -> Vec<String> {
    items.iter().map(|w| w.to_string()).collect()
}

fn show(action: &Action) -> String {
    match action {
        Action::Execute(line) => format!("execute {:?}", line),
        Action::Forward(text) => format!("forward {:?}", text),
        Action::Shutdown(text) => format!("shutdown {:?}", text),
        Action::Exit => "exit".to_string(),
    }
}

#[test]
fn lines_are_commands_at_first() {
    let mut state = shell();
    assert!(!state.is_attached());
    let action = state.step(None, Input::Line("list servers".to_string()));
    assert_eq!(show(&action), "execute \"list servers\"");
    assert_eq!(show(&state.step(None, Input::Eof)), "exit");
    assert_eq!(show(&state.step(None, Input::Interrupt)), "exit");
}

#[test]
fn attached_context_forwards_the_next_line() {
    let mut state = shell();
    // The handler of `start` has announced the attachment; the next line
    // goes to the server as it was typed.
    let action = state.step(
        Some(Context::MinecraftServer(vec![])),
        Input::Line("say 'hello  there".to_string()),
    );
    assert_eq!(show(&action), "forward \"say 'hello  there\\n\"");
    assert!(state.is_attached());
    let action = state.step(None, Input::Line("list servers".to_string()));
    assert_eq!(show(&action), "forward \"list servers\\n\"");
}

#[test]
fn interrupt_while_attached_stops_the_server_first() {
    let mut state = shell();
    state.switch_context(Some(Context::MinecraftServer(vec![])));
    assert_eq!(
        show(&state.step(None, Input::Interrupt)),
        "shutdown \"stop\\n\""
    );
    assert!(state.is_attached());
    assert_eq!(show(&state.step(None, Input::Eof)), "shutdown \"stop\\n\"");
    // The server has ended: the context is the default one again, and the
    // shell leaves.
    assert_eq!(
        show(&state.step(Some(Context::Default), Input::Interrupt)),
        "exit"
    );
    assert!(!state.is_attached());
}

#[test]
fn context_reverts_when_the_server_ends() {
    let mut state = shell();
    state.switch_context(Some(Context::MinecraftServer(names(&["handle"]))));
    match &state.context {
        Context::MinecraftServer(handle) => assert_eq!(handle, &names(&["handle"])),
        Context::Default => panic!("the server is attached"),
    }
    let action = state.step(Some(Context::Default), Input::Line("selected".to_string()));
    assert_eq!(show(&action), "execute \"selected\"");
}

#[test]
fn select_server_wants_a_known_name() {
    let mut state = shell();
    state.update_server_names(names(&["alpha", "beta"]));
    assert!(state.knows_server(&"alpha".to_string()));
    assert!(!state.knows_server(&"gamma".to_string()));
    assert_eq!(
        state.select_server("gamma".to_string(), Config::new("server.jar")),
        Err(SelectServerError::ServerNotFound)
    );
    assert!(state.selected_server.is_none());
    assert_eq!(
        state.select_server("beta".to_string(), Config::new("server.jar")),
        Ok(())
    );
    let selected = state.selected_server.as_ref().unwrap();
    assert_eq!(selected.name, "beta");
    assert_eq!(selected.config, Config::new("server.jar"));
    assert_eq!(SelectServerError::ServerNotFound.message(), "ServerNotFound");
}

fn select_children(state: &State<Vec<String>>) -> Vec<String> {
    state
        .commands()
        .iter()
        .find(|command| command.name == "select")
        .unwrap()
        .sub_commands
        .iter()
        .map(|node| node.name.clone())
        .collect()
}

#[test]
fn server_names_become_the_children_of_select() {
    let mut state = shell();
    assert_eq!(select_children(&state), names(&[]));
    state.update_server_names(names(&["alpha", "beta"]));
    assert_eq!(state.server_names, names(&["alpha", "beta"]));
    assert_eq!(select_children(&state), names(&["alpha", "beta"]));
    let (start, candidates) = state.command_manager().complete("select a", 8);
    assert_eq!(start, 7);
    assert_eq!(
        candidates.iter().map(|c| c.replacement()).collect::<Vec<_>>(),
        vec!["alpha"]
    );
    // The sub-tree is replaced as a whole.
    state.update_server_names(names(&["gamma"]));
    assert_eq!(select_children(&state), names(&["gamma"]));
    let other: Vec<&str> = state.commands().iter().map(|c| c.name).collect();
    assert_eq!(other.len(), 12);
    let node: &SubCommand = &state.commands()[2].sub_commands[0];
    assert!(node.sub_commands.is_empty() && node.options.is_empty());
    assert!(node.handler.is_none());
    assert_eq!(node.help, "");
}

#[test]
fn commands_can_be_changed_in_place() {
    let mut state = shell();
    state.commands_mut().truncate(3);
    assert_eq!(state.commands().len(), 3);
    state.command_manager_mut().commands.clear();
    assert!(state.command_manager().commands.is_empty());
    assert_eq!(CommandManager::new().commands.len(), 12);
}

#[test]
fn update_without_select_changes_the_names_only() {
    let mut state: State<u8> = State::new(CommandManager {
        commands: vec![Command {
            name: "other",
            sub_commands: vec![],
            options: vec![],
            help: "",
            handler: None,
        }],
    });
    state.update_server_names(names(&["alpha"]));
    assert_eq!(state.server_names, names(&["alpha"]));
    assert!(state.commands()[0].sub_commands.is_empty());
}
