use mcerv::command::{Command, CommandManager, Dispatch, DispatchError, Handler, SubCommand};

fn words(items: &[&str]) -> Vec<String> {
    items.iter().map(|w| w.to_string()).collect()
}

#[test]
fn shell_commands_in_their_order() {
    let commands = CommandManager::create_commands();
    let names: Vec<&str> = commands.iter().map(|c| c.name).collect();
    assert_eq!(
        names,
        vec![
            "list",
            "search",
            "select",
            "selected",
            "set",
            "add",
            "generate",
            "update",
            "check",
            "accept-eula",
            "start",
            "exit"
        ]
    );
}

#[test]
fn shell_commands_resolve_to_their_handlers() {
    let manager = CommandManager::default();
    let cases: Vec<(&[&str], Handler)> = vec![
        (&["list", "servers"], Handler::ListServers),
        (&["list", "mods", "--update"], Handler::ListMods),
        (&["search", "server-versions", "--all"], Handler::SearchServerVersions),
        (&["search", "mods", "sodium"], Handler::SearchMods),
        (&["search", "mod-versions", "sodium"], Handler::SearchModVersions),
        (&["select", "alpha"], Handler::Select),
        (&["selected"], Handler::Selected),
        (&["set", "max-memory", "4G"], Handler::SetMaxMemory),
        (&["set", "min-memory", "1G"], Handler::SetMinMemory),
        (&["set", "java", "/opt/java"], Handler::SetJavaHome),
        (&["add", "server", "alpha", "--latest-stable"], Handler::AddServer),
        (&["add", "mod", "IIJJKKLL"], Handler::AddMod),
        (&["generate", "start-script"], Handler::GenerateStartScript),
        (&["update", "server", "--game", "1.21.8"], Handler::UpdateServer),
        (&["check", "mods-support", "1.21.8"], Handler::CheckModsSupport),
        (&["accept-eula"], Handler::AcceptEula),
        (&["start"], Handler::StartServer),
        (&["exit"], Handler::Exit),
    ];
    for (line, handler) in cases {
        assert_eq!(manager.resolve_handler(&words(line)), Ok(handler));
    }
}

#[test]
fn groups_need_a_subcommand() {
    let manager = CommandManager::default();
    for name in ["list", "search", "set", "add", "generate", "update", "check"] {
        assert_eq!(
            manager.resolve_handler(&words(&[name])),
            Err(DispatchError::NoHandler)
        );
        assert_eq!(
            manager.resolve_handler(&words(&[name, "nothing"])),
            Err(DispatchError::NoHandler)
        );
    }
    assert!(matches!(
        manager.execute("list servers"),
        Ok(Dispatch::Invoke {
            handler: Handler::ListServers,
            ..
        })
    ));
}

fn sibling_names_differ(nodes: &[SubCommand]) -> bool {
    nodes.iter().enumerate().all(|(i, node)| {
        nodes[..i].iter().all(|other| other.name != node.name)
            && sibling_names_differ(&node.sub_commands)
    })
}

#[test]
fn shell_commands_are_well_formed() {
    let commands = CommandManager::create_commands();
    for (i, command) in commands.iter().enumerate() {
        assert!(commands[..i].iter().all(|other| other.name != command.name));
        assert!(sibling_names_differ(&command.sub_commands));
        if command.handler.is_none() {
            assert!(!command.sub_commands.is_empty());
            assert!(command.sub_commands.iter().all(|node| node.handler.is_some()));
        }
    }
}

#[test]
fn shell_commands_carry_their_options() {
    let manager = CommandManager::default();
    let options = |line: &str| -> Vec<String> {
        manager
            .complete(line, line.len())
            .1
            .into_iter()
            .map(|c| c.word)
            .collect()
    };
    assert_eq!(options("list mods --"), words(&["--update"]));
    assert_eq!(
        options("search server-versions "),
        words(&["--all", "--stable-only"])
    );
    assert_eq!(
        options("search mods -"),
        words(&["--facets", "--index", "--limit"])
    );
    assert_eq!(options("search mod-versions --f"), words(&["--featured"]));
    assert_eq!(
        options("add server "),
        words(&["--game", "--loader", "--installer", "--latest-stable"])
    );
    assert_eq!(
        options("update server --game 1.21 --l"),
        words(&["--loader", "--latest-stable"])
    );
    assert_eq!(
        options("set "),
        words(&["max-memory", "min-memory", "java"])
    );
    assert_eq!(options("s"), words(&["search", "select", "selected", "set", "start"]));
}

#[test]
fn defaults_are_empty() {
    let command = Command::default();
    assert_eq!(command.name, "");
    assert_eq!(command.help, "");
    assert!(command.sub_commands.is_empty() && command.options.is_empty());
    assert!(command.handler.is_none());
    let node = SubCommand::default();
    assert_eq!(node.name, "");
    assert_eq!(node.help, "");
    assert!(node.sub_commands.is_empty() && node.options.is_empty());
    assert!(node.handler.is_none());
}
