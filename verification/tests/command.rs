use mcerv::command::{
    find_deepest_subcommand, Command, CommandManager, CommandOption, Dispatch, DispatchError,
    Handler, SubCommand,
};
use mcerv::completion::{suggest_options, suggest_subcommands, SmartCandidate};

fn sample_commands() -> Vec<Command> {
    vec![
        Command {
            name: "cmd1",
            sub_commands: vec![SubCommand {
                name: "sub1".to_string(),
                sub_commands: vec![],
                help: "",
                options: vec![CommandOption {
                    name: "opt1",
                    help: "",
                }],
                handler: None,
            }],
            options: vec![],
            help: "",
            handler: None,
        },
        Command {
            name: "cmd2",
            sub_commands: vec![],
            options: vec![],
            help: "",
            handler: None,
        },
    ]
}

fn assert_suggestions(completer: &CommandManager, line: &str, expected: &[String]) {
    let suggestions = completer
        .complete(line, line.len())
        .1
        .into_iter()
        .map(|sc| sc.word)
        .collect::<Vec<_>>();

    assert!(expected.iter().all(|ex| suggestions.contains(ex)));
}

fn run_completer_cases(completer: &CommandManager) {
    assert_suggestions(
        completer,
        "cmd",
        &[String::from("cmd1"), String::from("cmd2")],
    );

    assert_suggestions(completer, "cmd1 ", &[String::from("sub1")]);
    assert_suggestions(completer, "cmd1 s", &[String::from("sub1")]);

    assert_suggestions(completer, "cmd1 sub1 ", &[String::from("--opt1")]);
    assert_suggestions(completer, "cmd1 sub1 -", &[String::from("--opt1")]);
    assert_suggestions(completer, "cmd1 sub1 --", &[String::from("--opt1")]);
    assert_suggestions(completer, "cmd1 sub1 -o", &[String::from("--opt1")]);
    assert_suggestions(completer, "cmd1 sub1 -1", &[]);
}

#[test]
fn test_smart_completer() {
    let completer = CommandManager {
        commands: sample_commands(),
    };
    run_completer_cases(&completer);
}

#[test]
fn test_completer() {
    let cmd_manager = CommandManager {
        commands: sample_commands(),
    };
    run_completer_cases(&cmd_manager);
}

fn words(items: &[&str]) -> Vec<String> {
    items.iter().map(|w| w.to_string()).collect()
}

fn completed(manager: &CommandManager, line: &str, pos: usize) -> (usize, Vec<String>) {
    let (start, candidates) = manager.complete(line, pos);
    (start, candidates.into_iter().map(|c| c.word).collect())
}

/// `cmd1` with a handler, its child `sub1` with another and the option
/// `opt1`; `cmd2` without handler; `cmd3` with a child that has none.
fn handled_commands() -> CommandManager {
    CommandManager {
        commands: vec![
            Command {
                name: "cmd1",
                sub_commands: vec![SubCommand {
                    name: "sub1".to_string(),
                    sub_commands: vec![],
                    help: "the first sub-command",
                    options: vec![
                        CommandOption {
                            name: "opt1",
                            help: "the first option",
                        },
                        CommandOption {
                            name: "other",
                            help: "the second option",
                        },
                    ],
                    handler: Some(Handler::ListMods),
                }],
                options: vec![],
                help: "the first command",
                handler: Some(Handler::ListServers),
            },
            Command {
                name: "cmd2",
                sub_commands: vec![],
                options: vec![],
                help: "the second command",
                handler: None,
            },
            Command {
                name: "cmd3",
                sub_commands: vec![SubCommand {
                    name: "outer".to_string(),
                    sub_commands: vec![
                        SubCommand {
                            name: "inner".to_string(),
                            sub_commands: vec![],
                            help: "",
                            options: vec![],
                            handler: None,
                        },
                        SubCommand {
                            name: "innermost".to_string(),
                            sub_commands: vec![],
                            help: "",
                            options: vec![],
                            handler: Some(Handler::Exit),
                        },
                    ],
                    help: "",
                    options: vec![],
                    handler: Some(Handler::Select),
                }],
                options: vec![],
                help: "",
                handler: None,
            },
        ],
    }
}

#[test]
fn resolver_takes_the_handler_of_the_deepest_node() {
    let manager = handled_commands();
    assert_eq!(
        manager.resolve_handler(&words(&["cmd1", "sub1"])),
        Ok(Handler::ListMods)
    );
    assert_eq!(
        manager.resolve_handler(&words(&["cmd1"])),
        Ok(Handler::ListServers)
    );
    assert_eq!(
        manager.resolve_handler(&words(&["nope"])),
        Err(DispatchError::UnknownCommand)
    );
    assert_eq!(
        manager.resolve_handler(&words(&["cmd2"])),
        Err(DispatchError::NoHandler)
    );
    assert_eq!(
        manager.resolve_handler(&words(&[])),
        Err(DispatchError::UnknownCommand)
    );
}

#[test]
fn resolver_needs_the_exact_name() {
    let manager = handled_commands();
    assert_eq!(
        manager.resolve_handler(&words(&["cmd"])),
        Err(DispatchError::UnknownCommand)
    );
    assert_eq!(
        manager.resolve_handler(&words(&["cmd1", "sub"])),
        Ok(Handler::ListServers)
    );
}

#[test]
fn resolver_finds_a_node_behind_options() {
    let manager = handled_commands();
    assert_eq!(
        manager.resolve_handler(&words(&["cmd1", "--opt1", "value", "sub1"])),
        Ok(Handler::ListMods)
    );
}

#[test]
fn resolver_falls_back_to_the_nearest_ancestor() {
    let manager = handled_commands();
    assert_eq!(
        manager.resolve_handler(&words(&["cmd3", "outer", "inner"])),
        Ok(Handler::Select)
    );
    assert_eq!(
        manager.resolve_handler(&words(&["cmd3", "outer", "innermost"])),
        Ok(Handler::Exit)
    );
    assert_eq!(
        manager.resolve_handler(&words(&["cmd3"])),
        Err(DispatchError::NoHandler)
    );
}

#[test]
fn deepest_subcommand_takes_the_first_sibling_that_matches() {
    let manager = handled_commands();
    let tokens = words(&["cmd3", "innermost", "inner", "outer"]);
    let node = find_deepest_subcommand(&manager.commands[2].sub_commands, &tokens).unwrap();
    assert_eq!(node.name, "inner");
    assert!(find_deepest_subcommand(&manager.commands[2].sub_commands, &words(&["cmd3"])).is_none());
}

#[test]
fn execute_gives_the_handler_and_the_words() {
    let manager = handled_commands();
    match manager.execute("cmd1 sub1 'a b'") {
        Ok(Dispatch::Invoke { handler, tokens }) => {
            assert_eq!(handler, Handler::ListMods);
            assert_eq!(tokens, words(&["cmd1", "sub1", "a b"]));
        }
        _ => panic!("the line names a handler"),
    }
}

#[test]
fn execute_reports_errors_in_words() {
    let manager = handled_commands();
    assert_eq!(
        manager.execute("nope now").err(),
        Some("Unknown command: nope".to_string())
    );
    assert_eq!(
        manager.execute("cmd2").err(),
        Some("Command does not have a handler.".to_string())
    );
    assert_eq!(
        manager.execute("cmd1 'open").err(),
        Some("Failed to parse command".to_string())
    );
}

#[test]
fn execute_ignores_lines_without_words() {
    let manager = handled_commands();
    assert!(matches!(manager.execute(""), Ok(Dispatch::Idle)));
    assert!(matches!(manager.execute("  \t "), Ok(Dispatch::Idle)));
    assert!(matches!(manager.execute("# only a comment"), Ok(Dispatch::Idle)));
}

#[test]
fn completion_after_trailing_space_lists_all_children() {
    let manager = CommandManager {
        commands: sample_commands(),
    };
    assert_eq!(completed(&manager, "cmd1 ", 5), (5, words(&["sub1"])));
    let nested = handled_commands();
    assert_eq!(
        completed(&nested, "cmd3 outer zzz ", 15),
        (15, words(&["inner", "innermost"]))
    );
}

#[test]
fn completion_filters_children_by_prefix() {
    let manager = CommandManager {
        commands: sample_commands(),
    };
    assert_eq!(completed(&manager, "cmd1 s", 6), (5, words(&["sub1"])));
    assert_eq!(completed(&manager, "cmd1 x", 6), (5, words(&[])));
    let nested = handled_commands();
    assert_eq!(
        completed(&nested, "cmd3 outer inner", 16),
        (11, words(&[]))
    );
    assert_eq!(
        completed(&nested, "cmd3 outer in", 13),
        (11, words(&["inner", "innermost"]))
    );
    assert_eq!(
        completed(&nested, "cmd3 outer innerm", 17),
        (11, words(&["innermost"]))
    );
}

#[test]
fn completion_leaves_out_options_on_the_line() {
    let manager = CommandManager {
        commands: sample_commands(),
    };
    assert_eq!(
        completed(&manager, "cmd1 sub1 --opt1 --", 19),
        (17, words(&[]))
    );
    let more = handled_commands();
    assert_eq!(
        completed(&more, "cmd1 sub1 --opt1 --", 19),
        (17, words(&["--other"]))
    );
}

#[test]
fn completion_after_a_lone_dash_shows_all_options() {
    let manager = CommandManager {
        commands: sample_commands(),
    };
    assert_eq!(
        completed(&manager, "cmd1 sub1 -", 11),
        (10, words(&["--opt1"]))
    );
    let more = handled_commands();
    assert_eq!(
        completed(&more, "cmd1 sub1 -", 11),
        (10, words(&["--opt1", "--other"]))
    );
    assert_eq!(
        completed(&more, "cmd1 sub1 --ot", 14),
        (10, words(&["--other"]))
    );
    assert_eq!(completed(&more, "cmd1 sub1 -1", 12), (10, words(&[])));
}

#[test]
fn completion_of_the_first_word_lists_commands() {
    let manager = handled_commands();
    assert_eq!(
        completed(&manager, "cmd", 3),
        (0, words(&["cmd1", "cmd2", "cmd3"]))
    );
    assert_eq!(completed(&manager, "x", 1), (0, words(&[])));
    assert_eq!(completed(&manager, "", 0), (0, words(&[])));
}

#[test]
fn completion_stops_at_the_cursor() {
    let manager = handled_commands();
    assert_eq!(
        completed(&manager, "cmd1 sub1 --opt1", 6),
        (5, words(&["sub1"]))
    );
}

#[test]
fn completion_never_fails() {
    let manager = handled_commands();
    assert_eq!(completed(&manager, "cmd1 'su", 8), (5, words(&[])));
    assert_eq!(completed(&manager, "cmd1 s", 99), (0, words(&[])));
    assert_eq!(completed(&manager, "cmd1 \u{e9}", 6), (0, words(&[])));
}

#[test]
fn completion_counts_the_offset_in_bytes() {
    let manager = handled_commands();
    let line = "cmd1 \u{a0}";
    assert_eq!(completed(&manager, line, line.len()), (7, words(&["sub1"])));
    let line = "cmd1 \u{e9}\u{a0}s";
    assert_eq!(completed(&manager, line, line.len()), (9, words(&[])));
}

#[test]
fn completion_offset_can_always_be_spliced() {
    let manager = handled_commands();
    for line in ["", "cmd1 s", "cmd1 \u{a0}", "cmd1 \u{e9}\u{a0}s", "\u{1F600} x \u{20ac}", "  "] {
        for pos in 0..=line.len() + 1 {
            let (start, _) = manager.complete(line, pos);
            assert!(start <= pos);
            assert!(line.is_char_boundary(start));
        }
    }
}

#[test]
fn candidates_show_the_help_text() {
    let manager = handled_commands();
    let (_, candidates) = manager.complete("cmd1 s", 6);
    assert_eq!(candidates.len(), 1);
    assert_eq!(candidates[0].replacement(), "sub1");
    assert_eq!(candidates[0].display(), "the first sub-command");
    let (_, options) = manager.complete("cmd1 sub1 --op", 14);
    assert_eq!(options.len(), 1);
    assert_eq!(options[0].replacement(), "--opt1");
    assert_eq!(options[0].display(), "the first option");
}

fn candidate_words(candidates: Vec<SmartCandidate>) -> Vec<String> {
    candidates.into_iter().map(|c| c.word).collect()
}

#[test]
fn suggestions_follow_declaration_order() {
    let manager = handled_commands();
    let subs = &manager.commands[2].sub_commands[0].sub_commands;
    assert_eq!(
        candidate_words(suggest_subcommands(subs, None, "x")),
        words(&["inner", "innermost"])
    );
    assert_eq!(
        candidate_words(suggest_subcommands(subs, Some(&"innerm".to_string()), "innerm")),
        words(&["innermost"])
    );
    let options = &manager.commands[0].sub_commands[0].options;
    assert_eq!(
        candidate_words(suggest_options(options, &words(&["cmd1", "sub1", "--o"]), "cmd1 sub1 --o")),
        words(&["--opt1", "--other"])
    );
    assert_eq!(
        candidate_words(suggest_options(options, &words(&["--other", "x-"]), "--other x-")),
        words(&["--opt1"])
    );
}
