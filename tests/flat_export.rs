use linutil_desktop::{
    decimal, entry_command, entry_preview, entry_script_path, resolve_entry_command, resolve_entry_preview,
    split_text, Catalog, CatalogNode, Category, CommandSpec, EntryCommand, EntryError, EntryInfo,
    Session, TabInfo,
};

fn flat_node(name: &str, children: Vec<usize>, command: CommandSpec) -> CatalogNode {
    CatalogNode {
        name: name.to_string(),
        description: format!("{} help", name),
        task_list: "D".to_string(),
        multi_select: false,
        children,
        command,
    }
}

fn flat_catalog() -> Catalog {
    Catalog::new(vec![Category {
        name: "System".to_string(),
        nodes: vec![
            flat_node("root", vec![1, 2, 3], CommandSpec::Directory),
            flat_node("Group", vec![], CommandSpec::Directory),
            flat_node("Hello", vec![], CommandSpec::Raw("echo hello".to_string())),
            flat_node(
                "Setup",
                vec![],
                CommandSpec::LocalFile {
                    executable: "/bin/bash".to_string(),
                    args: vec!["-e".to_string(), "/opt/t/setup.sh".to_string()],
                    source_path: "/opt/t/setup.sh".to_string(),
                },
            ),
        ],
    }])
    .unwrap()
}

fn flat_entry(command_type: &str, content: &str) -> EntryInfo {
    EntryInfo {
        name: "E".to_string(),
        description: "desc".to_string(),
        command_type: command_type.to_string(),
        command_content: content.to_string(),
        task_list: String::new(),
        multi_select: false,
        has_children: false,
        id: "1".to_string(),
    }
}

#[test]
fn decimal_ids() {
    assert_eq!(decimal(0), "0");
    assert_eq!(decimal(7), "7");
    assert_eq!(decimal(10), "10");
    assert_eq!(decimal(4096), "4096");
    assert_eq!(decimal(usize::MAX), usize::MAX.to_string());
}

#[test]
fn split_on_bars() {
    assert_eq!(split_text("a|b c|d", '|'), vec!["a", "b c", "d"]);
    assert_eq!(split_text("", '|'), vec![""]);
    assert_eq!(split_text("x|", '|'), vec!["x", ""]);
    assert_eq!(split_text("plain", '|'), vec!["plain"]);
}

#[test]
fn tabs_flatten_without_root() {
    let tabs = flat_catalog().tab_infos();
    assert_eq!(tabs.len(), 1);
    let t = &tabs[0];
    assert_eq!(t.name, "System");
    assert_eq!(t.entries.len(), 3);
    assert_eq!(t.entries[0].command_type, "directory");
    assert_eq!(t.entries[0].command_content, "");
    assert_eq!(t.entries[0].id, "1");
    assert_eq!(t.entries[1].command_type, "raw");
    assert_eq!(t.entries[1].command_content, "echo hello");
    assert_eq!(t.entries[2].command_type, "script");
    assert_eq!(t.entries[2].command_content, "/bin/bash|-e /opt/t/setup.sh|/opt/t/setup.sh");
    assert_eq!(t.entries[2].task_list, "D");
    assert_eq!(t.entries[2].id, "3");
}

#[test]
fn decode_raw_and_script_entries() {
    match entry_command(&flat_entry("raw", "ls -la")) {
        Ok(EntryCommand::Raw(c)) => assert_eq!(c, "ls -la"),
        _ => panic!("raw entry"),
    }
    match entry_command(&flat_entry("script", "/bin/sh|-e  run.sh|/x/run.sh")) {
        Ok(EntryCommand::Script { executable, args }) => {
            assert_eq!(executable, "/bin/sh");
            assert_eq!(args, vec!["-e", "run.sh"]);
        }
        _ => panic!("script entry"),
    }
    match entry_command(&flat_entry("script", "/bin/sh||/x/run.sh")) {
        Ok(EntryCommand::Script { args, .. }) => assert!(args.is_empty()),
        _ => panic!("script entry without args"),
    }
}

#[test]
fn decode_errors() {
    assert!(matches!(entry_command(&flat_entry("script", "/bin/sh")), Err(EntryError::InvalidScriptFormat)));
    assert!(matches!(entry_command(&flat_entry("directory", "")), Err(EntryError::NotExecutable)));
    assert!(matches!(entry_command(&flat_entry("weird", "")), Err(EntryError::UnknownCommandType)));
    assert_eq!(EntryError::NotFound.message(), "Command not found");
    assert_eq!(EntryError::NotExecutable.message(), "Cannot execute directory");
    assert_eq!(EntryError::InvalidScriptFormat.message(), "Invalid script command format");
    assert_eq!(EntryError::UnknownCommandType.message(), "Unknown command type");
}

#[test]
fn entry_previews() {
    assert_eq!(entry_preview(&flat_entry("raw", "ls"), None), Ok("Raw Command:\nls\n\nDescription:\ndesc".to_string()));
    assert_eq!(entry_preview(&flat_entry("script", "a|b|body"), None), Ok("Script Preview:\nCould not read script file: body\n\nDescription:\ndesc".to_string()));
    assert_eq!(entry_preview(&flat_entry("script", "a|b"), None), Ok("Script Command: a b\n\nDescription:\ndesc".to_string()));
    assert_eq!(entry_preview(&flat_entry("script", "a"), None), Ok("Script Command: a \n\nDescription:\ndesc".to_string()));
    assert_eq!(entry_preview(&flat_entry("directory", ""), None), Ok("Directory: E\n\nDescription:\ndesc".to_string()));
    assert_eq!(entry_preview(&flat_entry("other", ""), None), Err(EntryError::UnknownCommandType));
}

#[test]
fn script_entry_preview_shows_source() {
    let e = flat_entry("script", "/bin/sh|-e x.sh|/t/x.sh");
    assert_eq!(entry_script_path(&e), Some("/t/x.sh".to_string()));
    assert_eq!(entry_script_path(&flat_entry("script", "a|b")), None);
    assert_eq!(entry_script_path(&flat_entry("raw", "a|b|c")), None);
    assert_eq!(
        entry_preview(&e, Some("#!/bin/sh\necho x")),
        Ok("Script Preview:\n#!/bin/sh\necho x\n\nDescription:\ndesc".to_string())
    );
}

#[test]
fn resolve_by_tab_and_entry_name() {
    let tabs: Vec<TabInfo> = flat_catalog().tab_infos();
    match resolve_entry_command(&tabs, "System", "Hello") {
        Ok(EntryCommand::Raw(c)) => assert_eq!(c, "echo hello"),
        _ => panic!("found raw command"),
    }
    match resolve_entry_command(&tabs, "System", "Setup") {
        Ok(EntryCommand::Script { executable, args }) => {
            assert_eq!(executable, "/bin/bash");
            assert_eq!(args, vec!["-e", "/opt/t/setup.sh"]);
        }
        _ => panic!("found script"),
    }
    assert!(matches!(resolve_entry_command(&tabs, "System", "Group"), Err(EntryError::NotExecutable)));
    assert!(matches!(resolve_entry_command(&tabs, "Other", "Hello"), Err(EntryError::NotFound)));
    assert!(matches!(resolve_entry_command(&tabs, "System", "Nope"), Err(EntryError::NotFound)));
    assert_eq!(
        resolve_entry_preview(&tabs, "System", "Setup", Some("echo setup")),
        Ok("Script Preview:\necho setup\n\nDescription:\nSetup help".to_string())
    );
    assert_eq!(resolve_entry_preview(&tabs, "X", "Setup", None), Err(EntryError::NotFound));
}

#[test]
fn breadcrumb_text_joins_path() {
    let mut s = Session::new(false, |_v: bool| {
        Catalog::new(vec![Category {
            name: "Tab".to_string(),
            nodes: vec![
                flat_node("root", vec![1], CommandSpec::Directory),
                flat_node("Dir", vec![2], CommandSpec::Directory),
                flat_node("Leaf", vec![], CommandSpec::Raw("true".to_string())),
            ],
        }])
        .unwrap()
    });
    assert_eq!(s.breadcrumb_text(), "Tab");
    s.enter(1).unwrap();
    assert_eq!(s.breadcrumb_text(), "Tab › Dir");
}

#[test]
fn script_args_split_at_unicode_white_space() {
    match entry_command(&flat_entry("script", "/bin/sh|a\u{00A0}b\u{3000}c\td|/x")) {
        Ok(EntryCommand::Script { args, .. }) => assert_eq!(args, vec!["a", "b", "c", "d"]),
        _ => panic!("script entry"),
    }
}
