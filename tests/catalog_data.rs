use linutil_desktop::{
    clear_tabs_cache, contains_ignoring_case, join_strings, preview_text, AppConfig, Args,
    Catalog, CatalogCache, CatalogNode, Category, CommandSpec, CoreError, LookupError, Session,
    Theme,
};

fn data_node(name: &str, children: Vec<usize>, command: CommandSpec) -> CatalogNode {
    CatalogNode {
        name: name.to_string(),
        description: "Does things".to_string(),
        task_list: "I".to_string(),
        multi_select: true,
        children,
        command,
    }
}

fn data_category(name: &str) -> Category {
    Category {
        name: name.to_string(),
        nodes: vec![
            data_node("root", vec![1, 2], CommandSpec::Directory),
            data_node("Tools", vec![3], CommandSpec::Directory),
            data_node("Hello", vec![], CommandSpec::Raw("echo hi".to_string())),
            data_node("Hello", vec![], CommandSpec::Raw("echo nested".to_string())),
        ],
    }
}

#[test]
fn catalog_rejects_malformed_trees() {
    assert!(Catalog::new(vec![]).is_none());
    let empty = Category { name: "E".to_string(), nodes: vec![] };
    assert!(Catalog::new(vec![empty]).is_none());
    let backwards = Category {
        name: "B".to_string(),
        nodes: vec![data_node("root", vec![1], CommandSpec::Directory), data_node("x", vec![0], CommandSpec::Directory)],
    };
    assert!(Catalog::new(vec![backwards]).is_none());
    let out_of_range = Category { name: "O".to_string(), nodes: vec![data_node("root", vec![5], CommandSpec::Directory)] };
    assert!(Catalog::new(vec![out_of_range]).is_none());
    assert!(Catalog::new(vec![data_category("A")]).is_some());
}

#[test]
fn find_command_by_names() {
    let c = Catalog::new(vec![data_category("A"), data_category("B")]).unwrap();
    assert_eq!(c.find_command("B", "Hello"), Ok((1, 2)));
    assert_eq!(c.find_command("C", "Hello"), Err(CoreError::NotFound));
    assert_eq!(c.find_command("A", "Tools"), Err(CoreError::NotFound));
    assert_eq!(c.find_command("A", "Missing"), Err(CoreError::NotFound));
    assert_eq!(c.find_category("B"), Some(1));
    assert_eq!(c.category_names(), vec!["A".to_string(), "B".to_string()]);
}

#[test]
fn lookup_by_names_tells_which_part_failed() {
    let c = Catalog::new(vec![data_category("A"), data_category("B")]).unwrap();
    assert_eq!(c.locate_command("B", "Hello"), Ok((1, 2)));
    assert_eq!(c.locate_command("C", "Hello"), Err(LookupError::CategoryNotFound));
    assert_eq!(c.locate_command("A", "Tools"), Err(LookupError::CommandNotFound));
    assert_eq!(LookupError::CategoryNotFound.message(), "Tab not found");
    assert_eq!(LookupError::CommandNotFound.message(), "Command not found");
    assert_eq!(
        c.preview_command("A", "Hello", None),
        Ok("Raw Command:\necho hi\n\nDescription:\nDoes things".to_string())
    );
    assert_eq!(c.preview_command("Z", "Hello", None), Err(LookupError::CategoryNotFound));
    assert_eq!(c.preview_command("A", "Nope", None), Err(LookupError::CommandNotFound));
}

#[test]
fn preview_of_raw_command() {
    let n = data_node("Hello", vec![], CommandSpec::Raw("echo hi".to_string()));
    assert_eq!(preview_text(&n, None), "Raw Command:\necho hi\n\nDescription:\nDoes things");
}

#[test]
fn preview_of_directory() {
    let n = data_node("Tools", vec![3], CommandSpec::Directory);
    assert_eq!(preview_text(&n, None), "Directory: Tools\n\nDescription:\nDoes things");
}

#[test]
fn preview_of_script_with_and_without_source() {
    let n = data_node(
        "Setup",
        vec![],
        CommandSpec::LocalFile {
            executable: "/bin/sh".to_string(),
            args: vec!["-e".to_string(), "/tmp/s/setup.sh".to_string()],
            source_path: "/tmp/s/setup.sh".to_string(),
        },
    );
    assert_eq!(
        preview_text(&n, Some("echo setup")),
        "Script Preview:\necho setup\n\nExecution Info:\nExecutable: /bin/sh\nArguments: -e /tmp/s/setup.sh\nScript File: /tmp/s/setup.sh\n\nDescription:\nDoes things"
    );
    assert_eq!(
        preview_text(&n, None),
        "Script Preview:\nCould not read script file: /tmp/s/setup.sh\n\nExecution Info:\nExecutable: /bin/sh\nArguments: -e /tmp/s/setup.sh\nScript File: /tmp/s/setup.sh\n\nDescription:\nDoes things"
    );
}

#[test]
fn session_preview_checks_the_node() {
    let s = Session::new(false, |_v: bool| Catalog::new(vec![data_category("A")]).unwrap());
    assert_eq!(s.preview(2, None), Ok("Raw Command:\necho hi\n\nDescription:\nDoes things".to_string()));
    assert_eq!(s.preview(9, None), Err(CoreError::NotFound));
}

#[test]
fn join_with_separator() {
    let parts = vec!["a".to_string(), "bc".to_string(), "d".to_string()];
    assert_eq!(join_strings(&parts, " "), "a bc d");
    assert_eq!(join_strings(&vec![], " "), "");
    assert_eq!(join_strings(&vec!["x".to_string()], ", "), "x");
}

#[test]
fn case_insensitive_containment() {
    assert!(contains_ignoring_case("Update", "UPD"));
    assert!(contains_ignoring_case("System Update", "m u"));
    assert!(!contains_ignoring_case("Update", "date!"));
    assert!(contains_ignoring_case("", ""));
    assert!(!contains_ignoring_case("", "a"));
}

#[test]
fn cache_loads_once_until_invalidated() {
    let mut cache = CatalogCache::new();
    assert!(cache.get().is_none());
    let mut calls = 0;
    cache.load(false, |_v: bool| {
        calls += 1;
        Catalog::new(vec![data_category("A")]).unwrap()
    });
    cache.load(false, |_v: bool| {
        calls += 1;
        Catalog::new(vec![data_category("B")]).unwrap()
    });
    assert_eq!(calls, 1);
    assert_eq!(cache.get().unwrap().category_names(), vec!["A".to_string()]);
    clear_tabs_cache(&mut cache);
    assert!(cache.get().is_none());
    cache.load(false, |_v: bool| {
        calls += 1;
        Catalog::new(vec![data_category("B")]).unwrap()
    });
    assert_eq!(calls, 2);
    assert_eq!(cache.get().unwrap().category_names(), vec!["B".to_string()]);
}

#[test]
fn theme_icons_and_cycling() {
    let mut t = Theme::default();
    assert_eq!(t, Theme::Default);
    assert_eq!(t.dir_icon(), "📁");
    assert_eq!(t.cmd_icon(), "⚡");
    assert_eq!(t.tab_icon(), "📋");
    assert_eq!(t.multi_select_icon(), "✓");
    t.next();
    assert_eq!(t, Theme::Compatible);
    assert_eq!(t.dir_icon(), "[DIR]");
    assert_eq!(t.cmd_icon(), "[CMD]");
    assert_eq!(t.tab_icon(), ">> ");
    assert_eq!(t.multi_select_icon(), "*");
    t.prev();
    assert_eq!(t, Theme::Default);
    t.prev();
    assert_eq!(t, Theme::Compatible);
}

#[test]
fn config_defaults_and_conversion() {
    let a = Args::default();
    assert_eq!(a.config, None);
    assert!(!a.skip_confirmation && a.override_validation && a.size_bypass && a.mouse && a.bypass_root);
    let c = AppConfig::default();
    assert!(!c.validates_catalog());
    let from = AppConfig::from(Args { config: None, skip_confirmation: true, override_validation: false, size_bypass: false, mouse: false, bypass_root: false });
    assert!(from.skip_confirmation);
    assert!(from.validates_catalog());
    assert!(!from.mouse);
}
