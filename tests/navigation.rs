use linutil_desktop::{Catalog, CatalogNode, Category, CommandSpec, CoreError, ListEntry, Session};
use std::cell::Cell;

fn nav_node(name: &str, description: &str, multi: bool, children: Vec<usize>, command: CommandSpec) -> CatalogNode {
    CatalogNode {
        name: name.to_string(),
        description: description.to_string(),
        task_list: String::new(),
        multi_select: multi,
        children,
        command,
    }
}

fn nav_catalog() -> Catalog {
    let utilities = Category {
        name: "Utilities".to_string(),
        nodes: vec![
            nav_node("root", "", false, vec![1, 3], CommandSpec::Directory),
            nav_node("System", "System maintenance", false, vec![2], CommandSpec::Directory),
            nav_node("Cleanup", "Remove caches", true, vec![], CommandSpec::Raw("echo clean".to_string())),
            nav_node("Update", "Refresh packages", true, vec![], CommandSpec::Raw("echo ok".to_string())),
        ],
    };
    let gaming = Category {
        name: "Gaming".to_string(),
        nodes: vec![
            nav_node("root", "", false, vec![1], CommandSpec::Directory),
            nav_node("Steam", "Install Steam", false, vec![], CommandSpec::Raw("echo steam".to_string())),
        ],
    };
    Catalog::new(vec![utilities, gaming]).unwrap()
}

fn nav_session() -> Session {
    Session::new(false, |_validate: bool| nav_catalog())
}

fn names(items: &[ListEntry]) -> Vec<String> {
    items.iter().map(|e| e.name.clone()).collect()
}

#[test]
fn enter_and_go_back_scenario() {
    let mut s = nav_session();
    s.set_selected_index(0);
    assert_eq!(names(&s.current_items()), vec!["System", "Update"]);
    assert_eq!(s.enter(1), Ok(()));
    assert!(!s.at_root());
    assert_eq!(s.breadcrumb().len(), 2);
    assert_eq!(names(&s.current_items()), vec!["Cleanup"]);
    s.go_back();
    assert!(s.at_root());
    assert_eq!(s.breadcrumb().len(), 1);
    assert_eq!(names(&s.current_items()), vec!["System", "Update"]);
    assert_eq!(s.selected_index(), 0);
}

#[test]
fn go_back_restores_cursor_after_search() {
    let mut s = nav_session();
    s.set_search("sys");
    assert_eq!(names(&s.current_items()), vec!["System"]);
    s.set_selected_index(0);
    assert_eq!(s.enter(1), Ok(()));
    s.go_back();
    assert_eq!(s.selected_index(), 0);
    assert_eq!(names(&s.current_items()), vec!["System", "Update"]);
}

#[test]
fn cursor_comes_back_to_second_entry() {
    let mut s = nav_session();
    s.set_selected_index(1);
    assert_eq!(s.selected_index(), 1);
    assert_eq!(s.enter(1), Ok(()));
    assert_eq!(s.selected_index(), 0);
    s.go_back();
    assert_eq!(s.selected_index(), 1);
}

#[test]
fn go_back_at_root_changes_nothing() {
    let mut s = nav_session();
    s.set_selected_index(1);
    s.go_back();
    s.go_back();
    assert!(s.at_root());
    assert_eq!(s.selected_index(), 1);
    assert_eq!(names(&s.current_items()), vec!["System", "Update"]);
}

#[test]
fn stack_never_empties_over_mixed_moves() {
    let mut s = nav_session();
    for _ in 0..3 {
        let _ = s.enter(1);
        s.go_back();
        s.go_back();
        assert!(s.breadcrumb().len() >= 1);
    }
    assert!(s.at_root());
}

#[test]
fn entering_a_leaf_is_a_no_op() {
    let mut s = nav_session();
    assert_eq!(s.enter(3), Ok(()));
    assert!(s.at_root());
    assert_eq!(names(&s.current_items()), vec!["System", "Update"]);
}

#[test]
fn entering_a_hidden_node_is_not_found() {
    let mut s = nav_session();
    assert_eq!(s.enter(2), Err(CoreError::NotFound));
    assert_eq!(s.enter(99), Err(CoreError::NotFound));
    assert!(s.at_root());
}

#[test]
fn breadcrumb_names_the_path() {
    let mut s = nav_session();
    assert_eq!(s.breadcrumb(), vec!["Utilities".to_string()]);
    s.enter(1).unwrap();
    assert_eq!(s.breadcrumb(), vec!["Utilities".to_string(), "System".to_string()]);
}

#[test]
fn search_upd_yields_update_only() {
    let mut s = nav_session();
    s.set_search("upd");
    assert_eq!(names(&s.current_items()), vec!["Update"]);
}

#[test]
fn search_ignores_case_and_reads_descriptions() {
    let mut s = nav_session();
    s.set_search("MAINTEN");
    assert_eq!(names(&s.current_items()), vec!["System"]);
    s.set_search("PACKAGES");
    assert_eq!(names(&s.current_items()), vec!["Update"]);
}

#[test]
fn search_results_are_among_children_and_match() {
    let mut s = nav_session();
    let all: Vec<usize> = s.current_items().iter().map(|e| e.id).collect();
    for q in ["s", "e", "x", "UP", ""] {
        s.set_search(q);
        for item in s.current_items() {
            assert!(all.contains(&item.id));
            let q = q.to_lowercase();
            assert!(item.name.to_lowercase().contains(&q) || item.description.to_lowercase().contains(&q));
        }
    }
}

#[test]
fn empty_search_keeps_children_in_order() {
    let mut s = nav_session();
    s.set_search("zzz");
    assert!(s.current_items().is_empty());
    s.set_search("");
    assert_eq!(names(&s.current_items()), vec!["System", "Update"]);
}

#[test]
fn search_clamps_cursor_past_the_end() {
    let mut s = nav_session();
    s.set_selected_index(1);
    s.set_search("upd");
    assert_eq!(s.selected_index(), 0);
}

#[test]
fn entering_clears_the_search() {
    let mut s = nav_session();
    s.set_search("sys");
    s.enter(1).unwrap();
    assert_eq!(names(&s.current_items()), vec!["Cleanup"]);
}

#[test]
fn switch_category_resets_to_root() {
    let mut s = nav_session();
    s.enter(1).unwrap();
    s.toggle_selection(2).unwrap();
    assert_eq!(s.switch_category("Gaming"), Ok(()));
    assert!(s.at_root());
    assert_eq!(names(&s.current_items()), vec!["Steam"]);
    assert_eq!(s.breadcrumb(), vec!["Gaming".to_string()]);
    assert!(s.current_items().iter().all(|e| !e.is_multi_selected));
    assert_eq!(s.execute_selected(), Ok(0));
}

#[test]
fn switch_to_unknown_category_is_not_found() {
    let mut s = nav_session();
    s.enter(1).unwrap();
    assert_eq!(s.switch_category("Nope"), Err(CoreError::NotFound));
    assert!(!s.at_root());
}

#[test]
fn list_categories_in_order() {
    let s = nav_session();
    assert_eq!(s.list_categories(), vec!["Utilities".to_string(), "Gaming".to_string()]);
}

#[test]
fn current_items_describe_nodes() {
    let s = nav_session();
    let items = s.current_items();
    assert_eq!(items[0].id, 1);
    assert!(items[0].has_children);
    assert!(!items[0].multi_select);
    assert_eq!(items[1].id, 3);
    assert!(!items[1].has_children);
    assert!(items[1].multi_select);
    assert_eq!(items[1].description, "Refresh packages");
}

#[test]
fn refresh_calls_provider_once_each_time() {
    let calls = Cell::new(0u32);
    let mut s = Session::new(true, |_v: bool| {
        calls.set(calls.get() + 1);
        nav_catalog()
    });
    assert_eq!(calls.get(), 1);
    for _ in 0..5 {
        let _ = s.list_categories();
    }
    assert_eq!(calls.get(), 1);
    s.refresh_catalog(|_v: bool| {
        calls.set(calls.get() + 1);
        nav_catalog()
    });
    assert_eq!(calls.get(), 2);
    let _ = s.list_categories();
    s.refresh_catalog(|_v: bool| {
        calls.set(calls.get() + 1);
        nav_catalog()
    });
    assert_eq!(calls.get(), 3);
}

#[test]
fn provider_receives_validate_flag() {
    let seen = Cell::new(None);
    let mut s = Session::new(true, |v: bool| {
        seen.set(Some(v));
        nav_catalog()
    });
    assert_eq!(seen.get(), Some(true));
    seen.set(None);
    s.refresh_catalog(|v: bool| {
        seen.set(Some(v));
        nav_catalog()
    });
    assert_eq!(seen.get(), Some(true));
}

#[test]
fn refresh_keeps_category_and_resets_navigation() {
    let mut s = nav_session();
    s.switch_category("Gaming").unwrap();
    s.refresh_catalog(|_v: bool| nav_catalog());
    assert_eq!(s.breadcrumb(), vec!["Gaming".to_string()]);
}
