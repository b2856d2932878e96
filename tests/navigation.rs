use dir_browser::{
    command_of, find_par_dir, join_path, sort_entries, App, Command, DirEntry, DirList, DirRead, Key,
    PaneBody, Slot,
};

fn entry(name: &str, is_dir: bool) -> DirEntry {
    DirEntry { name: name.to_string(), is_dir }
}

/// A small directory tree, listed in an order that is not the listing order.
fn fake_fs(path: &str) -> DirRead {
    let path = path.replace("//", "/");
    match path.as_str() {
        "/" => DirRead::Entries(vec![entry("home", true)]),
        "/home" => DirRead::Entries(vec![entry("user", true)]),
        "/home/user" => DirRead::Entries(vec![
            entry("notes.txt", false),
            entry("project", true),
            entry("locked", true),
        ]),
        "/home/user/project" => {
            DirRead::Entries(vec![entry("README.md", false), entry("src", true)])
        }
        "/home/user/project/src" => {
            DirRead::Entries(vec![entry("main.rs", false), entry("lib.rs", false)])
        }
        "/home/user/locked" => DirRead::Failed("permission denied".to_string()),
        "/empty" => DirRead::Entries(vec![]),
        _ => DirRead::Failed("No such file or directory".to_string()),
    }
}

fn start(path: &str) -> App {
    let parent = find_par_dir(path).map(|p| fake_fs(&p));
    let pending = App::try_start(path.to_string(), fake_fs(path), parent).unwrap();
    let child = pending.child_read().map(|p| fake_fs(&p));
    pending.finish(child)
}

fn press(app: App, cmd: Command) -> App {
    let first = app.first_read(&cmd).map(|p| fake_fs(&p));
    let pending = app.navigate(cmd, first);
    let child = pending.child_read().map(|p| fake_fs(&p));
    pending.finish(child)
}

fn listing(slot: &Slot) -> &DirList {
    match slot {
        Slot::Dir(l) => l,
        _ => panic!("not a listing"),
    }
}

fn names(slot: &Slot) -> Vec<String> {
    listing(slot).entries.iter().map(|e| e.name.clone()).collect()
}

#[test]
fn listing_puts_directories_first_then_names_in_order() {
    let raw = vec![
        entry("b.txt", false),
        entry("zeta", true),
        entry("A.txt", false),
        entry("alpha", true),
        entry("Beta", true),
        entry("a.txt", false),
    ];
    let sorted = sort_entries(raw);
    let got: Vec<(String, bool)> = sorted.iter().map(|e| (e.name.clone(), e.is_dir)).collect();
    let want = vec![
        ("Beta".to_string(), true),
        ("alpha".to_string(), true),
        ("zeta".to_string(), true),
        ("A.txt".to_string(), false),
        ("a.txt".to_string(), false),
        ("b.txt".to_string(), false),
    ];
    assert_eq!(got, want);
}

#[test]
fn listing_orders_prefix_before_longer_name() {
    let sorted = sort_entries(vec![entry("ab", false), entry("a", false), entry("", false)]);
    let got: Vec<String> = sorted.iter().map(|e| e.name.clone()).collect();
    assert_eq!(got, vec!["".to_string(), "a".to_string(), "ab".to_string()]);
}

#[test]
fn start_in_project_selects_src_and_lists_it() {
    let app = start("/home/user/project");
    assert_eq!(names(&app.current), vec!["src".to_string(), "README.md".to_string()]);
    assert_eq!(listing(&app.current).selected, Some(0));
    let child = listing(&app.child);
    assert_eq!(child.path, "/home/user/project/src");
    assert_eq!(names(&app.child), vec!["lib.rs".to_string(), "main.rs".to_string()]);
    assert_eq!(listing(&app.parent).path, "/home/user");
    assert!(!app.exit);
}

#[test]
fn down_from_project_selects_readme_file() {
    let app = press(start("/home/user/project"), Command::MoveSelectionDown);
    assert_eq!(listing(&app.current).selected, Some(1));
    match &app.child {
        Slot::File(f) => assert_eq!(f.path, "/home/user/project/README.md"),
        _ => panic!("child is not a file"),
    }
}

#[test]
fn down_stops_at_last_entry_and_up_at_first() {
    let mut app = start("/home/user/project");
    for _ in 0..5 {
        app = press(app, Command::MoveSelectionDown);
        assert_eq!(listing(&app.current).selected, Some(1));
    }
    for _ in 0..5 {
        app = press(app, Command::MoveSelectionUp);
        assert_eq!(listing(&app.current).selected, Some(0));
    }
    assert_eq!(listing(&app.child).path, "/home/user/project/src");
}

#[test]
fn moves_on_empty_listing_keep_no_selection() {
    let mut app = start("/empty");
    assert_eq!(listing(&app.current).selected, None);
    for cmd in [Command::MoveSelectionDown, Command::MoveSelectionUp, Command::MoveSelectionDown] {
        app = press(app, cmd);
        assert_eq!(listing(&app.current).selected, None);
        assert!(matches!(app.child, Slot::Empty));
    }
}

#[test]
fn left_from_project_moves_to_user_and_reads_home() {
    let app = press(start("/home/user/project"), Command::Ascend);
    assert_eq!(listing(&app.current).path, "/home/user");
    assert_eq!(listing(&app.current).selected, Some(0));
    assert_eq!(listing(&app.parent).path, "/home");
    assert_eq!(names(&app.parent), vec!["user".to_string()]);
    assert!(matches!(app.child, Slot::ReadError(_)));
}

#[test]
fn ascend_then_descend_gives_back_the_listing() {
    let before = start("/home/user/project");
    let before_names = names(&before.current);
    let up = press(before, Command::Ascend);
    assert_eq!(names(&up.current), vec![
        "locked".to_string(),
        "project".to_string(),
        "notes.txt".to_string(),
    ]);
    let on_project = press(up, Command::MoveSelectionDown);
    let down = press(on_project, Command::Descend);
    assert_eq!(listing(&down.current).path, "/home/user/project");
    assert_eq!(names(&down.current), before_names);
    assert_eq!(listing(&down.current).selected, Some(0));
    assert_eq!(listing(&down.parent).path, "/home/user");
    assert_eq!(listing(&down.parent).selected, Some(1));
}

#[test]
fn ascend_at_root_changes_nothing() {
    let mut app = start("/");
    assert!(matches!(app.parent, Slot::Empty));
    for _ in 0..3 {
        app = press(app, Command::Ascend);
        assert!(matches!(app.parent, Slot::Empty));
        assert_eq!(listing(&app.current).path, "/");
        assert_eq!(names(&app.current), vec!["home".to_string()]);
    }
}

#[test]
fn ascend_to_root_empties_parent() {
    let app = press(start("/home"), Command::Ascend);
    assert_eq!(listing(&app.current).path, "/");
    assert!(matches!(app.parent, Slot::Empty));
}

#[test]
fn child_is_the_same_for_the_same_selection() {
    let a = press(press(start("/home/user/project"), Command::MoveSelectionDown), Command::MoveSelectionUp);
    let b = start("/home/user/project");
    assert_eq!(listing(&a.child).path, listing(&b.child).path);
    assert_eq!(names(&a.child), names(&b.child));
}

#[test]
fn unreadable_directory_fills_only_its_pane() {
    let app = start("/home/user");
    assert_eq!(listing(&app.current).selected, Some(0));
    match &app.child {
        Slot::ReadError(m) => assert_eq!(m, "permission denied"),
        _ => panic!("child is not a read error"),
    }
    let down = press(app, Command::Descend);
    match &down.current {
        Slot::ReadError(m) => assert_eq!(m, "permission denied"),
        _ => panic!("current is not a read error"),
    }
    assert_eq!(listing(&down.parent).path, "/home/user");
    assert!(matches!(down.child, Slot::Empty));
    let again = press(down, Command::MoveSelectionDown);
    assert!(matches!(again.current, Slot::ReadError(_)));
}

#[test]
fn descend_on_file_keeps_the_panes() {
    let app = press(start("/home/user/project"), Command::MoveSelectionDown);
    let app = press(app, Command::Descend);
    assert_eq!(listing(&app.current).path, "/home/user/project");
    assert_eq!(listing(&app.current).selected, Some(1));
    match &app.child {
        Slot::File(f) => assert_eq!(f.path, "/home/user/project/README.md"),
        _ => panic!("child is not a file"),
    }
}

#[test]
fn quit_sets_exit_and_keeps_the_panes() {
    let app = press(start("/home/user/project"), Command::Quit);
    assert!(app.exit);
    assert_eq!(listing(&app.current).path, "/home/user/project");
}

#[test]
fn parent_path_of_nested_and_root() {
    assert_eq!(find_par_dir("/home/user/project"), Some("/home/user".to_string()));
    assert_eq!(find_par_dir("/home"), Some("/".to_string()));
    assert_eq!(find_par_dir("/"), None);
}

#[test]
fn join_puts_a_slash_between() {
    assert_eq!(join_path(&"/home".to_string(), &"user".to_string()), "/home/user");
}

#[test]
fn keys_map_to_commands_on_press_only() {
    assert!(matches!(command_of(Key::Char('q'), true), Some(Command::Quit)));
    assert!(matches!(command_of(Key::Down, true), Some(Command::MoveSelectionDown)));
    assert!(matches!(command_of(Key::Up, true), Some(Command::MoveSelectionUp)));
    assert!(matches!(command_of(Key::Left, true), Some(Command::Ascend)));
    assert!(matches!(command_of(Key::Right, true), Some(Command::Descend)));
    assert!(command_of(Key::Down, false).is_none());
    assert!(command_of(Key::Char('q'), false).is_none());
    assert!(command_of(Key::Char('x'), true).is_none());
    assert!(command_of(Key::Other, true).is_none());
}

#[test]
fn try_navigate_refuses_a_read_that_does_not_match() {
    let app = start("/home/user/project");
    let back = match app.try_navigate(Command::Descend, None) {
        Err(app) => app,
        Ok(_) => panic!("a descend into a directory needs its read"),
    };
    assert_eq!(listing(&back.current).path, "/home/user/project");
    let back = match back.try_navigate(Command::MoveSelectionDown, Some(fake_fs("/"))) {
        Err(app) => app,
        Ok(_) => panic!("a move needs no read"),
    };
    let first = back.first_read(&Command::Descend).map(|p| fake_fs(&p));
    let pending = match back.try_navigate(Command::Descend, first) {
        Ok(pending) => pending,
        Err(_) => panic!("the read matches"),
    };
    let child = pending.child_read().map(|p| fake_fs(&p));
    let down = pending.finish(child);
    assert_eq!(listing(&down.current).path, "/home/user/project/src");
}

#[test]
fn parent_pane_emphasizes_the_directory_left() {
    let up = press(start("/home/user/project"), Command::Ascend);
    let on_project = press(up, Command::MoveSelectionDown);
    let down = press(on_project, Command::Descend);
    let (parent, _, _) = down.panes();
    match parent.body {
        PaneBody::Rows { labels, highlighted } => {
            assert_eq!(highlighted, Some(1));
            assert_eq!(labels[1], "project/");
        }
        PaneBody::Text(_) => panic!("parent pane is not a list"),
    }
}

#[test]
fn listing_of_distinct_names_is_strictly_ordered() {
    let sorted = sort_entries(vec![
        entry("b", true),
        entry("a", false),
        entry("B", true),
        entry("A", false),
    ]);
    let got: Vec<String> = sorted.iter().map(|e| e.name.clone()).collect();
    assert_eq!(got, vec!["B".to_string(), "b".to_string(), "A".to_string(), "a".to_string()]);
}
