use lazyarchbuild::{
    last_position, next_position, FetchError, pst_menu_items_of, previous_position, App, DisplayMode, Key,
    Mark, PkgInfo, PkgInfoTable, PopUpMenu,
};

fn record(name: &str, assignee: Option<&str>, marks: &[&str]) -> PkgInfo {
    let mut r = PkgInfo::new(name.to_string());
    r.assignee = assignee.map(|a| a.to_string());
    r.marks = marks
        .iter()
        .map(|m| Mark { name: m.to_string(), by: "x".to_string(), comment: String::new() })
        .collect();
    r
}

#[test]
fn cursor_positions() {
    assert_eq!(next_position(None, 3), Some(0));
    assert_eq!(next_position(Some(1), 3), Some(2));
    assert_eq!(next_position(Some(2), 3), Some(0));
    assert_eq!(next_position(Some(0), 0), Some(0));
    assert_eq!(previous_position(None, 3), Some(0));
    assert_eq!(previous_position(Some(0), 3), Some(2));
    assert_eq!(previous_position(Some(2), 3), Some(1));
    assert_eq!(previous_position(Some(0), 0), Some(0));
    assert_eq!(last_position(3), Some(2));
    assert_eq!(last_position(0), Some(0));
}

#[test]
fn table_moves_and_wraps() {
    let mut t = PkgInfoTable::new();
    t.data = vec![record("a", Some("x"), &[]), record("b", Some("y"), &[])];
    assert_eq!(t.title(), "Arch Linux RISC-V Packages Status");
    t.next();
    assert_eq!(t.cursor, Some(0));
    t.next();
    assert_eq!(t.cursor, Some(1));
    t.next();
    assert_eq!(t.cursor, Some(0));
    t.previous();
    assert_eq!(t.cursor, Some(1));
    t.beginning();
    assert_eq!(t.cursor, Some(0));
    t.end();
    assert_eq!(t.cursor, Some(1));
}

#[test]
fn menu_moves_and_wraps() {
    let mut m = PopUpMenu::from(&["one", "two", "three"]);
    assert_eq!(m.items, vec!["one".to_string(), "two".to_string(), "three".to_string()]);
    assert_eq!(m.state, None);
    m.previous();
    assert_eq!(m.state, Some(0));
    m.previous();
    assert_eq!(m.state, Some(2));
    m.next();
    assert_eq!(m.state, Some(0));
}

#[test]
fn menu_entries_follow_the_record() {
    assert_eq!(
        pst_menu_items_of(&record("a", None, &["failing"])),
        vec!["Assign", "Check Marks", "View package details", "View package build log"]
    );
    assert_eq!(
        pst_menu_items_of(&record("a", Some("x"), &[])),
        vec!["View package details", "View package build log"]
    );
}

#[test]
fn keys_drive_the_screen() {
    let mut app = App::new();
    assert!(app.update(Ok(vec![record("a", None, &[]), record("b", Some("x"), &["m"]), record("c", Some("y"), &[])])).is_ok());
    app.handle_input(Key::Char('G'));
    assert_eq!(app.pkg_info_table.cursor, Some(2));
    app.handle_input(Key::Char('g'));
    app.handle_input(Key::Char('g'));
    assert_eq!(app.pkg_info_table.cursor, Some(0));
    app.handle_input(Key::Char('g'));
    app.handle_input(Key::Char('x'));
    assert_eq!(app.pkg_info_table.cursor, Some(0));
    app.handle_input(Key::Char('k'));
    assert_eq!(app.pkg_info_table.cursor, Some(1));
    app.handle_input(Key::Enter);
    match app.current_display() {
        DisplayMode::PopUpPstMenu(menu) => {
            assert_eq!(
                menu.items,
                vec!["Check Marks".to_string(), "View package details".to_string(), "View package build log".to_string()]
            );
        }
        DisplayMode::ViewingPackageStatusTable => panic!("the menu should be open"),
    }
    app.handle_input(Key::Down);
    match app.current_display() {
        DisplayMode::PopUpPstMenu(menu) => assert_eq!(menu.state, Some(0)),
        DisplayMode::ViewingPackageStatusTable => panic!("the menu should be open"),
    }
    assert_eq!(app.pkg_info_table.cursor, Some(1));
    assert!(app.is_running());
    app.handle_input(Key::Char('q'));
    assert!(!app.is_running());
}

#[test]
fn enter_on_empty_table_keeps_the_table() {
    let mut app = App::new();
    app.handle_input(Key::Enter);
    assert!(matches!(app.current_display(), DisplayMode::ViewingPackageStatusTable));
}

#[test]
fn failed_pass_keeps_the_records_shown() {
    let mut app = App::default();
    assert!(app.update(Ok(vec![record("a", Some("x"), &[])])).is_ok());
    assert!(matches!(app.update(Err(FetchError::Transport)), Err(FetchError::Transport)));
    assert_eq!(app.pkg_info_table.data.len(), 1);
    assert_eq!(app.pkg_info_table.data[0].name(), "a");
}
