use commands_applet::applet::AppModel;
use commands_applet::menu::MenuItem;
use commands_applet::path::split_path;

fn command(title: &str, cmd: &str, terminal: Option<bool>) -> MenuItem {
    MenuItem {
        title: title.to_string(),
        item_type: None,
        command: Some(cmd.to_string()),
        submenu: None,
        icon: None,
        terminal,
    }
}

fn submenu(title: &str, icon: &str, items: Vec<MenuItem>) -> MenuItem {
    MenuItem {
        title: title.to_string(),
        item_type: Some("submenu".to_string()),
        command: None,
        submenu: Some(items),
        icon: Some(icon.to_string()),
        terminal: None,
    }
}

fn readme_menu() -> Vec<MenuItem> {
    vec![
        submenu(
            "Applications",
            "applications-system-symbolic",
            vec![
                command("Calculator", "flatpak run org.gnome.Calculator", Some(false)),
                command("Files", "nautilus", Some(false)),
            ],
        ),
        submenu(
            "System",
            "utilities-terminal-symbolic",
            vec![command("Logs", "tail -f /var/log/syslog", Some(true))],
        ),
    ]
}

fn find<'a>(items: &'a [MenuItem], path: &str) -> Option<&'a MenuItem> {
    AppModel::<()>::find_item_by_path(items, path)
}

fn segments(path: &str) -> Vec<String> {
    split_path(path).into_iter().map(|s| s.into_iter().collect()).collect()
}

#[test]
fn split_path_empty_gives_one_empty_segment() {
    assert_eq!(segments(""), vec![String::new()]);
}

#[test]
fn split_path_matches_str_split() {
    for p in ["a/b", "a//b/", "/", "Applications/Calculator", "Café/Über/ß", "no-slash"] {
        let expected: Vec<String> = p.split('/').map(|s| s.to_string()).collect();
        assert_eq!(segments(p), expected, "path {:?}", p);
    }
}

#[test]
fn find_top_level_submenu() {
    let menu = readme_menu();
    let item = find(&menu, "Applications").expect("found");
    assert_eq!(item.title, "Applications");
    assert!(item.submenu.is_some());
}

#[test]
fn find_nested_command() {
    let menu = readme_menu();
    let item = find(&menu, "Applications/Calculator").expect("found");
    assert_eq!(item.command.as_deref(), Some("flatpak run org.gnome.Calculator"));
    let logs = find(&menu, "System/Logs").expect("found");
    assert_eq!(logs.command.as_deref(), Some("tail -f /var/log/syslog"));
}

#[test]
fn find_missing_titles() {
    let menu = readme_menu();
    assert!(find(&menu, "Missing").is_none());
    assert!(find(&menu, "Applications/Missing").is_none());
    assert!(find(&menu, "").is_none());
    assert!(find(&menu, "Applications/").is_none());
}

#[test]
fn find_below_a_command_fails() {
    let menu = readme_menu();
    assert!(find(&menu, "Applications/Calculator/More").is_none());
}

#[test]
fn find_takes_first_of_equal_titles() {
    let menu = vec![command("Same", "first", None), command("Same", "second", None)];
    let item = find(&menu, "Same").expect("found");
    assert_eq!(item.command.as_deref(), Some("first"));
}

#[test]
fn find_descends_into_first_of_equal_titles() {
    let menu = vec![
        submenu("Dup", "a", vec![command("X", "one", None)]),
        submenu("Dup", "b", vec![command("Y", "two", None)]),
    ];
    assert!(find(&menu, "Dup/X").is_some());
    assert!(find(&menu, "Dup/Y").is_none());
}

#[test]
fn find_empty_title_entry() {
    let menu = vec![command("", "empty", None)];
    assert_eq!(find(&menu, "").expect("found").command.as_deref(), Some("empty"));
}

#[test]
fn find_unicode_titles() {
    let menu = vec![submenu("Ferramentas", "x", vec![command("Configurações", "gnome-control-center", None)])];
    assert!(find(&menu, "Ferramentas/Configurações").is_some());
}

#[test]
fn split_then_join_gives_path_back() {
    for p in ["", "a", "a/b/c", "//", "Applications/Calculator/", "ü/ß"] {
        assert_eq!(segments(p).join("/"), p);
        assert!(segments(p).iter().all(|s| !s.contains('/')));
    }
}

#[test]
fn join_then_split_gives_segments_back() {
    let segs = vec!["a".to_string(), String::new(), "c d".to_string()];
    assert_eq!(segments(&segs.join("/")), segs);
}
