use commands_applet::applet::{Action, AppModel, Message};
use commands_applet::menu::{MenuConfig, MenuItem};

fn item(title: &str, cmd: Option<&str>, sub: Option<Vec<MenuItem>>, terminal: Option<bool>) -> MenuItem {
    MenuItem {
        title: title.to_string(),
        item_type: None,
        command: cmd.map(|c| c.to_string()),
        submenu: sub,
        icon: None,
        terminal,
    }
}

fn menu() -> Vec<MenuItem> {
    vec![
        item(
            "Applications",
            None,
            Some(vec![
                item("Calculator", Some("flatpak run org.gnome.Calculator"), None, Some(false)),
                item("Top", Some("htop"), None, Some(true)),
                item("Plain", Some("firefox"), None, None),
            ]),
            None,
        ),
        item("Nothing", None, None, None),
    ]
}

fn model() -> AppModel<u32> {
    AppModel::init(
        MenuConfig { menu: menu(), icon: Some("my-icon".to_string()), terminal: Some("xterm".to_string()) },
        7,
    )
}

fn click(m: &mut AppModel<u32>, path: &str) -> Action {
    m.update(Message::MenuClicked(path.to_string()))
}

#[test]
fn init_takes_configuration() {
    let m = model();
    assert_eq!(m.applet_icon, "my-icon");
    assert_eq!(m.terminal, "xterm");
    assert_eq!(m.config, 7);
    assert_eq!(m.menus.len(), 2);
    assert!(m.popup.is_none() && m.expanded.is_none() && m.hovered.is_none() && !m.example_row);
}

#[test]
fn init_defaults() {
    let m: AppModel<()> = AppModel::init(MenuConfig { menu: vec![], icon: None, terminal: None }, ());
    assert_eq!(m.applet_icon, "display-symbolic");
    assert_eq!(m.terminal, "auto");
}

#[test]
fn init_blank_icon_falls_back() {
    for blank in ["", "   ", "\t\n", "\u{a0}"] {
        let m: AppModel<()> =
            AppModel::init(MenuConfig { menu: vec![], icon: Some(blank.to_string()), terminal: None }, ());
        assert_eq!(m.applet_icon, "display-symbolic", "icon {:?}", blank);
    }
}

#[test]
fn init_icon_with_spaces_kept() {
    let m: AppModel<()> =
        AppModel::init(MenuConfig { menu: vec![], icon: Some(" x ".to_string()), terminal: None }, ());
    assert_eq!(m.applet_icon, " x ");
}

#[test]
fn reload_replaces_menu_icon_terminal() {
    let mut m = model();
    m.update(Message::MenuClicked("Applications".to_string()));
    m.reload(MenuConfig { menu: vec![item("Only", Some("ls"), None, None)], icon: None, terminal: None });
    assert_eq!(m.menus.len(), 1);
    assert_eq!(m.applet_icon, "display-symbolic");
    assert_eq!(m.terminal, "auto");
    assert_eq!(m.expanded.as_deref(), Some("Applications"));
}

#[test]
fn reload_keeps_blank_icon() {
    let mut m = model();
    m.reload(MenuConfig { menu: vec![], icon: Some("  ".to_string()), terminal: Some("konsole".to_string()) });
    assert_eq!(m.applet_icon, "  ");
    assert_eq!(m.terminal, "konsole");
}

#[test]
fn click_submenu_twice_folds_back() {
    let mut m = model();
    assert!(matches!(click(&mut m, "Applications"), Action::Nothing));
    assert_eq!(m.expanded.as_deref(), Some("Applications"));
    assert!(matches!(click(&mut m, "Applications"), Action::Nothing));
    assert!(m.expanded.is_none());
}

#[test]
fn click_command_in_terminal() {
    let mut m = model();
    match click(&mut m, "Applications/Top") {
        Action::RunInTerminal { terminal, command } => {
            assert_eq!(terminal, "xterm");
            assert_eq!(command, "htop");
        }
        _ => panic!("expected a terminal run"),
    }
}

#[test]
fn click_command_without_terminal_runs_direct() {
    let mut m = model();
    match click(&mut m, "Applications/Calculator") {
        Action::RunDirect { command } => assert_eq!(command, "flatpak run org.gnome.Calculator"),
        _ => panic!("expected a direct run"),
    }
}

#[test]
fn click_command_terminal_omitted_runs_direct() {
    let mut m = model();
    match click(&mut m, "Applications/Plain") {
        Action::RunDirect { command } => assert_eq!(command, "firefox"),
        _ => panic!("expected a direct run"),
    }
    assert!(m.expanded.is_none());
}

#[test]
fn click_entry_without_command_does_nothing() {
    let mut m = model();
    assert!(matches!(click(&mut m, "Nothing"), Action::Nothing));
    assert!(matches!(click(&mut m, "Unknown/Path"), Action::Nothing));
    assert!(m.expanded.is_none());
}

#[test]
fn click_edit_and_reload_rows() {
    let mut m = model();
    match click(&mut m, "__edit__") {
        Action::EditConfig { terminal } => assert_eq!(terminal, "xterm"),
        _ => panic!("expected edit"),
    }
    assert!(matches!(click(&mut m, "__reload__"), Action::ReloadConfig));
}

#[test]
fn click_other_submenu_switches() {
    let mut m = AppModel::init(
        MenuConfig {
            menu: vec![
                item("A", None, Some(vec![]), None),
                item("B", None, Some(vec![]), None),
            ],
            icon: None,
            terminal: None,
        },
        0u32,
    );
    click(&mut m, "A");
    click(&mut m, "B");
    assert_eq!(m.expanded.as_deref(), Some("B"));
}

#[test]
fn popup_toggle_twice() {
    let mut m = model();
    assert!(matches!(m.update(Message::TogglePopup(5)), Action::CreatePopup(5)));
    assert_eq!(m.popup, Some(5));
    assert!(matches!(m.update(Message::TogglePopup(6)), Action::DestroyPopup(5)));
    assert_eq!(m.popup, None);
}

#[test]
fn popup_closed_only_for_open_one() {
    let mut m = model();
    m.update(Message::TogglePopup(3));
    m.update(Message::PopupClosed(4));
    assert_eq!(m.popup, Some(3));
    m.update(Message::PopupClosed(3));
    assert_eq!(m.popup, None);
}

#[test]
fn hover_then_leave() {
    let mut m = model();
    m.update(Message::HoverItem("Applications".to_string()));
    assert_eq!(m.hovered.as_deref(), Some("Applications"));
    m.update(Message::UnhoverItem);
    assert!(m.hovered.is_none());
}

#[test]
fn config_and_example_row() {
    let mut m = model();
    m.update(Message::UpdateConfig(42));
    m.update(Message::ToggleExampleRow(true));
    assert_eq!(m.config, 42);
    assert!(m.example_row);
    assert!(matches!(m.update(Message::SubscriptionChannel), Action::Nothing));
}

#[test]
fn messages_keep_configuration() {
    let mut m = model();
    let messages = vec![
        Message::TogglePopup(1),
        Message::MenuClicked("Applications".to_string()),
        Message::MenuClicked("Applications/Top".to_string()),
        Message::MenuClicked("__reload__".to_string()),
        Message::HoverItem("x".to_string()),
        Message::UpdateConfig(9),
    ];
    for msg in messages {
        m.update(msg);
        assert_eq!(m.menus.len(), 2);
        assert_eq!(m.applet_icon, "my-icon");
        assert_eq!(m.terminal, "xterm");
    }
}

#[test]
fn nested_click_on_unfolded_folds_all() {
    let mut m = model();
    click(&mut m, "Applications");
    assert_eq!(m.expanded.as_deref(), Some("Applications"));
    click(&mut m, "Applications");
    assert!(m.expanded.is_none());
}

#[test]
fn menu_item_clone_copies_tree() {
    let original = menu().remove(0);
    let copy = original.clone();
    assert_eq!(copy, original);
}

#[test]
fn default_model_is_empty() {
    let m: AppModel<u32> = AppModel::default();
    assert!(m.popup.is_none() && m.expanded.is_none() && m.hovered.is_none());
    assert!(m.menus.is_empty() && m.applet_icon.is_empty() && m.terminal.is_empty());
    assert_eq!(m.config, 0);
    assert!(!m.example_row);
}
