use commands_applet::applet::{AppModel, Message};
use commands_applet::layout::{MenuEntry, MenuRow};
use commands_applet::menu::{MenuConfig, MenuItem};

fn item(title: &str, icon: Option<&str>, sub: Option<Vec<MenuItem>>) -> MenuItem {
    MenuItem {
        title: title.to_string(),
        item_type: None,
        command: if sub.is_none() { Some("true".to_string()) } else { None },
        submenu: sub,
        icon: icon.map(|i| i.to_string()),
        terminal: None,
    }
}

fn model() -> AppModel<()> {
    AppModel::init(
        MenuConfig {
            menu: vec![
                item(
                    "Applications",
                    Some("applications-system-symbolic"),
                    Some(vec![item("Calculator", None, None), item("Files", Some("folder"), None)]),
                ),
                item("Logs", None, None),
            ],
            icon: None,
            terminal: None,
        },
        (),
    )
}

fn entries(rows: &[MenuRow]) -> Vec<&MenuEntry> {
    rows.iter()
        .filter_map(|r| match r {
            MenuRow::Entry(e) => Some(e),
            _ => None,
        })
        .collect()
}

fn shape(rows: &[MenuRow]) -> String {
    rows.iter()
        .map(|r| match r {
            MenuRow::Spacer(h) => {
                assert_eq!(*h, 8);
                "S".to_string()
            }
            MenuRow::Divider(h) => {
                assert_eq!(*h, 1);
                "D".to_string()
            }
            MenuRow::Entry(e) => format!("E{}", e.indent / 16),
        })
        .collect::<Vec<_>>()
        .join(",")
}

#[test]
fn folded_menu_rows() {
    let rows = model().render_menu();
    assert_eq!(shape(&rows), "S,E0,E0,D,E0,E0,S");
    let es = entries(&rows);
    assert_eq!(es[0].path, "Applications");
    assert_eq!(es[0].icon, "applications-system-symbolic");
    assert_eq!((es[0].indent, es[0].icon_width), (0, 34));
    assert_eq!(es[1].path, "Logs");
    assert_eq!(es[1].icon, "text-x-generic");
    assert_eq!((es[2].path.as_str(), es[2].title.as_str()), ("__edit__", "Edit commands.json"));
    assert_eq!(es[2].icon, "accessories-text-editor-symbolic");
    assert_eq!((es[3].path.as_str(), es[3].title.as_str()), ("__reload__", "Reload"));
    assert_eq!(es[3].icon, "view-refresh-symbolic");
    assert!(es.iter().all(|e| !e.hovered));
}

#[test]
fn unfolded_submenu_rows() {
    let mut m = model();
    m.update(Message::MenuClicked("Applications".to_string()));
    let rows = m.render_menu();
    assert_eq!(shape(&rows), "S,E0,S,E1,E1,S,E0,D,E0,E0,S");
    let es = entries(&rows);
    assert_eq!(es[1].path, "Applications/Calculator");
    assert_eq!(es[1].title, "Calculator");
    assert_eq!((es[1].indent, es[1].icon_width), (16, 50));
    assert_eq!(es[2].path, "Applications/Files");
    assert_eq!(es[2].icon, "folder");
}

#[test]
fn hovered_row_marked() {
    let mut m = model();
    m.update(Message::MenuClicked("Applications".to_string()));
    m.update(Message::HoverItem("Applications/Files".to_string()));
    let rows = m.render_menu();
    let hovered: Vec<_> = entries(&rows).into_iter().filter(|e| e.hovered).map(|e| e.path.clone()).collect();
    assert_eq!(hovered, vec!["Applications/Files".to_string()]);
    m.update(Message::HoverItem("__reload__".to_string()));
    let rows = m.render_menu();
    let hovered: Vec<_> = entries(&rows).into_iter().filter(|e| e.hovered).map(|e| e.path.clone()).collect();
    assert_eq!(hovered, vec!["__reload__".to_string()]);
}

#[test]
fn nested_submenu_stays_open_with_its_parent() {
    let mut m: AppModel<()> = AppModel::init(
        MenuConfig {
            menu: vec![item(
                "Apps",
                None,
                Some(vec![item("Games", None, Some(vec![item("Tetris", None, None)]))]),
            )],
            icon: None,
            terminal: None,
        },
        (),
    );
    m.update(Message::MenuClicked("Apps".to_string()));
    m.update(Message::MenuClicked("Apps/Games".to_string()));
    assert_eq!(m.expanded.as_deref(), Some("Apps/Games"));
    let rows = m.render_menu();
    assert_eq!(shape(&rows), "S,E0,S,E1,S,E2,S,S,D,E0,E0,S");
    let paths: Vec<_> = entries(&rows).into_iter().map(|e| e.path.clone()).collect();
    assert_eq!(paths, vec!["Apps", "Apps/Games", "Apps/Games/Tetris", "__edit__", "__reload__"]);
    let tetris = entries(&rows)[2];
    assert_eq!((tetris.indent, tetris.icon_width), (32, 66));
    m.update(Message::MenuClicked("Apps/Games".to_string()));
    assert!(m.expanded.is_none());
    assert_eq!(shape(&m.render_menu()), "S,E0,D,E0,E0,S");
    m.update(Message::MenuClicked("Apps/Games".to_string()));
    m.update(Message::MenuClicked("Apps".to_string()));
    assert_eq!(m.expanded.as_deref(), Some("Apps"));
    assert_eq!(shape(&m.render_menu()), "S,E0,S,E1,S,D,E0,E0,S");
}

#[test]
fn entry_row_sizes() {
    let rows = model().render_menu();
    for e in entries(&rows) {
        assert_eq!((e.height, e.icon_height, e.spacing), (34, 30, 8));
        assert_eq!((e.padding_vertical, e.padding_horizontal), (2, 10));
    }
}

#[test]
fn prefix_of_title_does_not_unfold() {
    let mut m: AppModel<()> = AppModel::init(
        MenuConfig {
            menu: vec![
                item("A", None, Some(vec![item("x", None, None)])),
                item("AB", None, Some(vec![item("y", None, None)])),
            ],
            icon: None,
            terminal: None,
        },
        (),
    );
    m.update(Message::MenuClicked("AB".to_string()));
    let paths: Vec<_> = entries(&m.render_menu()).into_iter().map(|e| e.path.clone()).collect();
    assert_eq!(paths, vec!["A", "AB", "AB/y", "__edit__", "__reload__"]);
}

#[test]
fn deep_chain_of_submenus() {
    let mut m: AppModel<()> = AppModel::init(
        MenuConfig {
            menu: vec![item("A", None, Some(vec![item("B", None, Some(vec![item("C", None, None)]))]))],
            icon: None,
            terminal: None,
        },
        (),
    );
    m.update(Message::MenuClicked("A".to_string()));
    assert_eq!(shape(&m.render_menu()), "S,E0,S,E1,S,D,E0,E0,S");
    m.update(Message::MenuClicked("A/B".to_string()));
    assert_eq!(m.expanded.as_deref(), Some("A/B"));
    let rows = m.render_menu();
    assert_eq!(shape(&rows), "S,E0,S,E1,S,E2,S,S,D,E0,E0,S");
    for e in entries(&rows) {
        if !e.path.starts_with("__") {
            assert!(AppModel::<()>::find_item_by_path(&m.menus, &e.path).is_some());
        }
    }
}

#[test]
fn every_row_path_finds_its_entry() {
    let mut m = model();
    m.update(Message::MenuClicked("Applications".to_string()));
    let rows = m.render_menu();
    for e in entries(&rows) {
        if e.path.starts_with("__") {
            continue;
        }
        let found = AppModel::<()>::find_item_by_path(&m.menus, &e.path).expect("found");
        assert_eq!(found.title, e.title);
    }
}
