//! The applet's state and how each message changes it.

use vstd::prelude::*;
use crate::menu::{find_titled, lookup_path, lookup_segments, MenuConfig, MenuItem};
use crate::path::{
    at_or_below, law_below_is_title_prefix, lemma_segments_nonempty, lies_below, path_segments,
    segment_views, segments_prefix, split_path,
};
use crate::text::chars_of;
use crate::text::blank;

verus! {

/// The menu path that the built-in "Edit commands.json" row sends when clicked.
pub const EDIT_PATH: &'static str = "__edit__";

/// The menu path that the built-in "Reload" row sends when clicked.
pub const RELOAD_PATH: &'static str = "__reload__";

/// The panel icon used when the configuration names none.
pub open spec fn default_icon() -> Seq<char> {
    "display-symbolic"@
}

/// The terminal setting used when the configuration names none.
pub open spec fn default_terminal() -> Seq<char> {
    "auto"@
}

/// The applet's state.
pub struct AppModel<C> {
    /// The key of the open popup window, if one is open.
    pub popup: Option<u64>,
    /// Settings that persist between runs.
    pub config: C,
    pub example_row: bool,
    /// The top-level entries of the menu.
    pub menus: Vec<MenuItem>,
    /// The icon shown on the panel.
    pub applet_icon: String,
    /// The path of the submenu that is unfolded, if any.
    pub expanded: Option<String>,
    /// The path of the row under the pointer, if any.
    pub hovered: Option<String>,
    /// The terminal emulator setting (`"auto"`, `"gnome-terminal"`, ...).
    pub terminal: String,
}

/// The events the applet reacts to.
pub enum Message<C> {
    /// The panel button was pressed; the key is the one a new popup would get.
    TogglePopup(u64),
    PopupClosed(u64),
    SubscriptionChannel,
    UpdateConfig(C),
    ToggleExampleRow(bool),
    /// A menu row was clicked; it carries the row's path.
    MenuClicked(String),
    HoverItem(String),
    UnhoverItem,
}

/// The outside work that a message asks for.
pub enum Action {
    Nothing,
    CreatePopup(u64),
    DestroyPopup(u64),
    /// Open the configuration file in an editor inside the given terminal.
    EditConfig { terminal: String },
    /// Read the configuration file again and hand it to `AppModel::reload`.
    ReloadConfig,
    RunInTerminal { terminal: String, command: String },
    RunDirect { command: String },
}

/// The state, with strings taken as character sequences.
pub struct ModelView<C> {
    pub popup: Option<u64>,
    pub config: C,
    pub example_row: bool,
    pub menus: Seq<MenuItem>,
    pub applet_icon: Seq<char>,
    pub expanded: Option<Seq<char>>,
    pub hovered: Option<Seq<char>>,
    pub terminal: Seq<char>,
}

/// A message, with strings taken as character sequences.
pub enum MessageView<C> {
    TogglePopup(u64),
    PopupClosed(u64),
    SubscriptionChannel,
    UpdateConfig(C),
    ToggleExampleRow(bool),
    MenuClicked(Seq<char>),
    HoverItem(Seq<char>),
    UnhoverItem,
}

/// An action, with strings taken as character sequences.
pub enum ActionView {
    Nothing,
    CreatePopup(u64),
    DestroyPopup(u64),
    EditConfig { terminal: Seq<char> },
    ReloadConfig,
    RunInTerminal { terminal: Seq<char>, command: Seq<char> },
    RunDirect { command: Seq<char> },
}

/// An optional string taken as an optional character sequence.
pub open spec fn opt_view(o: Option<String>) -> Option<Seq<char>> {
    match o {
        Some(s) => Some(s@),
        None => None,
    }
}

impl<C> View for AppModel<C> {
    type V = ModelView<C>;

    open spec fn view(&self) -> ModelView<C> {
        ModelView {
            popup: self.popup,
            config: self.config,
            example_row: self.example_row,
            menus: self.menus@,
            applet_icon: self.applet_icon@,
            expanded: opt_view(self.expanded),
            hovered: opt_view(self.hovered),
            terminal: self.terminal@,
        }
    }
}

impl<C> View for Message<C> {
    type V = MessageView<C>;

    open spec fn view(&self) -> MessageView<C> {
        match self {
            Message::TogglePopup(k) => MessageView::TogglePopup(*k),
            Message::PopupClosed(k) => MessageView::PopupClosed(*k),
            Message::SubscriptionChannel => MessageView::SubscriptionChannel,
            Message::UpdateConfig(c) => MessageView::UpdateConfig(*c),
            Message::ToggleExampleRow(b) => MessageView::ToggleExampleRow(*b),
            Message::MenuClicked(p) => MessageView::MenuClicked(p@),
            Message::HoverItem(p) => MessageView::HoverItem(p@),
            Message::UnhoverItem => MessageView::UnhoverItem,
        }
    }
}

impl View for Action {
    type V = ActionView;

    open spec fn view(&self) -> ActionView {
        match self {
            Action::Nothing => ActionView::Nothing,
            Action::CreatePopup(k) => ActionView::CreatePopup(*k),
            Action::DestroyPopup(k) => ActionView::DestroyPopup(*k),
            Action::EditConfig { terminal } => ActionView::EditConfig { terminal: terminal@ },
            Action::ReloadConfig => ActionView::ReloadConfig,
            Action::RunInTerminal { terminal, command } => ActionView::RunInTerminal {
                terminal: terminal@,
                command: command@,
            },
            Action::RunDirect { command } => ActionView::RunDirect { command: command@ },
        }
    }
}

/// The submenu at `path` is unfolded: its path is the unfolded path, or the
/// unfolded path lies below it.
pub open spec fn unfolds(path: Seq<char>, expanded: Option<Seq<char>>) -> bool {
    match expanded {
        Some(e) => path == e || lies_below(path, e),
        None => false,
    }
}

/// Whether the submenu at `path` is unfolded when `expanded` is the unfolded path.
pub fn is_unfolded(path: &String, expanded: &Option<String>) -> (res: bool)
    ensures
        res == unfolds(path@, opt_view(*expanded)),
{
    match expanded {
        Some(e) => {
            let p = chars_of(path.as_str());
            let ec = chars_of(e.as_str());
            at_or_below(&p, &ec)
        },
        None => false,
    }
}

/// What clicking the row with path `path` does: the new unfolded submenu and the action.
pub open spec fn click_effect<C>(s: ModelView<C>, path: Seq<char>) -> (Option<Seq<char>>, ActionView) {
    if path == EDIT_PATH@ {
        (s.expanded, ActionView::EditConfig { terminal: s.terminal })
    } else if path == RELOAD_PATH@ {
        (s.expanded, ActionView::ReloadConfig)
    } else {
        match lookup_path(s.menus, path) {
            Some(item) => if item.submenu is Some {
                if s.expanded == Some(path) {
                    (None, ActionView::Nothing)
                } else {
                    (Some(path), ActionView::Nothing)
                }
            } else {
                match item.command {
                    Some(c) => if item.terminal == Some(true) {
                        (s.expanded, ActionView::RunInTerminal { terminal: s.terminal, command: c@ })
                    } else {
                        (s.expanded, ActionView::RunDirect { command: c@ })
                    },
                    None => (s.expanded, ActionView::Nothing),
                }
            },
            None => (s.expanded, ActionView::Nothing),
        }
    }
}

/// The state after a message, and the action it asks for.
pub open spec fn step<C>(s: ModelView<C>, m: MessageView<C>) -> (ModelView<C>, ActionView) {
    match m {
        MessageView::TogglePopup(fresh) => match s.popup {
            Some(p) => (ModelView { popup: None, ..s }, ActionView::DestroyPopup(p)),
            None => (ModelView { popup: Some(fresh), ..s }, ActionView::CreatePopup(fresh)),
        },
        MessageView::PopupClosed(k) => if s.popup == Some(k) {
            (ModelView { popup: None, ..s }, ActionView::Nothing)
        } else {
            (s, ActionView::Nothing)
        },
        MessageView::SubscriptionChannel => (s, ActionView::Nothing),
        MessageView::UpdateConfig(c) => (ModelView { config: c, ..s }, ActionView::Nothing),
        MessageView::ToggleExampleRow(b) => (ModelView { example_row: b, ..s }, ActionView::Nothing),
        MessageView::MenuClicked(path) => {
            let (expanded, action) = click_effect(s, path);
            (ModelView { expanded: expanded, ..s }, action)
        },
        MessageView::HoverItem(path) => (ModelView { hovered: Some(path), ..s }, ActionView::Nothing),
        MessageView::UnhoverItem => (ModelView { hovered: None, ..s }, ActionView::Nothing),
    }
}

/// Clicking a submenu's row twice folds it back: when no submenu, or this
/// one, is the unfolded one, two clicks leave the state as it was and ask
/// for nothing.
pub proof fn law_submenu_click_twice<C>(s: ModelView<C>, path: Seq<char>)
    requires
        path != EDIT_PATH@,
        path != RELOAD_PATH@,
        lookup_path(s.menus, path) matches Some(item) && item.submenu is Some,
        s.expanded is None || s.expanded == Some(path),
    ensures
        step(s, MessageView::MenuClicked(path)).0.expanded != s.expanded,
        step(s, MessageView::MenuClicked(path)).1 == ActionView::Nothing,
        step(step(s, MessageView::MenuClicked(path)).0, MessageView::MenuClicked(path)).0 == s,
        step(step(s, MessageView::MenuClicked(path)).0, MessageView::MenuClicked(path)).1
            == ActionView::Nothing,
{
}

/// Unfolding a submenu keeps the submenus that hold it unfolded: after a
/// click on any submenu other than the unfolded one, it is unfolded, and so
/// is every submenu whose titles, taken one by one, begin its own.
pub proof fn law_unfold_keeps_ancestors<C>(s: ModelView<C>, path: Seq<char>, ancestor: Seq<char>)
    requires
        path != EDIT_PATH@,
        path != RELOAD_PATH@,
        lookup_path(s.menus, path) matches Some(item) && item.submenu is Some,
        s.expanded != Some(path),
        segments_prefix(path_segments(ancestor), path_segments(path)),
    ensures
        step(s, MessageView::MenuClicked(path)).0.expanded == Some(path),
        unfolds(path, step(s, MessageView::MenuClicked(path)).0.expanded),
        unfolds(ancestor, step(s, MessageView::MenuClicked(path)).0.expanded),
{
    law_below_is_title_prefix(ancestor, path);
}

/// Clicking the unfolded submenu itself folds the whole menu: afterwards no
/// submenu is unfolded.
pub proof fn law_fold_closes_all<C>(s: ModelView<C>, path: Seq<char>, other: Seq<char>)
    requires
        path != EDIT_PATH@,
        path != RELOAD_PATH@,
        lookup_path(s.menus, path) matches Some(item) && item.submenu is Some,
        s.expanded == Some(path),
    ensures
        step(s, MessageView::MenuClicked(path)).0.expanded is None,
        !unfolds(other, step(s, MessageView::MenuClicked(path)).0.expanded),
{
}

/// Pressing the panel button twice opens a popup and then closes that same
/// popup, leaving the state as it was.
pub proof fn law_popup_toggle_twice<C>(s: ModelView<C>, first: u64, second: u64)
    requires
        s.popup is None,
    ensures
        step(s, MessageView::TogglePopup(first)).1 == ActionView::CreatePopup(first),
        step(step(s, MessageView::TogglePopup(first)).0, MessageView::TogglePopup(second)).1
            == ActionView::DestroyPopup(first),
        step(step(s, MessageView::TogglePopup(first)).0, MessageView::TogglePopup(second)).0 == s,
{
}

/// When the popup that was opened is closed from outside, the applet no
/// longer holds it; a close of any other popup changes nothing.
pub proof fn law_popup_closed<C>(s: ModelView<C>, key: u64, other: u64)
    requires
        s.popup is None,
        other != key,
    ensures
        step(step(s, MessageView::TogglePopup(key)).0, MessageView::PopupClosed(key)).0 == s,
        step(step(s, MessageView::TogglePopup(key)).0, MessageView::PopupClosed(other)).0
            == step(s, MessageView::TogglePopup(key)).0,
{
}

/// Moving the pointer onto a row and off again leaves no row highlighted and
/// changes nothing else.
pub proof fn law_hover_then_leave<C>(s: ModelView<C>, path: Seq<char>)
    ensures
        step(step(s, MessageView::HoverItem(path)).0, MessageView::UnhoverItem).0 == (ModelView {
            hovered: None,
            ..s
        }),
{
}

/// No message changes the menu, the panel icon or the terminal setting: only
/// a reload of the configuration does.
pub proof fn law_messages_keep_configuration<C>(s: ModelView<C>, m: MessageView<C>)
    ensures
        step(s, m).0.menus == s.menus,
        step(s, m).0.applet_icon == s.applet_icon,
        step(s, m).0.terminal == s.terminal,
{
}

/// A command entry that does not ask for a terminal runs detached, never in a terminal.
pub proof fn law_command_without_terminal_runs_detached<C>(s: ModelView<C>, path: Seq<char>)
    requires
        path != EDIT_PATH@,
        path != RELOAD_PATH@,
        lookup_path(s.menus, path) matches Some(item) && item.submenu is None && item.command
            is Some && item.terminal is None,
    ensures
        step(s, MessageView::MenuClicked(path)).1 == (ActionView::RunDirect {
            command: lookup_path(s.menus, path)->0.command->0@,
        }),
        step(s, MessageView::MenuClicked(path)).0 == s,
{
}

/// A command entry runs as its own `terminal` flag says, whatever else the
/// state holds: in the configured terminal when the flag is `true`, detached
/// otherwise, always with the entry's command unchanged and with no change
/// to the state.
pub proof fn law_command_click_runs_as_configured<C>(s: ModelView<C>, path: Seq<char>)
    requires
        path != EDIT_PATH@,
        path != RELOAD_PATH@,
        lookup_path(s.menus, path) matches Some(item) && item.submenu is None && item.command is Some,
    ensures
        step(s, MessageView::MenuClicked(path)).0 == s,
        lookup_path(s.menus, path)->0.terminal == Some(true) ==> step(s, MessageView::MenuClicked(path)).1
            == (ActionView::RunInTerminal {
            terminal: s.terminal,
            command: lookup_path(s.menus, path)->0.command->0@,
        }),
        lookup_path(s.menus, path)->0.terminal != Some(true) ==> step(s, MessageView::MenuClicked(path)).1
            == (ActionView::RunDirect { command: lookup_path(s.menus, path)->0.command->0@ }),
{
}

/// At start-up a configured icon that is not blank is used as it is; a
/// blank or missing one gives `display-symbolic`. A configured terminal
/// setting is used as it is; a missing one gives `auto`.
pub proof fn law_initial_icon_and_terminal(icon: Seq<char>, terminal: Seq<char>)
    ensures
        !crate::text::is_blank(icon) ==> initial_icon(Some(icon)) == icon,
        crate::text::is_blank(icon) ==> initial_icon(Some(icon)) == "display-symbolic"@,
        initial_icon(None) == "display-symbolic"@,
        configured_terminal(Some(terminal)) == terminal,
        configured_terminal(None) == "auto"@,
{
}

/// A reload takes the configured icon as it is, blank or not, and
/// `display-symbolic` when there is none.
pub proof fn law_reloaded_icon(icon: Seq<char>)
    ensures
        reloaded_icon(Some(icon)) == icon,
        reloaded_icon(None) == "display-symbolic"@,
{
}

/// The built-in rows change nothing: "Edit commands.json" asks to edit the
/// file in the configured terminal, "Reload" asks to read it again.
pub proof fn law_builtin_rows<C>(s: ModelView<C>)
    ensures
        step(s, MessageView::MenuClicked(EDIT_PATH@)).0 == s,
        step(s, MessageView::MenuClicked(EDIT_PATH@)).1 == (ActionView::EditConfig { terminal: s.terminal }),
        step(s, MessageView::MenuClicked(RELOAD_PATH@)).0 == s,
        step(s, MessageView::MenuClicked(RELOAD_PATH@)).1 == ActionView::ReloadConfig,
{
    reveal_strlit("__edit__");
    reveal_strlit("__reload__");
    assert(EDIT_PATH@ != RELOAD_PATH@) by {
        assert(EDIT_PATH@.len() != RELOAD_PATH@.len());
    }
}

/// A click on a path that leads nowhere, or on an entry with neither a
/// submenu nor a command, changes nothing and asks for nothing.
pub proof fn law_inert_click<C>(s: ModelView<C>, path: Seq<char>)
    requires
        path != EDIT_PATH@,
        path != RELOAD_PATH@,
        lookup_path(s.menus, path) is None || (lookup_path(s.menus, path) matches Some(item)
            && item.submenu is None && item.command is None),
    ensures
        step(s, MessageView::MenuClicked(path)).0 == s,
        step(s, MessageView::MenuClicked(path)).1 == ActionView::Nothing,
{
}

/// Each of the remaining messages touches only its own part of the state
/// and asks for nothing: new settings replace the settings, the example
/// toggle sets its flag, and the subscription's greeting changes nothing.
pub proof fn law_plain_messages<C>(s: ModelView<C>, c: C, b: bool)
    ensures
        step(s, MessageView::UpdateConfig(c)) == (ModelView { config: c, ..s }, ActionView::Nothing),
        step(s, MessageView::ToggleExampleRow(b)) == (ModelView { example_row: b, ..s }, ActionView::Nothing),
        step(s, MessageView::SubscriptionChannel) == (s, ActionView::Nothing),
{
}

/// Moving the pointer onto a row records exactly that row's path as the
/// hovered one and changes nothing else.
pub proof fn law_hover_records_path<C>(s: ModelView<C>, path: Seq<char>)
    ensures
        step(s, MessageView::HoverItem(path)).0 == (ModelView { hovered: Some(path), ..s }),
        step(s, MessageView::HoverItem(path)).1 == ActionView::Nothing,
{
}

/// The panel icon a configuration asks for: its icon unless that is absent or blank.
pub open spec fn initial_icon(icon: Option<Seq<char>>) -> Seq<char> {
    match icon {
        Some(i) => if crate::text::is_blank(i) {
            default_icon()
        } else {
            i
        },
        None => default_icon(),
    }
}

/// The panel icon after a reload: the configured icon if present, blank or not.
pub open spec fn reloaded_icon(icon: Option<Seq<char>>) -> Seq<char> {
    match icon {
        Some(i) => i,
        None => default_icon(),
    }
}

/// The terminal setting a configuration asks for.
pub open spec fn configured_terminal(terminal: Option<Seq<char>>) -> Seq<char> {
    match terminal {
        Some(t) => t,
        None => default_terminal(),
    }
}

fn string_or(o: Option<String>, fallback: &str) -> (s: String)
    ensures
        s@ == match opt_view(o) {
            Some(v) => v,
            None => fallback@,
        },
{
    match o {
        Some(s) => s,
        None => String::from_str(fallback),
    }
}

impl<C: Default> Default for AppModel<C> {
    /// An empty applet: no popup, no menu, empty icon and terminal strings,
    /// nothing unfolded or under the pointer, and the default settings.
    fn default() -> (model: Self)
        ensures
            model.popup is None,
            !model.example_row,
            model.menus@ == Seq::<MenuItem>::empty(),
            model.applet_icon@ == Seq::<char>::empty(),
            model.expanded is None,
            model.hovered is None,
            model.terminal@ == Seq::<char>::empty(),
    {
        AppModel {
            popup: None,
            config: C::default(),
            example_row: false,
            menus: Vec::new(),
            applet_icon: String::new(),
            expanded: None,
            hovered: None,
            terminal: String::new(),
        }
    }
}

impl<C> AppModel<C> {
    /// The state at start-up, from the menu configuration and the persisted settings.
    pub fn init(menu_config: MenuConfig, config: C) -> (model: Self)
        ensures
            model@ == (ModelView {
                popup: None,
                config: config,
                example_row: false,
                menus: menu_config.menu@,
                applet_icon: initial_icon(opt_view(menu_config.icon)),
                expanded: None,
                hovered: None,
                terminal: configured_terminal(opt_view(menu_config.terminal)),
            }),
            menu_config.icon matches Some(i) ==> (!crate::text::is_blank(i@) ==> model.applet_icon@
                == i@),
            menu_config.icon matches Some(i) ==> (crate::text::is_blank(i@) ==> model.applet_icon@
                == "display-symbolic"@),
            menu_config.icon is None ==> model.applet_icon@ == "display-symbolic"@,
            menu_config.terminal matches Some(t) ==> model.terminal@ == t@,
            menu_config.terminal is None ==> model.terminal@ == "auto"@,
    {
        let MenuConfig { menu, icon, terminal } = menu_config;
        let applet_icon = match icon {
            Some(i) => if blank(i.as_str()) {
                String::from_str("display-symbolic")
            } else {
                i
            },
            None => String::from_str("display-symbolic"),
        };
        AppModel {
            popup: None,
            config,
            example_row: false,
            menus: menu,
            applet_icon,
            expanded: None,
            hovered: None,
            terminal: string_or(terminal, "auto"),
        }
    }

    /// Takes in a configuration read again from disk.
    pub fn reload(&mut self, menu_config: MenuConfig)
        ensures
            final(self)@ == (ModelView {
                menus: menu_config.menu@,
                applet_icon: reloaded_icon(opt_view(menu_config.icon)),
                terminal: configured_terminal(opt_view(menu_config.terminal)),
                ..old(self)@
            }),
            menu_config.icon matches Some(i) ==> final(self).applet_icon@ == i@,
            menu_config.icon is None ==> final(self).applet_icon@ == "display-symbolic"@,
            menu_config.terminal matches Some(t) ==> final(self).terminal@ == t@,
            menu_config.terminal is None ==> final(self).terminal@ == "auto"@,
    {
        let MenuConfig { menu, icon, terminal } = menu_config;
        self.menus = menu;
        self.applet_icon = string_or(icon, "display-symbolic");
        self.terminal = string_or(terminal, "auto");
    }

    /// Handles one message: changes the state as `step` says and returns the
    /// outside work it asks for.
    pub fn update(&mut self, message: Message<C>) -> (action: Action)
        ensures
            final(self)@ == step(old(self)@, message@).0,
            action@ == step(old(self)@, message@).1,
    {
        match message {
            Message::TogglePopup(fresh) => match self.popup {
                Some(p) => {
                    self.popup = None;
                    Action::DestroyPopup(p)
                },
                None => {
                    self.popup = Some(fresh);
                    Action::CreatePopup(fresh)
                },
            },
            Message::PopupClosed(k) => {
                let open_is_k = match self.popup {
                    Some(p) => p == k,
                    None => false,
                };
                if open_is_k {
                    self.popup = None;
                }
                Action::Nothing
            },
            Message::SubscriptionChannel => Action::Nothing,
            Message::UpdateConfig(c) => {
                self.config = c;
                Action::Nothing
            },
            Message::ToggleExampleRow(b) => {
                self.example_row = b;
                Action::Nothing
            },
            Message::MenuClicked(path) => self.menu_clicked(path),
            Message::HoverItem(path) => {
                self.hovered = Some(path);
                Action::Nothing
            },
            Message::UnhoverItem => {
                self.hovered = None;
                Action::Nothing
            },
        }
    }

    /// Handles a click on the row with path `path`.
    fn menu_clicked(&mut self, path: String) -> (action: Action)
        ensures
            final(self)@ == (ModelView { expanded: click_effect(old(self)@, path@).0, ..old(self)@ }),
            action@ == click_effect(old(self)@, path@).1,
    {
        let edit = String::from_str(EDIT_PATH);
        if path == edit {
            return Action::EditConfig { terminal: self.terminal.clone() };
        }
        let reload = String::from_str(RELOAD_PATH);
        if path == reload {
            return Action::ReloadConfig;
        }
        let found = Self::find_item_by_path(self.menus.as_slice(), path.as_str());
        match found {
            Some(item) => {
                if item.submenu.is_some() {
                    let unfolded_here = match &self.expanded {
                        Some(e) => *e == path,
                        None => false,
                    };
                    if unfolded_here {
                        self.expanded = None;
                    } else {
                        self.expanded = Some(path);
                    }
                    Action::Nothing
                } else {
                    match &item.command {
                        Some(command) => {
                            let in_terminal = match item.terminal {
                                Some(t) => t,
                                None => false,
                            };
                            if in_terminal {
                                Action::RunInTerminal {
                                    terminal: self.terminal.clone(),
                                    command: command.clone(),
                                }
                            } else {
                                Action::RunDirect { command: command.clone() }
                            }
                        },
                        None => Action::Nothing,
                    }
                }
            },
            None => Action::Nothing,
        }
    }

    /// The entry that `path` leads to: the titles between the `/` of the path
    /// pick, level by level, the first entry with that title.
    pub fn find_item_by_path<'a>(items: &'a [MenuItem], path: &str) -> (res: Option<&'a MenuItem>)
        ensures
            match res {
                Some(r) => lookup_path(items@, path@) == Some(*r),
                None => lookup_path(items@, path@) is None,
            },
    {
        let segs = split_path(path);
        proof {
            lemma_segments_nonempty(path@);
            assert(segment_views(segs@).skip(0) =~= segment_views(segs@));
        }
        let mut current: &'a [MenuItem] = items;
        let mut i: usize = 0;
        loop
            invariant
                i < segs.len(),
                segment_views(segs@) == path_segments(path@),
                lookup_path(items@, path@) == lookup_segments(
                    current@,
                    segment_views(segs@).skip(i as int),
                ),
            decreases segs.len() - i,
        {
            let ghost rest = segment_views(segs@).skip(i as int);
            assert(rest[0] == segs@[i as int]@);
            let k = match find_titled(current, &segs[i]) {
                Some(k) => k,
                None => {
                    return None;
                },
            };
            let item = &current[k];
            if i + 1 == segs.len() {
                return Some(item);
            }
            assert(rest.drop_first() =~= segment_views(segs@).skip(i + 1));
            match &item.submenu {
                Some(sub) => {
                    current = sub.as_slice();
                    i = i + 1;
                },
                None => {
                    return None;
                },
            }
        }
    }
}

} // verus!
