//! The rows of the popup menu: which entries show, with their paths,
//! indentation, sizes and hover state.

use vstd::prelude::*;
use crate::applet::{is_unfolded, opt_view, unfolds, AppModel, ModelView, EDIT_PATH, RELOAD_PATH};
use crate::menu::{entry_path, MenuItem};
use crate::path::{no_separator, separator};

verus! {

/// Height of the gap that opens and closes each column, in pixels.
pub const SPACER_HEIGHT: u16 = 8;

/// Height of the line above the built-in rows, in pixels.
pub const DIVIDER_HEIGHT: u16 = 1;

/// Height of an entry row, in pixels.
pub const ROW_HEIGHT: u16 = 34;

/// Height of the icon cell of an entry row, in pixels.
pub const ICON_HEIGHT: u16 = 30;

/// Gap between the icon cell and the title, in pixels.
pub const ROW_SPACING: u16 = 8;

/// Padding of an entry row above and below, in pixels.
pub const ROW_PADDING_VERTICAL: u16 = 2;

/// Padding of an entry row left and right, in pixels.
pub const ROW_PADDING_HORIZONTAL: u16 = 10;

/// One clickable row of the popup.
pub struct MenuEntry {
    /// What a click on the row sends (see `Message::MenuClicked`).
    pub path: String,
    pub title: String,
    pub icon: String,
    /// Whether the pointer is over this row.
    pub hovered: bool,
    /// Left padding of the icon cell: 16 pixels per level, as a `u16`.
    pub indent: u16,
    /// Width of the icon cell: 34 pixels plus the indentation, as a `u16`.
    pub icon_width: u16,
    pub icon_height: u16,
    pub height: u16,
    pub spacing: u16,
    pub padding_vertical: u16,
    pub padding_horizontal: u16,
}

/// One row of the popup, top to bottom.
pub enum MenuRow {
    /// An empty gap of the given height.
    Spacer(u16),
    /// A thin line of the given height, above the built-in rows.
    Divider(u16),
    Entry(MenuEntry),
}

/// A row, with strings taken as character sequences.
pub enum RowView {
    Spacer(int),
    Divider(int),
    Entry {
        path: Seq<char>,
        title: Seq<char>,
        icon: Seq<char>,
        hovered: bool,
        indent: int,
        icon_width: int,
        icon_height: int,
        height: int,
        spacing: int,
        padding_vertical: int,
        padding_horizontal: int,
    },
}

impl View for MenuRow {
    type V = RowView;

    open spec fn view(&self) -> RowView {
        match self {
            MenuRow::Spacer(h) => RowView::Spacer(*h as int),
            MenuRow::Divider(h) => RowView::Divider(*h as int),
            MenuRow::Entry(e) => RowView::Entry {
                path: e.path@,
                title: e.title@,
                icon: e.icon@,
                hovered: e.hovered,
                indent: e.indent as int,
                icon_width: e.icon_width as int,
                icon_height: e.icon_height as int,
                height: e.height as int,
                spacing: e.spacing as int,
                padding_vertical: e.padding_vertical as int,
                padding_horizontal: e.padding_horizontal as int,
            },
        }
    }
}

/// The views of a sequence of rows.
pub open spec fn rows_view(v: Seq<MenuRow>) -> Seq<RowView> {
    v.map_values(|r: MenuRow| r@)
}

/// The gap that opens and closes each column.
pub open spec fn spacer_row() -> RowView {
    RowView::Spacer(SPACER_HEIGHT as int)
}

/// The indentation at `depth`: 16 pixels per level, cut to 16 bits.
pub open spec fn indent_at(depth: nat) -> int {
    (depth * 16) as int % 65536
}

/// The row for an entry at `depth`: 34 pixels high with padding 2 and 10,
/// an icon cell 30 high and 34 wide plus the indentation, and 16 pixels of
/// indentation per level (both cut to 16 bits).
pub open spec fn entry_row(
    path: Seq<char>,
    title: Seq<char>,
    icon: Seq<char>,
    depth: nat,
    hovered: Option<Seq<char>>,
) -> RowView {
    RowView::Entry {
        path: path,
        title: title,
        icon: icon,
        hovered: hovered == Some(path),
        indent: indent_at(depth),
        icon_width: (34 + depth * 16) as int % 65536,
        icon_height: ICON_HEIGHT as int,
        height: ROW_HEIGHT as int,
        spacing: ROW_SPACING as int,
        padding_vertical: ROW_PADDING_VERTICAL as int,
        padding_horizontal: ROW_PADDING_HORIZONTAL as int,
    }
}

/// The icon of an entry, or a generic one.
pub open spec fn item_icon(item: MenuItem) -> Seq<char> {
    match item.icon {
        Some(i) => i@,
        None => "text-x-generic"@,
    }
}

/// The rows of the entries `items` at `depth` under `parent`, each unfolded
/// submenu followed by a column of its own rows one level deeper.
pub open spec fn level_rows(
    items: Seq<MenuItem>,
    depth: nat,
    parent: Option<Seq<char>>,
    expanded: Option<Seq<char>>,
    hovered: Option<Seq<char>>,
) -> Seq<RowView>
    decreases items,
{
    if items.len() == 0 {
        Seq::<RowView>::empty()
    } else {
        let item = items.last();
        let path = entry_path(parent, item.title@);
        let own = level_rows(items.drop_last(), depth, parent, expanded, hovered).push(
            entry_row(path, item.title@, item_icon(item), depth, hovered),
        );
        match item.submenu {
            Some(sub) => if unfolds(path, expanded) {
                own + seq![spacer_row()] + level_rows(sub@, depth + 1, Some(path), expanded, hovered)
                    + seq![spacer_row()]
            } else {
                own
            },
            None => own,
        }
    }
}

/// The built-in rows at the foot of the top level: a divider, then
/// "Edit commands.json" and "Reload".
pub open spec fn builtin_rows(hovered: Option<Seq<char>>) -> Seq<RowView> {
    seq![
        RowView::Divider(DIVIDER_HEIGHT as int),
        entry_row(EDIT_PATH@, "Edit commands.json"@, "accessories-text-editor-symbolic"@, 0, hovered),
        entry_row(RELOAD_PATH@, "Reload"@, "view-refresh-symbolic"@, 0, hovered),
    ]
}

/// A column of entries at `depth`: a gap, the entries, the built-in rows at
/// the top level, and a gap.
pub open spec fn column_rows(
    items: Seq<MenuItem>,
    depth: nat,
    parent: Option<Seq<char>>,
    expanded: Option<Seq<char>>,
    hovered: Option<Seq<char>>,
) -> Seq<RowView> {
    seq![spacer_row()] + level_rows(items, depth, parent, expanded, hovered) + (if depth == 0 {
        builtin_rows(hovered)
    } else {
        Seq::<RowView>::empty()
    }) + seq![spacer_row()]
}

/// The rows of the popup for the state `s`.
pub open spec fn menu_rows<C>(s: ModelView<C>) -> Seq<RowView> {
    column_rows(s.menus, 0, None, s.expanded, s.hovered)
}

/// What every row of the popup satisfies whatever the menu: an entry is
/// highlighted exactly when its own path is the hovered one; entries are 34
/// pixels high with an icon cell 30 high, spacing 8 and padding 2 and 10;
/// the icon cell is 34 pixels wider than the indentation (in 16 bits); gaps
/// are 8 pixels high and the divider 1.
pub open spec fn row_well_formed(r: RowView, hovered: Option<Seq<char>>) -> bool {
    match r {
        RowView::Spacer(h) => h == 8,
        RowView::Divider(h) => h == 1,
        RowView::Entry {
            path,
            hovered: lit,
            indent,
            icon_width,
            icon_height,
            height,
            spacing,
            padding_vertical,
            padding_horizontal,
            ..
        } => {
            &&& lit == (hovered == Some(path))
            &&& 0 <= indent < 65536
            &&& icon_width == (34 + indent) % 65536
            &&& icon_height == 30
            &&& height == 34
            &&& spacing == 8
            &&& padding_vertical == 2
            &&& padding_horizontal == 10
        },
    }
}

/// Every row of `rows` is well formed.
pub open spec fn rows_well_formed(rows: Seq<RowView>, hovered: Option<Seq<char>>) -> bool {
    forall|k: int| 0 <= k < rows.len() ==> row_well_formed(#[trigger] rows[k], hovered)
}

proof fn lemma_entry_row_well_formed(
    path: Seq<char>,
    title: Seq<char>,
    icon: Seq<char>,
    depth: nat,
    hovered: Option<Seq<char>>,
)
    ensures
        row_well_formed(entry_row(path, title, icon, depth, hovered), hovered),
{
    vstd::arithmetic::div_mod::lemma_add_mod_noop_right(34, (depth * 16) as int, 65536);
    vstd::arithmetic::div_mod::lemma_mod_bound((depth * 16) as int, 65536);
}

proof fn lemma_concat_well_formed(a: Seq<RowView>, b: Seq<RowView>, hovered: Option<Seq<char>>)
    requires
        rows_well_formed(a, hovered),
        rows_well_formed(b, hovered),
    ensures
        rows_well_formed(a + b, hovered),
{
    assert forall|k: int| 0 <= k < (a + b).len() implies row_well_formed(#[trigger] (a + b)[k], hovered) by {
        if k < a.len() {
            assert((a + b)[k] == a[k]);
        } else {
            assert((a + b)[k] == b[k - a.len()]);
        }
    }
}

proof fn lemma_level_rows_well_formed(
    items: Seq<MenuItem>,
    depth: nat,
    parent: Option<Seq<char>>,
    expanded: Option<Seq<char>>,
    hovered: Option<Seq<char>>,
)
    ensures
        rows_well_formed(level_rows(items, depth, parent, expanded, hovered), hovered),
    decreases items,
{
    if items.len() > 0 {
        let item = items.last();
        let path = entry_path(parent, item.title@);
        let prev = level_rows(items.drop_last(), depth, parent, expanded, hovered);
        let row = entry_row(path, item.title@, item_icon(item), depth, hovered);
        lemma_level_rows_well_formed(items.drop_last(), depth, parent, expanded, hovered);
        lemma_entry_row_well_formed(path, item.title@, item_icon(item), depth, hovered);
        lemma_concat_well_formed(prev, seq![row], hovered);
        let own = prev.push(row);
        assert(own =~= prev + seq![row]);
        match item.submenu {
            Some(sub) => if unfolds(path, expanded) {
                assert(decreases_to!(items => items.last()));
                assert(decreases_to!(items.last() => items.last().submenu));
                assert(decreases_to!(items.last().submenu => sub));
                assert(decreases_to!(sub => sub@));
                lemma_level_rows_well_formed(sub@, depth + 1, Some(path), expanded, hovered);
                let inner = level_rows(sub@, depth + 1, Some(path), expanded, hovered);
                assert(rows_well_formed(seq![spacer_row()], hovered));
                lemma_concat_well_formed(own, seq![spacer_row()], hovered);
                lemma_concat_well_formed(own + seq![spacer_row()], inner, hovered);
                lemma_concat_well_formed(own + seq![spacer_row()] + inner, seq![spacer_row()], hovered);
            },
            None => {},
        }
    } else {
        assert(rows_well_formed(level_rows(items, depth, parent, expanded, hovered), hovered));
    }
}

/// Every row of the popup is well formed (see `row_well_formed`): in
/// particular an entry is highlighted exactly when its own path is the
/// hovered path, so no row is highlighted for another's sake.
pub proof fn law_rows_well_formed<C>(s: ModelView<C>)
    ensures
        rows_well_formed(menu_rows(s), s.hovered),
{
    let hv = s.hovered;
    lemma_level_rows_well_formed(s.menus, 0, None, s.expanded, hv);
    let body = level_rows(s.menus, 0, None, s.expanded, hv);
    lemma_entry_row_well_formed(EDIT_PATH@, "Edit commands.json"@, "accessories-text-editor-symbolic"@, 0, hv);
    lemma_entry_row_well_formed(RELOAD_PATH@, "Reload"@, "view-refresh-symbolic"@, 0, hv);
    let b = builtin_rows(hv);
    assert(rows_well_formed(b, hv)) by {
        assert forall|k: int| 0 <= k < b.len() implies row_well_formed(#[trigger] b[k], hv) by {
            if k == 0 {
            } else if k == 1 {
            } else {
            }
        }
    }
    assert(rows_well_formed(seq![spacer_row()], hv));
    lemma_concat_well_formed(seq![spacer_row()], body, hv);
    lemma_concat_well_formed(seq![spacer_row()] + body, b, hv);
    lemma_concat_well_formed(seq![spacer_row()] + body + b, seq![spacer_row()], hv);
}

/// The row `r` shows an entry with this path, title and icon, indented by
/// `indent` pixels with an icon cell 34 pixels wider.
pub open spec fn shows_entry(r: RowView, path: Seq<char>, title: Seq<char>, icon: Seq<char>, indent: int) -> bool {
    &&& r is Entry
    &&& r->Entry_path == path
    &&& r->Entry_title == title
    &&& r->Entry_icon == icon
    &&& r->Entry_indent == indent
    &&& r->Entry_icon_width == 34 + indent
}

/// The icon an entry's row shows: its own, or `text-x-generic`.
pub open spec fn shown_icon(item: MenuItem) -> Seq<char> {
    match item.icon {
        Some(i) => i@,
        None => "text-x-generic"@,
    }
}

/// The rows of `items` one after the other, none unfolded.
spec fn plain_rows(
    items: Seq<MenuItem>,
    depth: nat,
    parent: Option<Seq<char>>,
    hovered: Option<Seq<char>>,
) -> Seq<RowView> {
    Seq::new(
        items.len(),
        |k: int| entry_row(entry_path(parent, items[k].title@), items[k].title@, item_icon(items[k]), depth, hovered),
    )
}

proof fn lemma_plain_rows(
    items: Seq<MenuItem>,
    depth: nat,
    parent: Option<Seq<char>>,
    expanded: Option<Seq<char>>,
    hovered: Option<Seq<char>>,
)
    requires
        forall|k: int|
            0 <= k < items.len() ==> (#[trigger] items[k]).submenu is None || !unfolds(
                entry_path(parent, items[k].title@),
                expanded,
            ),
    ensures
        level_rows(items, depth, parent, expanded, hovered) == plain_rows(items, depth, parent, hovered),
    decreases items.len(),
{
    if items.len() > 0 {
        let init = items.drop_last();
        assert forall|k: int| 0 <= k < init.len() implies (#[trigger] init[k]).submenu is None || !unfolds(
            entry_path(parent, init[k].title@),
            expanded,
        ) by {
            assert(init[k] == items[k]);
        }
        lemma_plain_rows(init, depth, parent, expanded, hovered);
        assert(items.last() == items[items.len() - 1]);
        assert(level_rows(items, depth, parent, expanded, hovered) =~= plain_rows(items, depth, parent, hovered));
    } else {
        assert(level_rows(items, depth, parent, expanded, hovered) =~= plain_rows(items, depth, parent, hovered));
    }
}

proof fn lemma_level_rows_concat(
    a: Seq<MenuItem>,
    b: Seq<MenuItem>,
    depth: nat,
    parent: Option<Seq<char>>,
    expanded: Option<Seq<char>>,
    hovered: Option<Seq<char>>,
)
    ensures
        level_rows(a + b, depth, parent, expanded, hovered) == level_rows(a, depth, parent, expanded, hovered)
            + level_rows(b, depth, parent, expanded, hovered),
    decreases b.len(),
{
    if b.len() == 0 {
        assert(a + b =~= a);
        assert(level_rows(b, depth, parent, expanded, hovered) =~= Seq::<RowView>::empty());
        assert(level_rows(a, depth, parent, expanded, hovered) + Seq::<RowView>::empty() =~= level_rows(
            a,
            depth,
            parent,
            expanded,
            hovered,
        ));
    } else {
        lemma_level_rows_concat(a, b.drop_last(), depth, parent, expanded, hovered);
        assert((a + b).drop_last() =~= a + b.drop_last());
        assert((a + b).last() == b.last());
        let la = level_rows(a, depth, parent, expanded, hovered);
        let lb = level_rows(b.drop_last(), depth, parent, expanded, hovered);
        let item = b.last();
        let path = entry_path(parent, item.title@);
        let row = entry_row(path, item.title@, item_icon(item), depth, hovered);
        assert((la + lb).push(row) =~= la + lb.push(row));
        match item.submenu {
            Some(sub) => if unfolds(path, expanded) {
                let inner = level_rows(sub@, depth + 1, Some(path), expanded, hovered);
                assert((la + lb).push(row) + seq![spacer_row()] + inner + seq![spacer_row()] =~= la + (lb.push(
                    row,
                ) + seq![spacer_row()] + inner + seq![spacer_row()]));
            },
            None => {},
        }
    }
}

/// With no submenu unfolded, the popup shows a gap, one row per top-level
/// entry in menu order (path and title the entry's title, its icon or
/// `text-x-generic`, no indentation), the divider, the "Edit commands.json"
/// and "Reload" rows, and a gap.
pub proof fn law_folded_menu_rows<C>(s: ModelView<C>)
    requires
        s.expanded is None,
    ensures
        menu_rows(s).len() == s.menus.len() + 5,
        menu_rows(s)[0] == RowView::Spacer(8),
        forall|k: int|
            0 <= k < s.menus.len() ==> shows_entry(
                #[trigger] menu_rows(s)[k + 1],
                s.menus[k].title@,
                s.menus[k].title@,
                shown_icon(s.menus[k]),
                0,
            ),
        menu_rows(s)[s.menus.len() as int + 1] == RowView::Divider(1),
        shows_entry(
            menu_rows(s)[s.menus.len() as int + 2],
            "__edit__"@,
            "Edit commands.json"@,
            "accessories-text-editor-symbolic"@,
            0,
        ),
        shows_entry(menu_rows(s)[s.menus.len() as int + 3], "__reload__"@, "Reload"@, "view-refresh-symbolic"@, 0),
        menu_rows(s)[s.menus.len() as int + 4] == RowView::Spacer(8),
{
    let hv = s.hovered;
    lemma_plain_rows(s.menus, 0, None, s.expanded, hv);
    let body = plain_rows(s.menus, 0, None, hv);
    let rows = menu_rows(s);
    assert(rows =~= seq![spacer_row()] + body + builtin_rows(hv) + seq![spacer_row()]);
    assert forall|k: int| 0 <= k < s.menus.len() implies shows_entry(
        #[trigger] menu_rows(s)[k + 1],
        s.menus[k].title@,
        s.menus[k].title@,
        shown_icon(s.menus[k]),
        0,
    ) by {
        assert(rows[k + 1] == body[k]);
    }
    assert(rows[s.menus.len() as int + 2] == builtin_rows(hv)[1]);
    assert(rows[s.menus.len() as int + 3] == builtin_rows(hv)[2]);
}

/// With a top-level submenu unfolded whose title holds no `/` and is shared
/// by no other top-level entry, the popup shows the top-level rows as when
/// folded, and right after that submenu's row a gap, one row per entry of
/// the submenu (path the two titles joined by `/`, indented 16 pixels), and
/// a gap.
#[verifier::rlimit(50)]
pub proof fn law_unfolded_submenu_rows<C>(s: ModelView<C>, i: int)
    requires
        0 <= i < s.menus.len(),
        s.menus[i].submenu is Some,
        s.expanded == Some(s.menus[i].title@),
        no_separator(s.menus[i].title@),
        forall|j: int| 0 <= j < s.menus.len() && j != i ==> s.menus[j].title@ != s.menus[i].title@,
    ensures
        ({
            let rows = menu_rows(s);
            let sub = s.menus[i].submenu->0@;
            let t = s.menus[i].title@;
            let m = sub.len();
            &&& rows.len() == s.menus.len() + m + 7
            &&& rows[0] == RowView::Spacer(8)
            &&& forall|k: int|
                0 <= k <= i ==> shows_entry(
                    #[trigger] rows[k + 1],
                    s.menus[k].title@,
                    s.menus[k].title@,
                    shown_icon(s.menus[k]),
                    0,
                )
            &&& rows[i + 2] == RowView::Spacer(8)
            &&& forall|j: int|
                0 <= j < m ==> shows_entry(
                    #[trigger] rows[i + 3 + j],
                    t + "/"@ + sub[j].title@,
                    sub[j].title@,
                    shown_icon(sub[j]),
                    16,
                )
            &&& rows[i + 3 + m] == RowView::Spacer(8)
            &&& forall|k: int|
                i < k < s.menus.len() ==> shows_entry(
                    #[trigger] rows[k + m + 3],
                    s.menus[k].title@,
                    s.menus[k].title@,
                    shown_icon(s.menus[k]),
                    0,
                )
            &&& rows[s.menus.len() + m as int + 3] == RowView::Divider(1)
            &&& rows[s.menus.len() + m as int + 6] == RowView::Spacer(8)
        }),
{
    reveal_strlit("/");
    let hv = s.hovered;
    let ex = s.expanded;
    let menus = s.menus;
    let t = menus[i].title@;
    let sub = menus[i].submenu->0@;
    let m = sub.len();
    let before = menus.take(i);
    let one = seq![menus[i]];
    let after = menus.skip(i + 1);
    assert(menus =~= before + one + after);
    assert forall|k: int| 0 <= k < before.len() implies (#[trigger] before[k]).submenu is None || !unfolds(
        entry_path(None, before[k].title@),
        ex,
    ) by {
        assert(before[k] == menus[k]);
        let tk = menus[k].title@;
        if tk.len() < t.len() {
            assert(t[tk.len() as int] != separator());
        }
    }
    assert forall|k: int| 0 <= k < after.len() implies (#[trigger] after[k]).submenu is None || !unfolds(
        entry_path(None, after[k].title@),
        ex,
    ) by {
        assert(after[k] == menus[k + i + 1]);
        let tk = menus[k + i + 1].title@;
        if tk.len() < t.len() {
            assert(t[tk.len() as int] != separator());
        }
    }
    assert forall|j: int| 0 <= j < sub.len() implies (#[trigger] sub[j]).submenu is None || !unfolds(
        entry_path(Some(t), sub[j].title@),
        ex,
    ) by {
        assert(entry_path(Some(t), sub[j].title@).len() > t.len());
    }
    lemma_plain_rows(before, 0, None, ex, hv);
    lemma_plain_rows(after, 0, None, ex, hv);
    lemma_plain_rows(sub, 1, Some(t), ex, hv);
    lemma_level_rows_concat(before + one, after, 0, None, ex, hv);
    lemma_level_rows_concat(before, one, 0, None, ex, hv);
    let pb = plain_rows(before, 0, None, hv);
    let pa = plain_rows(after, 0, None, hv);
    let ps = plain_rows(sub, 1, Some(t), hv);
    let row_i = entry_row(t, t, item_icon(menus[i]), 0, hv);
    assert(one.drop_last() =~= Seq::<MenuItem>::empty());
    assert(level_rows(Seq::<MenuItem>::empty(), 0, None, ex, hv) =~= Seq::<RowView>::empty());
    assert(level_rows(one, 0, None, ex, hv) =~= seq![row_i, spacer_row()] + ps + seq![spacer_row()]);
    let rows = menu_rows(s);
    assert(rows =~= seq![spacer_row()] + pb + seq![row_i, spacer_row()] + ps + seq![spacer_row()] + pa
        + builtin_rows(hv) + seq![spacer_row()]);
    assert forall|k: int| 0 <= k <= i implies shows_entry(
        #[trigger] rows[k + 1],
        menus[k].title@,
        menus[k].title@,
        shown_icon(menus[k]),
        0,
    ) by {
        if k < i {
            assert(rows[k + 1] == pb[k]);
        } else {
            assert(rows[k + 1] == row_i);
        }
    }
    assert forall|j: int| 0 <= j < m implies shows_entry(
        #[trigger] rows[i + 3 + j],
        t + "/"@ + sub[j].title@,
        sub[j].title@,
        shown_icon(sub[j]),
        16,
    ) by {
        assert(rows[i + 3 + j] == ps[j]);
        assert(entry_path(Some(t), sub[j].title@) =~= t + "/"@ + sub[j].title@);
    }
    assert forall|k: int| i < k < menus.len() implies shows_entry(
        #[trigger] rows[k + m + 3],
        menus[k].title@,
        menus[k].title@,
        shown_icon(menus[k]),
        0,
    ) by {
        assert(rows[k + m + 3] == pa[k - i - 1]);
        assert(after[k - i - 1] == menus[k]);
    }
}

fn entry_path_string(parent: Option<&String>, title: &String) -> (path: String)
    ensures
        path@ == entry_path(
            match parent {
                Some(p) => Some(p@),
                None => None,
            },
            title@,
        ),
{
    match parent {
        Some(p) => {
            let mut path = p.clone();
            path.append("/");
            path.append(title.as_str());
            proof {
                reveal_strlit("/");
            }
            path
        },
        None => title.clone(),
    }
}

fn matches_path(o: &Option<String>, path: &String) -> (res: bool)
    ensures
        res == (opt_view(*o) == Some(path@)),
{
    match o {
        Some(s) => *s == *path,
        None => false,
    }
}

fn entry(
    path: String,
    title: String,
    icon: String,
    indent: u16,
    Ghost(depth): Ghost<nat>,
    hovered: &Option<String>,
) -> (row: MenuRow)
    requires
        indent as int == indent_at(depth),
    ensures
        row@ == entry_row(path@, title@, icon@, depth, opt_view(*hovered)),
{
    let is_hovered = matches_path(hovered, &path);
    let width: u32 = (34u32 + indent as u32) % 65536;
    proof {
        vstd::arithmetic::div_mod::lemma_add_mod_noop_right(34, (depth * 16) as int, 65536);
    }
    MenuRow::Entry(MenuEntry {
        path,
        title,
        icon,
        hovered: is_hovered,
        indent,
        icon_width: width as u16,
        icon_height: ICON_HEIGHT,
        height: ROW_HEIGHT,
        spacing: ROW_SPACING,
        padding_vertical: ROW_PADDING_VERTICAL,
        padding_horizontal: ROW_PADDING_HORIZONTAL,
    })
}

fn icon_of(item: &MenuItem) -> (icon: String)
    ensures
        icon@ == item_icon(*item),
{
    match &item.icon {
        Some(i) => i.clone(),
        None => String::from_str("text-x-generic"),
    }
}

fn deeper(indent: u16, Ghost(depth): Ghost<nat>) -> (res: u16)
    requires
        indent as int == indent_at(depth),
    ensures
        res as int == indent_at(depth + 1),
{
    let next: u32 = (indent as u32 + 16) % 65536;
    proof {
        vstd::arithmetic::div_mod::lemma_add_mod_noop((depth * 16) as int, 16, 65536);
        vstd::arithmetic::div_mod::lemma_small_mod(16, 65536);
        assert((depth + 1) * 16 == depth * 16 + 16) by (nonlinear_arith);
    }
    next as u16
}

/// Appends to `out` the rows of `items` at `depth` under `parent`, with
/// `indent` the indentation at that depth.
fn push_level(
    items: &[MenuItem],
    Ghost(depth): Ghost<nat>,
    indent: u16,
    parent: Option<&String>,
    expanded: &Option<String>,
    hovered: &Option<String>,
    out: &mut Vec<MenuRow>,
)
    requires
        indent as int == indent_at(depth),
    ensures
        rows_view(final(out)@) == rows_view(old(out)@) + level_rows(
            items@,
            depth,
            match parent {
                Some(p) => Some(p@),
                None => None,
            },
            opt_view(*expanded),
            opt_view(*hovered),
        ),
    decreases items@,
{
    let ghost parent_view = match parent {
        Some(p) => Some(p@),
        None => None,
    };
    let ghost ex = opt_view(*expanded);
    let ghost hv = opt_view(*hovered);
    let ghost start = rows_view(out@);
    assert(rows_view(out@) =~= start + level_rows(items@.take(0), depth, parent_view, ex, hv));
    for i in 0..items.len()
        invariant
            indent as int == indent_at(depth),
            parent_view == match parent {
                Some(p) => Some(p@),
                None => None,
            },
            ex == opt_view(*expanded),
            hv == opt_view(*hovered),
            rows_view(out@) == start + level_rows(items@.take(i as int), depth, parent_view, ex, hv),
    {
        let item = &items[i];
        let path = entry_path_string(parent, &item.title);
        let ghost before = rows_view(out@);
        let row = entry(path.clone(), item.title.clone(), icon_of(item), indent, Ghost(depth), hovered);
        out.push(row);
        let ghost taken = items@.take(i + 1);
        assert(taken.drop_last() =~= items@.take(i as int));
        assert(taken.last() == items@[i as int]);
        assert(rows_view(out@) =~= before.push(row@));
        match &item.submenu {
            Some(sub) => {
                if is_unfolded(&path, expanded) {
                    let ghost mid = rows_view(out@);
                    out.push(MenuRow::Spacer(SPACER_HEIGHT));
                    assert(rows_view(out@) =~= mid.push(spacer_row()));
                    proof {
                        assert(decreases_to!(items@ => items@[i as int]));
                        assert(decreases_to!(items@[i as int] => items@[i as int].submenu));
                        assert(decreases_to!(items@[i as int].submenu => *sub));
                        assert(decreases_to!(*sub => sub@));
                    }
                    let ghost before_sub = rows_view(out@);
                    push_level(
                        sub.as_slice(),
                        Ghost(depth + 1),
                        deeper(indent, Ghost(depth)),
                        Some(&path),
                        expanded,
                        hovered,
                        out,
                    );
                    let ghost after_sub = rows_view(out@);
                    out.push(MenuRow::Spacer(SPACER_HEIGHT));
                    assert(rows_view(out@) =~= after_sub.push(spacer_row()));
                    assert(rows_view(out@) =~= start + level_rows(taken, depth, parent_view, ex, hv));
                } else {
                    assert(rows_view(out@) =~= start + level_rows(taken, depth, parent_view, ex, hv));
                }
            },
            None => {
                assert(rows_view(out@) =~= start + level_rows(taken, depth, parent_view, ex, hv));
            },
        }
    }
    assert(items@.take(items@.len() as int) =~= items@);
}

impl<C> AppModel<C> {
    /// The rows of the popup, top to bottom.
    pub fn render_menu(&self) -> (rows: Vec<MenuRow>)
        ensures
            rows_view(rows@) == menu_rows(self@),
    {
        let mut rows: Vec<MenuRow> = Vec::new();
        rows.push(MenuRow::Spacer(SPACER_HEIGHT));
        push_level(
            self.menus.as_slice(),
            Ghost(0),
            0,
            None,
            &self.expanded,
            &self.hovered,
            &mut rows,
        );
        let ghost body = rows_view(rows@);
        rows.push(MenuRow::Divider(DIVIDER_HEIGHT));
        rows.push(
            entry(
                String::from_str(EDIT_PATH),
                String::from_str("Edit commands.json"),
                String::from_str("accessories-text-editor-symbolic"),
                0,
                Ghost(0),
                &self.hovered,
            ),
        );
        rows.push(
            entry(
                String::from_str(RELOAD_PATH),
                String::from_str("Reload"),
                String::from_str("view-refresh-symbolic"),
                0,
                Ghost(0),
                &self.hovered,
            ),
        );
        assert(rows_view(rows@) =~= body + builtin_rows(opt_view(self.hovered)));
        let ghost foot = rows_view(rows@);
        rows.push(MenuRow::Spacer(SPACER_HEIGHT));
        assert(rows_view(rows@) =~= foot.push(spacer_row()));
        assert(rows_view(rows@) =~= menu_rows(self@));
        rows
    }
}

} // verus!
