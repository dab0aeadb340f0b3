//! The menu tree that the configuration file describes, and lookup by path.

use vstd::prelude::*;
use crate::path::{lemma_segments_append, lemma_single_segment, no_separator, path_segments, separator};
use crate::applet::opt_view;
use crate::text::chars_of;

verus! {

/// One entry of the menu: a command to run, or a submenu of further entries.
#[derive(Debug, PartialEq, Eq)]
pub struct MenuItem {
    pub title: String,
    /// The `type` field of the configuration (such as `"submenu"`); informative only.
    pub item_type: Option<String>,
    pub command: Option<String>,
    pub submenu: Option<Vec<MenuItem>>,
    pub icon: Option<String>,
    /// Whether the command runs in a terminal emulator; absent means it does not.
    pub terminal: Option<bool>,
}

/// The whole configuration file.
#[derive(Debug, PartialEq, Eq)]
pub struct MenuConfig {
    pub menu: Vec<MenuItem>,
    pub icon: Option<String>,
    pub terminal: Option<String>,
}

/// `a` and `b` hold the same entry: the same texts and flags, and submenus
/// of the same length whose entries are pairwise the same.
pub open spec fn same_item(a: MenuItem, b: MenuItem) -> bool
    decreases a,
{
    &&& a.title@ == b.title@
    &&& opt_view(a.item_type) == opt_view(b.item_type)
    &&& opt_view(a.command) == opt_view(b.command)
    &&& opt_view(a.icon) == opt_view(b.icon)
    &&& a.terminal == b.terminal
    &&& match a.submenu {
        Some(x) => match b.submenu {
            Some(y) => x@.len() == y@.len() && forall|k: int|
                0 <= k < x@.len() ==> same_item(#[trigger] x@[k], y@[k]),
            None => false,
        },
        None => b.submenu is None,
    }
}

fn clone_opt_string(o: &Option<String>) -> (res: Option<String>)
    ensures
        opt_view(res) == opt_view(*o),
{
    match o {
        Some(s) => Some(s.clone()),
        None => None,
    }
}

impl Clone for MenuItem {
    /// A copy of the entry and of its whole submenu tree.
    fn clone(&self) -> (res: Self)
        ensures
            same_item(*self, res),
        decreases self,
    {
        let submenu = match &self.submenu {
            Some(items) => {
                let mut copy: Vec<MenuItem> = Vec::new();
                for i in 0..items.len()
                    invariant
                        self.submenu is Some,
                        self.submenu->0 == *items,
                        copy@.len() == i,
                        forall|k: int| 0 <= k < i ==> same_item(#[trigger] items@[k], copy@[k]),
                {
                    proof {
                        assert(decreases_to!(*self => self.submenu));
                        assert(self.submenu->0 == *items);
                        assert(decreases_to!(self.submenu => self.submenu->0));
                        assert(decreases_to!(*items => items@));
                        assert(decreases_to!(items@ => items@[i as int]));
                    }
                    let c = items[i].clone();
                    copy.push(c);
                }
                Some(copy)
            },
            None => None,
        };
        MenuItem {
            title: self.title.clone(),
            item_type: clone_opt_string(&self.item_type),
            command: clone_opt_string(&self.command),
            submenu,
            icon: clone_opt_string(&self.icon),
            terminal: self.terminal,
        }
    }
}

/// `k` is the first position in `items` whose title is `title`.
pub open spec fn titled_at(items: Seq<MenuItem>, title: Seq<char>, k: int) -> bool {
    &&& 0 <= k < items.len()
    &&& items[k].title@ == title
    &&& forall|j: int| 0 <= j < k ==> items[j].title@ != title
}

/// The first position in `items` whose title is `title`, if there is one.
pub open spec fn first_titled(items: Seq<MenuItem>, title: Seq<char>) -> Option<int> {
    if exists|k: int| titled_at(items, title, k) {
        Some(choose|k: int| titled_at(items, title, k))
    } else {
        None
    }
}

/// The entry that a path of titles leads to: each title picks the first entry
/// with that title, and every title but the last must pick a submenu.
pub open spec fn lookup_segments(items: Seq<MenuItem>, segs: Seq<Seq<char>>) -> Option<MenuItem>
    decreases segs.len(),
{
    if segs.len() == 0 {
        None
    } else {
        match first_titled(items, segs[0]) {
            None => None,
            Some(k) => if segs.len() == 1 {
                Some(items[k])
            } else {
                match items[k].submenu {
                    Some(sub) => lookup_segments(sub@, segs.drop_first()),
                    None => None,
                }
            },
        }
    }
}

/// The entry that the menu path `path` leads to in `items`.
pub open spec fn lookup_path(items: Seq<MenuItem>, path: Seq<char>) -> Option<MenuItem> {
    lookup_segments(items, path_segments(path))
}

/// The path of an entry titled `title` under the entry whose path is `parent`
/// (`None` at the top level).
pub open spec fn entry_path(parent: Option<Seq<char>>, title: Seq<char>) -> Seq<char> {
    match parent {
        Some(p) => p + seq![separator()] + title,
        None => title,
    }
}

/// The first position is the only one.
pub proof fn lemma_titled_at_unique(items: Seq<MenuItem>, title: Seq<char>, k: int)
    requires
        titled_at(items, title, k),
    ensures
        first_titled(items, title) == Some(k),
{
    let c = choose|k: int| titled_at(items, title, k);
    assert(titled_at(items, title, c));
    if c < k {
        assert(items[c].title@ != title);
    }
    if k < c {
        assert(items[k].title@ != title);
    }
}

/// `idx` picks, level by level, a chain of entries down the tree `items`:
/// each pick is inside its list, has a title with no `/` that no earlier
/// entry of its list shares, and every pick but the last is a submenu.
pub open spec fn chain_ok(items: Seq<MenuItem>, idx: Seq<int>) -> bool
    decreases idx.len(),
{
    &&& idx.len() >= 1
    &&& 0 <= idx[0] < items.len()
    &&& no_separator(items[idx[0]].title@)
    &&& titled_at(items, items[idx[0]].title@, idx[0])
    &&& idx.len() > 1 ==> {
        &&& items[idx[0]].submenu is Some
        &&& chain_ok(items[idx[0]].submenu->0@, idx.drop_first())
    }
}

/// The entry at the end of the chain `idx`.
pub open spec fn chain_item(items: Seq<MenuItem>, idx: Seq<int>) -> MenuItem
    decreases idx.len(),
{
    if idx.len() <= 1 {
        items[idx[0]]
    } else {
        chain_item(items[idx[0]].submenu->0@, idx.drop_first())
    }
}

/// The titles along the chain `idx`.
pub open spec fn chain_titles(items: Seq<MenuItem>, idx: Seq<int>) -> Seq<Seq<char>>
    decreases idx.len(),
{
    if idx.len() <= 1 {
        seq![items[idx[0]].title@]
    } else {
        seq![items[idx[0]].title@] + chain_titles(items[idx[0]].submenu->0@, idx.drop_first())
    }
}

/// The path that the popup gives the row at the end of the chain `idx`,
/// built as the rows build it, one `entry_path` per level below `parent`.
pub open spec fn chain_path(items: Seq<MenuItem>, idx: Seq<int>, parent: Option<Seq<char>>) -> Seq<char>
    decreases idx.len(),
{
    let here = entry_path(parent, items[idx[0]].title@);
    if idx.len() <= 1 {
        here
    } else {
        chain_path(items[idx[0]].submenu->0@, idx.drop_first(), Some(here))
    }
}

proof fn lemma_chain_segments(items: Seq<MenuItem>, idx: Seq<int>, parent: Option<Seq<char>>)
    requires
        chain_ok(items, idx),
    ensures
        path_segments(chain_path(items, idx, parent)) == match parent {
            Some(p) => path_segments(p) + chain_titles(items, idx),
            None => chain_titles(items, idx),
        },
    decreases idx.len(),
{
    let t = items[idx[0]].title@;
    let here = entry_path(parent, t);
    match parent {
        Some(p) => {
            lemma_segments_append(p, t);
        },
        None => {
            lemma_single_segment(t);
        },
    }
    if idx.len() > 1 {
        let sub = items[idx[0]].submenu->0@;
        lemma_chain_segments(sub, idx.drop_first(), Some(here));
        match parent {
            Some(p) => {
                assert(path_segments(p).push(t) + chain_titles(sub, idx.drop_first()) =~= path_segments(p)
                    + chain_titles(items, idx));
            },
            None => {
                assert(seq![t] + chain_titles(sub, idx.drop_first()) =~= chain_titles(items, idx));
            },
        }
    } else {
        match parent {
            Some(p) => {
                assert(path_segments(p).push(t) =~= path_segments(p) + chain_titles(items, idx));
            },
            None => {},
        }
    }
}

proof fn lemma_chain_lookup(items: Seq<MenuItem>, idx: Seq<int>)
    requires
        chain_ok(items, idx),
    ensures
        lookup_segments(items, chain_titles(items, idx)) == Some(chain_item(items, idx)),
    decreases idx.len(),
{
    let k = idx[0];
    let t = items[k].title@;
    lemma_titled_at_unique(items, t, k);
    let ts = chain_titles(items, idx);
    assert(ts[0] == t);
    if idx.len() > 1 {
        let sub = items[k].submenu->0@;
        lemma_chain_lookup(sub, idx.drop_first());
        assert(ts.drop_first() =~= chain_titles(sub, idx.drop_first()));
    }
}

/// The path that the popup gives any entry's row leads back to that entry,
/// however deep it sits: when each title along the way holds no `/` and is
/// the first of its list with that title, `lookup_path` on the row's path
/// finds the entry, so a click on a row acts on the entry it shows.
pub proof fn law_row_path_finds_entry(items: Seq<MenuItem>, idx: Seq<int>)
    requires
        chain_ok(items, idx),
    ensures
        lookup_path(items, chain_path(items, idx, None)) == Some(chain_item(items, idx)),
{
    lemma_chain_segments(items, idx, None);
    lemma_chain_lookup(items, idx);
}

/// Whether two character sequences are equal.
pub fn same_chars(a: &Vec<char>, b: &Vec<char>) -> (res: bool)
    ensures
        res == (a@ == b@),
{
    if a.len() != b.len() {
        return false;
    }
    for i in 0..a.len()
        invariant
            a.len() == b.len(),
            forall|j: int| 0 <= j < i ==> a@[j] == b@[j],
    {
        if a[i] != b[i] {
            return false;
        }
    }
    assert(a@ =~= b@);
    true
}

/// The first position in `items` whose title is `title`.
pub fn find_titled(items: &[MenuItem], title: &Vec<char>) -> (res: Option<usize>)
    ensures
        match res {
            Some(k) => first_titled(items@, title@) == Some(k as int),
            None => first_titled(items@, title@) is None,
        },
{
    for i in 0..items.len()
        invariant
            forall|j: int| 0 <= j < i ==> items@[j].title@ != title@,
    {
        let t = chars_of(items[i].title.as_str());
        if same_chars(&t, title) {
            proof {
                lemma_titled_at_unique(items@, title@, i as int);
            }
            return Some(i);
        }
    }
    assert(!exists|k: int| titled_at(items@, title@, k));
    None
}

} // verus!
