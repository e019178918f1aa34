//! Menus: a dropdown menu whose entries are items and separators, and a
//! menu bar whose menus open one at a time.
use vstd::prelude::*;
use crate::events::{Cursor, Response, Status};

verus! {

/// An entry of a dropdown menu.
pub enum MenuEntry {
    Item(String),
    Separator,
}

/// Number of items (not separators) among the first `n` entries.
pub open spec fn items_before(entries: Seq<MenuEntry>, n: int) -> int
    decreases n,
{
    if n <= 0 {
        0
    } else {
        items_before(entries, n - 1) + if entries[n - 1] is Item { 1int } else { 0int }
    }
}

proof fn lemma_items_before_bound(entries: Seq<MenuEntry>, n: int)
    requires
        0 <= n <= entries.len(),
    ensures
        0 <= items_before(entries, n) <= n,
    decreases n,
{
    if n > 0 {
        lemma_items_before_bound(entries, n - 1);
    }
}

/// The item shown in entry `k`, numbered among items only; separators and
/// positions past the entries show none.
pub open spec fn item_at(entries: Seq<MenuEntry>, k: int) -> Option<usize> {
    if 0 <= k < entries.len() && entries[k] is Item {
        Some(items_before(entries, k) as usize)
    } else {
        None
    }
}

/// A menu opened by a trigger.
pub struct DropdownMenu {
    pub entries: Vec<MenuEntry>,
    pub open: bool,
    pub hover_index: Option<usize>,
}

/// What the owner of a dropdown menu does after an event.
#[derive(Clone, Copy, Debug, PartialEq, Eq, Structural)]
pub struct MenuReply {
    pub response: Response,
    /// An item was chosen: the select callback gets its number.
    pub chosen: Option<usize>,
}

impl DropdownMenu {
    /// A closed menu without entries.
    pub fn new() -> (m: DropdownMenu)
        ensures
            m.entries@.len() == 0,
            !m.open,
            m.hover_index is None,
    {
        DropdownMenu { entries: Vec::new(), open: false, hover_index: None }
    }

    /// Adds an item.
    pub fn item(self, label: String) -> (m: DropdownMenu)
        ensures
            m.entries@ == self.entries@.push(MenuEntry::Item(label)),
            m.open == self.open,
            m.hover_index == self.hover_index,
    {
        let mut m = self;
        m.entries.push(MenuEntry::Item(label));
        m
    }

    /// Adds a separator line.
    pub fn separator(self) -> (m: DropdownMenu)
        ensures
            m.entries@ == self.entries@.push(MenuEntry::Separator),
            m.open == self.open,
            m.hover_index == self.hover_index,
    {
        let mut m = self;
        m.entries.push(MenuEntry::Separator);
        m
    }

    /// The item shown in entry `k`, if it is an item.
    pub fn item_index_at(&self, k: usize) -> (r: Option<usize>)
        ensures
            r == item_at(self.entries@, k as int),
    {
        if k >= self.entries.len() {
            return None;
        }
        let mut count: usize = 0;
        let mut j: usize = 0;
        while j < k
            invariant
                j <= k < self.entries@.len(),
                count == items_before(self.entries@, j as int),
            decreases k - j,
        {
            proof {
                lemma_items_before_bound(self.entries@, j as int);
            }
            match self.entries[j] {
                MenuEntry::Item(_) => {
                    count = count + 1;
                },
                MenuEntry::Separator => {},
            }
            j = j + 1;
        }
        match self.entries[k] {
            MenuEntry::Item(_) => Some(count),
            MenuEntry::Separator => None,
        }
    }

    /// A press: on the trigger (`on_trigger`) it opens or closes the menu;
    /// with the menu open, on entry `entry` of the menu (`None` outside the
    /// menu) it chooses the item there, and any press elsewhere closes it.
    pub fn press(&mut self, on_trigger: bool, entry: Option<usize>) -> (r: MenuReply)
        ensures
            final(self).entries@ == old(self).entries@,
            on_trigger ==> final(self).open == !old(self).open && final(self).hover_index is None
                && r == (MenuReply { response: Response { status: Status::Consumed, cursor: Some(Cursor::Pointer) }, chosen: None }),
            !on_trigger && old(self).open ==> !final(self).open && final(self).hover_index == old(self).hover_index
                && r == (MenuReply {
                    response: Response { status: Status::Consumed, cursor: None },
                    chosen: match entry { Some(k) => item_at(old(self).entries@, k as int), None => None },
                }),
            !on_trigger && !old(self).open ==> *final(self) == *old(self)
                && r == (MenuReply { response: Response { status: Status::Ignored, cursor: None }, chosen: None }),
    {
        if on_trigger {
            self.open = !self.open;
            self.hover_index = None;
            return MenuReply { response: Response::consumed_with(Cursor::Pointer), chosen: None };
        }
        if self.open {
            let chosen = match entry {
                Some(k) => self.item_index_at(k),
                None => None,
            };
            self.open = false;
            return MenuReply { response: Response::consumed(), chosen };
        }
        MenuReply { response: Response::ignored(), chosen: None }
    }

    /// The pointer moved: over the trigger (`on_trigger`), or, with the
    /// menu open, over entry `entry` of the menu (`None` outside it).
    pub fn pointer_moved(&mut self, on_trigger: bool, entry: Option<usize>) -> (r: Response)
        ensures
            final(self).entries@ == old(self).entries@,
            final(self).open == old(self).open,
            old(self).open && entry is Some ==> final(self).hover_index == item_at(old(self).entries@, entry->0 as int)
                && r == (Response { status: Status::Ignored, cursor: Some(Cursor::Pointer) }),
            !(old(self).open && entry is Some) ==> {
                &&& final(self).hover_index == (if old(self).open { None } else { old(self).hover_index })
                &&& r == (if on_trigger {
                    Response { status: Status::Ignored, cursor: Some(Cursor::Pointer) }
                } else {
                    Response { status: Status::Ignored, cursor: None }
                })
            },
    {
        if self.open {
            match entry {
                Some(k) => {
                    self.hover_index = self.item_index_at(k);
                    return Response { status: Status::Ignored, cursor: Some(Cursor::Pointer) };
                },
                None => {
                    self.hover_index = None;
                },
            }
        }
        if on_trigger {
            Response { status: Status::Ignored, cursor: Some(Cursor::Pointer) }
        } else {
            Response::ignored()
        }
    }
}

/// A bar of menus, at most one of them open.
pub struct Menubar {
    pub labels: Vec<String>,
    pub items: Vec<Vec<String>>,
    pub active_menu: Option<usize>,
    pub hover_item: Option<usize>,
}

/// What the owner of a menu bar does after an event.
#[derive(Clone, Copy, Debug)]
pub struct MenubarReply {
    pub response: Response,
    /// An item was chosen: the select callback gets (menu, item).
    pub chosen: Option<(usize, usize)>,
}

impl Menubar {
    /// One item list per menu, and the open menu is one of them.
    pub open spec fn wf(&self) -> bool {
        &&& self.labels@.len() == self.items@.len()
        &&& self.active_menu matches Some(m) ==> m < self.items@.len()
    }

    /// A bar without menus.
    pub fn new() -> (b: Menubar)
        ensures
            b.wf(),
            b.labels@.len() == 0,
            b.active_menu is None,
            b.hover_item is None,
    {
        Menubar { labels: Vec::new(), items: Vec::new(), active_menu: None, hover_item: None }
    }

    /// Adds a menu with its items.
    pub fn menu(self, label: String, items: Vec<String>) -> (b: Menubar)
        requires
            self.wf(),
        ensures
            b.wf(),
            b.labels@ == self.labels@.push(label),
            b.items@ == self.items@.push(items),
            b.active_menu == self.active_menu,
            b.hover_item == self.hover_item,
    {
        let mut b = self;
        b.labels.push(label);
        b.items.push(items);
        b
    }

    /// A released click on the bar, over menu `hit` (`None` between or
    /// beside the menus): that menu opens, or closes when it is the open one.
    pub fn bar_click(&mut self, hit: Option<usize>) -> (r: Response)
        requires
            old(self).wf(),
        ensures
            final(self).wf(),
            final(self).labels == old(self).labels,
            final(self).items == old(self).items,
            match hit {
                Some(i) if i < old(self).items@.len() => {
                    &&& final(self).active_menu == (if old(self).active_menu == Some(i) { None } else { Some(i) })
                    &&& final(self).hover_item is None
                    &&& r == (Response { status: Status::Consumed, cursor: Some(Cursor::Pointer) })
                },
                _ => *final(self) == *old(self) && r == (Response { status: Status::Ignored, cursor: None }),
            },
    {
        match hit {
            Some(i) => {
                if i < self.items.len() {
                    self.active_menu = if self.active_menu == Some(i) { None } else { Some(i) };
                    self.hover_item = None;
                    return Response::consumed_with(Cursor::Pointer);
                }
                Response::ignored()
            },
            None => Response::ignored(),
        }
    }

    /// The pointer moved over the bar (`inside`), over menu `hit`: while a
    /// menu is open, the menu under the pointer opens instead.
    pub fn bar_moved(&mut self, inside: bool, hit: Option<usize>) -> (r: Response)
        requires
            old(self).wf(),
        ensures
            final(self).wf(),
            final(self).labels == old(self).labels,
            final(self).items == old(self).items,
            old(self).active_menu is Some && (hit is Some && hit->0 < old(self).items@.len()) ==> {
                &&& final(self).active_menu == hit
                &&& final(self).hover_item is None
                &&& r == (Response { status: Status::Consumed, cursor: Some(Cursor::Pointer) })
            },
            !(old(self).active_menu is Some && (hit is Some && hit->0 < old(self).items@.len())) ==> {
                &&& *final(self) == *old(self)
                &&& r == (if inside {
                    Response { status: Status::Ignored, cursor: Some(Cursor::Pointer) }
                } else {
                    Response { status: Status::Ignored, cursor: None }
                })
            },
    {
        if self.active_menu.is_some() {
            match hit {
                Some(i) => {
                    if i < self.items.len() {
                        self.active_menu = Some(i);
                        self.hover_item = None;
                        return Response::consumed_with(Cursor::Pointer);
                    }
                },
                None => {},
            }
        }
        if inside {
            Response { status: Status::Ignored, cursor: Some(Cursor::Pointer) }
        } else {
            Response::ignored()
        }
    }

    /// A click while a menu is open, on row `row` of its dropdown (`None`
    /// outside it). A released click on an item chooses it; any released
    /// click closes the menu. The open menu keeps every click from the
    /// widgets below.
    pub fn overlay_click(&mut self, released: bool, row: Option<usize>) -> (r: MenubarReply)
        requires
            old(self).wf(),
        ensures
            final(self).wf(),
            final(self).labels == old(self).labels,
            final(self).items == old(self).items,
            final(self).hover_item == old(self).hover_item,
            match old(self).active_menu {
                None => *final(self) == *old(self)
                    && r == (MenubarReply { response: Response { status: Status::Ignored, cursor: None }, chosen: None }),
                Some(m) => if !released {
                    *final(self) == *old(self)
                        && r == (MenubarReply { response: Response { status: Status::Canceled, cursor: None }, chosen: None })
                } else {
                    &&& final(self).active_menu is None
                    &&& match row {
                        Some(i) if i < old(self).items@[m as int]@.len() => r == (MenubarReply {
                            response: Response { status: Status::Consumed, cursor: None },
                            chosen: Some((m, i)),
                        }),
                        _ => r == (MenubarReply { response: Response { status: Status::Canceled, cursor: None }, chosen: None }),
                    }
                },
            },
    {
        match self.active_menu {
            None => MenubarReply { response: Response::ignored(), chosen: None },
            Some(m) => {
                if !released {
                    return MenubarReply { response: Response::canceled(), chosen: None };
                }
                self.active_menu = None;
                match row {
                    Some(i) => {
                        if i < self.items[m].len() {
                            return MenubarReply { response: Response::consumed(), chosen: Some((m, i)) };
                        }
                    },
                    None => {},
                }
                MenubarReply { response: Response::canceled(), chosen: None }
            },
        }
    }

    /// The pointer moved while a menu is open, over row `row` of its
    /// dropdown (`None` outside it): that item is highlighted.
    pub fn overlay_moved(&mut self, row: Option<usize>) -> (r: Response)
        requires
            old(self).wf(),
        ensures
            final(self).wf(),
            final(self).labels == old(self).labels,
            final(self).items == old(self).items,
            final(self).active_menu == old(self).active_menu,
            match old(self).active_menu {
                None => *final(self) == *old(self) && r == (Response { status: Status::Ignored, cursor: None }),
                Some(m) => match row {
                    Some(i) => {
                        &&& final(self).hover_item == (if i < old(self).items@[m as int]@.len() { Some(i) } else { None })
                        &&& r == (Response { status: Status::Consumed, cursor: Some(Cursor::Pointer) })
                    },
                    None => final(self).hover_item is None && r == (Response { status: Status::Canceled, cursor: None }),
                },
            },
    {
        match self.active_menu {
            None => Response::ignored(),
            Some(m) => match row {
                Some(i) => {
                    self.hover_item = if i < self.items[m].len() { Some(i) } else { None };
                    Response::consumed_with(Cursor::Pointer)
                },
                None => {
                    self.hover_item = None;
                    Response::canceled()
                },
            },
        }
    }
}

} // verus!
