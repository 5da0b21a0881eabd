use vstd::prelude::*;

use crate::text::{chars_of, find_exec, find_first, lemma_find_from, slice_chars, str_equal, string_of, trim_start_char, trim_start_char_exec, starts_with, starts_with_exec};
use crate::tui::input::InputBuffer;

verus! {

/// A row of the settings list.
#[derive(Debug)]
pub enum SettingsItem {
    Section { title: String },
    Entry { path: String, key: String, value: String, original: String, editable: bool },
}

pub enum ItemView {
    Section { title: Seq<char> },
    Entry { path: Seq<char>, key: Seq<char>, value: Seq<char>, original: Seq<char>, editable: bool },
}

impl SettingsItem {
    pub open spec fn view_spec(&self) -> ItemView {
        match self {
            SettingsItem::Section { title } => ItemView::Section { title: title@ },
            SettingsItem::Entry { path, key, value, original, editable } => ItemView::Entry {
                path: path@,
                key: key@,
                value: value@,
                original: original@,
                editable: *editable,
            },
        }
    }
}

pub open spec fn item_views(v: Seq<SettingsItem>) -> Seq<ItemView> {
    v.map_values(|i: SettingsItem| i.view_spec())
}

/// The settings list: its rows, the selected row, and the edit under way.
pub struct SettingsState {
    items: Vec<SettingsItem>,
    selected: usize,
    editing: bool,
    edit_buffer: InputBuffer,
    dirty: bool,
}

pub struct SettingsView {
    pub items: Seq<ItemView>,
    pub selected: nat,
    pub editing: bool,
    pub buffer: (Seq<char>, nat),
    pub dirty: bool,
}

impl View for SettingsState {
    type V = SettingsView;

    closed spec fn view(&self) -> SettingsView {
        SettingsView {
            items: item_views(self.items@),
            selected: self.selected as nat,
            editing: self.editing,
            buffer: self.edit_buffer@,
            dirty: self.dirty,
        }
    }
}

/// The entry's new value when a different one was typed.
pub open spec fn with_value(item: ItemView, value: Seq<char>) -> ItemView {
    match item {
        ItemView::Entry { path, key, original, editable, .. } => ItemView::Entry { path, key, value, original, editable },
        ItemView::Section { title } => ItemView::Section { title },
    }
}

/// A key that edits the value being typed (a character comes without
/// Control or Alt held).
#[derive(Debug, Clone, Copy, PartialEq, Eq, Structural)]
pub enum EditKey {
    Enter,
    Escape,
    Char(char),
    Backspace,
    Delete,
    Left,
    Right,
    Home,
    End,
}

/// The selected row, if the selection is on the list.
pub open spec fn selected_item(v: SettingsView) -> Option<ItemView> {
    if v.selected < v.items.len() {
        Some(v.items[v.selected as int])
    } else {
        None
    }
}

impl SettingsState {
    /// A list of rows, the first one selected, nothing being edited.
    pub fn new(items: Vec<SettingsItem>) -> (r: Self)
        ensures
            r@.items == item_views(items@),
            r@.selected == 0,
            !r@.editing,
            !r@.dirty,
            r@.buffer.0.len() == 0,
    {
        SettingsState { items, selected: 0, editing: false, edit_buffer: InputBuffer::new(), dirty: false }
    }

    pub fn items(&self) -> (r: &Vec<SettingsItem>)
        ensures
            item_views(r@) == self@.items,
    {
        &self.items
    }

    pub fn selected(&self) -> (r: usize)
        ensures
            r == self@.selected,
    {
        self.selected
    }

    pub fn is_editing(&self) -> (r: bool)
        ensures
            r == self@.editing,
    {
        self.editing
    }

    pub fn is_dirty(&self) -> (r: bool)
        ensures
            r == self@.dirty,
    {
        self.dirty
    }

    /// The text being typed.
    pub fn edit_text(&self) -> (r: &str)
        ensures
            r@ == self@.buffer.0,
    {
        self.edit_buffer.as_str()
    }

    /// The display column of the edit cursor.
    pub fn edit_cursor_col(&self) -> (r: u16)
        ensures
            r == (crate::tui::input::unicode_str_width(self@.buffer.0.take(self@.buffer.1 as int)) as u16),
    {
        self.edit_buffer.display_cursor_col()
    }

    /// A key pressed while editing: Enter confirms, Escape cancels, the
    /// others edit the line. Returns the change that Enter made, if any.
    pub fn handle_edit_key(&mut self, key: EditKey) -> (r: Option<(String, String)>)
        requires
            old(self)@.buffer.1 < usize::MAX,
        ensures
            final(self)@.selected == old(self)@.selected,
            !(key is Enter) ==> r is None,
            !(key is Enter) && !(key is Escape) ==> final(self)@.items == old(self)@.items && final(self)@.dirty
                == old(self)@.dirty && final(self)@.editing == old(self)@.editing,
            key is Escape ==> !final(self)@.editing && final(self)@.buffer.0.len() == 0 && final(self)@.items
                == old(self)@.items,
            key is Enter ==> !final(self)@.editing && final(self)@.buffer.0.len() == 0,
            match key {
                EditKey::Char(c) => final(self)@.buffer == (
                    old(self)@.buffer.0.take(old(self)@.buffer.1 as int).push(c) + old(self)@.buffer.0.skip(
                        old(self)@.buffer.1 as int,
                    ),
                    old(self)@.buffer.1 + 1,
                ),
                EditKey::Left => final(self)@.buffer == (
                    old(self)@.buffer.0,
                    (if old(self)@.buffer.1 > 0 { old(self)@.buffer.1 - 1 } else { 0 }) as nat,
                ),
                EditKey::Home => final(self)@.buffer == (old(self)@.buffer.0, 0nat),
                EditKey::End => final(self)@.buffer == (old(self)@.buffer.0, old(self)@.buffer.0.len()),
                _ => true,
            },
    {
        match key {
            EditKey::Enter => self.confirm_edit(),
            EditKey::Escape => {
                self.cancel_edit();
                None
            },
            EditKey::Char(c) => {
                self.edit_buffer.insert(c);
                None
            },
            EditKey::Backspace => {
                self.edit_buffer.backspace();
                None
            },
            EditKey::Delete => {
                self.edit_buffer.delete();
                None
            },
            EditKey::Left => {
                self.edit_buffer.move_left();
                None
            },
            EditKey::Right => {
                self.edit_buffer.move_right();
                None
            },
            EditKey::Home => {
                self.edit_buffer.move_home();
                None
            },
            EditKey::End => {
                self.edit_buffer.move_end();
                None
            },
        }
    }

    /// Moves the selection by `delta` rows, staying on the list.
    pub fn move_selection(&mut self, delta: i32)
        requires
            old(self)@.items.len() <= i32::MAX,
            old(self)@.selected <= i32::MAX,
        ensures
            ({
                let max: int = if old(self)@.items.len() > 0 { old(self)@.items.len() - 1 } else { 0 };
                let want: int = old(self)@.selected + delta;
                final(self)@.selected == if want < 0 { 0 } else if want > max { max } else { want }
            }),
            final(self)@.items == old(self)@.items,
            final(self)@.editing == old(self)@.editing,
            final(self)@.dirty == old(self)@.dirty,
            final(self)@.buffer == old(self)@.buffer,
    {
        let want: i64 = self.selected as i64 + delta as i64;
        let max: i64 = if self.items.len() > 0 { (self.items.len() - 1) as i64 } else { 0 };
        let v: i64 = if want < 0 { 0 } else if want > max { max } else { want };
        self.selected = v as usize;
    }

    /// Starts editing the selected entry when it is editable.
    pub fn start_edit(&mut self)
        ensures
            match selected_item(old(self)@) {
                Some(ItemView::Entry { value, editable: true, .. }) => final(self)@.editing && final(self)@.buffer == (
                    value,
                    value.len(),
                ),
                _ => final(self)@.editing == old(self)@.editing && final(self)@.buffer == old(self)@.buffer,
            },
            final(self)@.items == old(self)@.items,
            final(self)@.selected == old(self)@.selected,
            final(self)@.dirty == old(self)@.dirty,
    {
        if self.selected < self.items.len() {
            match &self.items[self.selected] {
                SettingsItem::Entry { value, editable, .. } => {
                    if *editable {
                        let v = value.clone();
                        self.editing = true;
                        self.edit_buffer.set(v);
                    }
                },
                SettingsItem::Section { .. } => {},
            }
        }
    }

    /// Ends the edit without a change.
    pub fn cancel_edit(&mut self)
        ensures
            !final(self)@.editing,
            final(self)@.buffer.0.len() == 0,
            final(self)@.items == old(self)@.items,
            final(self)@.selected == old(self)@.selected,
            final(self)@.dirty == old(self)@.dirty,
    {
        self.editing = false;
        self.edit_buffer.clear();
    }

    /// Ends the edit, keeping what was typed. Returns the changed entry's
    /// path and new value, for the configuration tree, when it changed.
    pub fn confirm_edit(&mut self) -> (r: Option<(String, String)>)
        ensures
            !final(self)@.editing,
            final(self)@.buffer.0.len() == 0,
            final(self)@.selected == old(self)@.selected,
            match selected_item(old(self)@) {
                Some(ItemView::Entry { path, value, .. }) => if value != old(self)@.buffer.0 {
                    &&& final(self)@.items == old(self)@.items.update(
                        old(self)@.selected as int,
                        with_value(old(self)@.items[old(self)@.selected as int], old(self)@.buffer.0),
                    )
                    &&& final(self)@.dirty
                    &&& r matches Some((p, v)) && p@ == path && v@ == old(self)@.buffer.0
                } else {
                    &&& final(self)@.items == old(self)@.items
                    &&& final(self)@.dirty == old(self)@.dirty
                    &&& r is None
                },
                _ => {
                    &&& final(self)@.items == old(self)@.items
                    &&& final(self)@.dirty == old(self)@.dirty
                    &&& r is None
                },
            },
    {
        let idx = self.selected;
        let typed = String::from_str(self.edit_buffer.as_str());
        let mut change: Option<(String, String)> = None;
        if idx < self.items.len() {
            let ghost before = self.items@;
            let (is_change, p) = match &self.items[idx] {
                SettingsItem::Entry { path, value, .. } => (!str_equal(value.as_str(), typed.as_str()), path.clone()),
                SettingsItem::Section { .. } => (false, String::new()),
            };
            if is_change {
                let item = self.items.remove(idx);
                let updated = match item {
                    SettingsItem::Entry { path, key, original, editable, .. } => SettingsItem::Entry {
                        path,
                        key,
                        value: typed.clone(),
                        original,
                        editable,
                    },
                    SettingsItem::Section { title } => SettingsItem::Section { title },
                };
                self.items.insert(idx, updated);
                proof {
                    assert(item_views(self.items@) =~= item_views(before).update(
                        idx as int,
                        with_value(item_views(before)[idx as int], typed@),
                    ));
                }
                self.dirty = true;
                change = Some((p, typed));
            }
        }
        self.editing = false;
        self.edit_buffer.clear();
        change
    }

    /// Puts the selected entry back to its original value. Returns its path
    /// and value, for the configuration tree, when it had changed.
    pub fn reset_entry(&mut self) -> (r: Option<(String, String)>)
        ensures
            final(self)@.selected == old(self)@.selected,
            final(self)@.editing == old(self)@.editing,
            final(self)@.buffer == old(self)@.buffer,
            match selected_item(old(self)@) {
                Some(ItemView::Entry { path, value, original, .. }) => if value != original {
                    &&& final(self)@.items == old(self)@.items.update(
                        old(self)@.selected as int,
                        with_value(old(self)@.items[old(self)@.selected as int], original),
                    )
                    &&& final(self)@.dirty
                    &&& r matches Some((p, v)) && p@ == path && v@ == original
                } else {
                    &&& final(self)@.items == old(self)@.items
                    &&& final(self)@.dirty == old(self)@.dirty
                    &&& r is None
                },
                _ => {
                    &&& final(self)@.items == old(self)@.items
                    &&& final(self)@.dirty == old(self)@.dirty
                    &&& r is None
                },
            },
    {
        let idx = self.selected;
        if idx >= self.items.len() {
            return None;
        }
        let ghost before = self.items@;
        let (is_change, p, o) = match &self.items[idx] {
            SettingsItem::Entry { path, value, original, .. } => (
                !str_equal(value.as_str(), original.as_str()),
                path.clone(),
                original.clone(),
            ),
            SettingsItem::Section { .. } => (false, String::new(), String::new()),
        };
        if !is_change {
            return None;
        }
        let item = self.items.remove(idx);
        let updated = match item {
            SettingsItem::Entry { path, key, original, editable, .. } => SettingsItem::Entry {
                path,
                key,
                value: o.clone(),
                original,
                editable,
            },
            SettingsItem::Section { title } => SettingsItem::Section { title },
        };
        self.items.insert(idx, updated);
        proof {
            assert(item_views(self.items@) =~= item_views(before).update(
                idx as int,
                with_value(item_views(before)[idx as int], o@),
            ));
        }
        self.dirty = true;
        Some((p, o))
    }

    /// Replaces all rows (after the tree was reset or saved).
    pub fn replace_items(&mut self, items: Vec<SettingsItem>, dirty: bool)
        ensures
            final(self)@.items == item_views(items@),
            final(self)@.dirty == dirty,
            final(self)@.selected == old(self)@.selected,
            final(self)@.editing == old(self)@.editing,
            final(self)@.buffer == old(self)@.buffer,
    {
        self.items = items;
        self.dirty = dirty;
    }
}

/// The path of an entry row; empty for a section heading.
pub fn get_path(item: &SettingsItem) -> (r: String)
    ensures
        r@ == match item.view_spec() {
            ItemView::Entry { path, .. } => path,
            ItemView::Section { .. } => Seq::empty(),
        },
{
    match item {
        SettingsItem::Entry { path, .. } => path.clone(),
        SettingsItem::Section { .. } => String::new(),
    }
}

/// The path of an entry without the section and the dots after it.
pub open spec fn key_in_section(path: Seq<char>, section: Seq<char>) -> Seq<char> {
    let rest = if starts_with(path, section) { path.skip(section.len() as int) } else { path };
    trim_start_char(rest, '.')
}

/// The position of the last `[` among the first `n` characters of `s`
/// (`-1` when there is none).
pub open spec fn last_open_bracket(s: Seq<char>, n: int) -> int
    decreases n,
{
    if n <= 0 {
        -1
    } else if s[n - 1] == '[' {
        n - 1
    } else {
        last_open_bracket(s, n - 1)
    }
}

/// The key shown for an entry. An entry of an array of tables, listed under
/// the heading `section.key[i]`, shows from its index on (`[i].rest`); any
/// other entry shows its path without the section and the dot after it.
pub open spec fn shown_key(path: Seq<char>, section: Seq<char>) -> Seq<char> {
    let k = key_in_section(path, section);
    let b = last_open_bracket(k, k.len() as int);
    if b >= 0 {
        k.skip(b)
    } else {
        k
    }
}

/// `llm.max_iterations` under `llm` shows as `max_iterations`, and
/// `llm.providers[0].model` as `[0].model`.
pub fn format_key(path: &str, section: &str) -> (r: String)
    ensures
        r@ == shown_key(path@, section@),
{
    let p = chars_of(path);
    let s = chars_of(section);
    let rest = if starts_with_exec(&p, &s) {
        let r = slice_chars(&p, s.len(), p.len());
        proof {
            assert(p@.subrange(s@.len() as int, p@.len() as int) =~= p@.skip(s@.len() as int));
        }
        r
    } else {
        p
    };
    let t = trim_start_char_exec(&rest, '.');
    let mut found = false;
    let mut at: usize = 0;
    let mut i: usize = 0;
    while i < t.len()
        invariant
            i <= t.len(),
            found ==> at < i && last_open_bracket(t@, i as int) == at as int,
            !found ==> last_open_bracket(t@, i as int) == -1,
        decreases t.len() - i,
    {
        if t[i] == '[' {
            found = true;
            at = i;
        }
        i = i + 1;
    }
    if found {
        let k = slice_chars(&t, at, t.len());
        proof {
            assert(t@.subrange(at as int, t@.len() as int) =~= t@.skip(at as int));
        }
        string_of(&k)
    } else {
        string_of(&t)
    }
}

/// The first row shown so that the selected one is visible: unchanged
/// while it is, else scrolled just enough; never past the last row.
pub open spec fn list_scroll(selected: nat, scroll: nat, visible_height: nat, n: nat) -> nat {
    let s: nat = if selected < scroll {
        selected
    } else if selected >= scroll + visible_height {
        if selected >= visible_height - 1 { (selected - (visible_height - 1)) as nat } else { 0 }
    } else {
        scroll
    };
    let last: nat = if n > 0 { (n - 1) as nat } else { 0 };
    if s < last { s } else { last }
}

pub fn compute_scroll(selected: usize, scroll: usize, visible_height: usize, n: usize) -> (r: usize)
    requires
        visible_height >= 1,
        scroll + visible_height <= usize::MAX,
    ensures
        r == list_scroll(selected as nat, scroll as nat, visible_height as nat, n as nat),
{
    let s: usize = if selected < scroll {
        selected
    } else if selected >= scroll + visible_height {
        if selected >= visible_height - 1 { selected - (visible_height - 1) } else { 0 }
    } else {
        scroll
    };
    let last: usize = if n > 0 { n - 1 } else { 0 };
    if s < last { s } else { last }
}

/// A rectangle on the screen.
#[derive(Debug, Clone, Copy, PartialEq, Eq, Structural)]
pub struct Rect {
    pub x: u16,
    pub y: u16,
    pub width: u16,
    pub height: u16,
}

/// A popup of the given percentages of `area`, centred in it.
pub fn centered_rect(area: Rect, percent_x: u16, percent_y: u16) -> (r: Rect)
    requires
        area.width * percent_x <= u16::MAX,
        area.height * percent_y <= u16::MAX,
        percent_x <= 100,
        percent_y <= 100,
        area.x + area.width <= u16::MAX,
        area.y + area.height <= u16::MAX,
    ensures
        r.width == area.width * percent_x / 100,
        r.height == area.height * percent_y / 100,
        r.x == area.x + (area.width - r.width) / 2,
        r.y == area.y + (area.height - r.height) / 2,
{
    let w: u16 = area.width * percent_x / 100;
    let h: u16 = area.height * percent_y / 100;
    assert(w <= area.width) by (nonlinear_arith)
        requires w == area.width * percent_x / 100, percent_x <= 100;
    assert(h <= area.height) by (nonlinear_arith)
        requires h == area.height * percent_y / 100, percent_y <= 100;
    Rect { x: area.x + (area.width - w) / 2, y: area.y + (area.height - h) / 2, width: w, height: h }
}

/// A key pressed on the settings list while nothing is being edited.
#[derive(Debug, Clone, Copy, PartialEq, Eq, Structural)]
pub enum ListKey {
    Up,
    Down,
    PageUp,
    PageDown,
    Enter,
    Reset,
}

impl SettingsState {
    /// Up and down move by a row, the page keys by ten, Enter starts
    /// editing, `r` puts the entry back. Returns what a reset changed.
    pub fn handle_list_key(&mut self, key: ListKey) -> (r: Option<(String, String)>)
        requires
            old(self)@.items.len() <= i32::MAX,
            old(self)@.selected <= i32::MAX,
        ensures
            !(key is Reset) ==> r is None && final(self)@.items == old(self)@.items,
            (key is Enter || key is Reset) ==> final(self)@.selected == old(self)@.selected,
            !(key is Enter || key is Reset) ==> ({
                let max: int = if old(self)@.items.len() > 0 { old(self)@.items.len() - 1 } else { 0 };
                let delta: int = match key {
                    ListKey::Up => -1,
                    ListKey::Down => 1,
                    ListKey::PageUp => -10,
                    _ => 10,
                };
                let want: int = old(self)@.selected + delta;
                final(self)@.selected == if want < 0 { 0 } else if want > max { max } else { want }
            }),
    {
        match key {
            ListKey::Up => {
                self.move_selection(-1);
                None
            },
            ListKey::Down => {
                self.move_selection(1);
                None
            },
            ListKey::PageUp => {
                self.move_selection(-10);
                None
            },
            ListKey::PageDown => {
                self.move_selection(10);
                None
            },
            ListKey::Enter => {
                self.start_edit();
                None
            },
            ListKey::Reset => self.reset_entry(),
        }
    }
}

} // verus!
