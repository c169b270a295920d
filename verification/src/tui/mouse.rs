//! The mouse in the main view.

use crate::names::NameMap;
use crate::tui::app_state::{AppState, AppView, Mode};
use crate::tui::columns::{drag_width, dragged_width, Column};
use crate::tui::filters::{item_views, shown, sidebar_items, sidebar_of};
use crate::tui::list_layout::{is_layout, ListLayout};
use crate::tui::main_view::{
    detail_moved, list_moved, sidebar_applied, sidebar_moved, DetailTab, MainState, MainView, Pane,
};
use vstd::prelude::*;

verus! {

/// A second click on the same cell within so many nanoseconds is a double click.
pub const DOUBLE_CLICK: u64 = 400_000_000;

/// A rectangle of the screen; empty for a pane that is hidden.
#[derive(Clone, Copy, Debug, PartialEq, Eq, Structural)]
pub struct Area {
    pub x: u16,
    pub y: u16,
    pub width: u16,
    pub height: u16,
}

impl Area {
    /// The cell lies in the rectangle.
    pub open spec fn has(self, column: u16, row: u16) -> bool {
        self.x <= column < self.x + self.width && self.y <= row < self.y + self.height
    }
}

/// Whether the cell lies in the rectangle.
pub fn rect_contains(area: Area, column: u16, row: u16) -> (r: bool)
    ensures
        r == area.has(column, row),
{
    let right: u32 = area.x as u32 + area.width as u32;
    let bottom: u32 = area.y as u32 + area.height as u32;
    area.x <= column && (column as u32) < right && area.y <= row && (row as u32) < bottom
}

/// A divider that is being dragged.
#[derive(Clone, Copy, Debug, PartialEq, Eq, Structural)]
pub struct ColumnDrag {
    /// the shown column to the left of the divider
    pub column_index: usize,
    /// where the pointer was when the drag began
    pub start_x: u16,
    /// how wide the column was
    pub start_width: u16,
}

/// Where things were drawn, and what the mouse is doing.
#[derive(Clone, Debug, PartialEq, Eq)]
pub struct Screen {
    pub sidebar: Area,
    pub list: Area,
    pub detail: Area,
    pub tab_bar: Area,
    /// where the dividers of the columns stand
    pub boundaries: Vec<u16>,
    /// the row of the column headers
    pub header_y: u16,
    pub drag: Option<ColumnDrag>,
    /// when and where the list was last clicked
    pub last_click: Option<(u64, u16, u16)>,
    /// the widths that were dragged to, by the key of the column
    pub widths: NameMap<u16>,
}

/// The widths by the key of the column.
pub open spec fn width_map(widths: NameMap<u16>) -> Map<Seq<char>, u16> {
    Map::new(|k: Seq<char>| widths.has(k), |k: Seq<char>| widths.at(k))
}

/// Where things were drawn, and what the mouse is doing, as plain values.
pub struct ScreenView {
    pub sidebar: Area,
    pub list: Area,
    pub detail: Area,
    pub tab_bar: Area,
    pub boundaries: Seq<u16>,
    pub header_y: u16,
    pub drag: Option<ColumnDrag>,
    pub last_click: Option<(u64, u16, u16)>,
    pub widths: Map<Seq<char>, u16>,
}

impl View for Screen {
    type V = ScreenView;

    open spec fn view(&self) -> ScreenView {
        ScreenView {
            sidebar: self.sidebar,
            list: self.list,
            detail: self.detail,
            tab_bar: self.tab_bar,
            boundaries: self.boundaries@,
            header_y: self.header_y,
            drag: self.drag,
            last_click: self.last_click,
            widths: width_map(self.widths),
        }
    }
}

/// What the mouse did.
#[derive(Clone, Copy, Debug, PartialEq, Eq, Structural)]
pub enum MouseKind {
    LeftDown,
    LeftDrag,
    LeftUp,
    RightDown,
    ScrollUp,
    ScrollDown,
    Other,
}

/// What the mouse did, and where.
#[derive(Clone, Copy, Debug, PartialEq, Eq, Structural)]
pub struct MouseEvent {
    pub kind: MouseKind,
    pub column: u16,
    pub row: u16,
    /// nanoseconds since the program started
    pub time: u64,
}

// ----- clicks -----

/// The first divider from `k` on that stands at the cell.
pub open spec fn divider_at(boundaries: Seq<u16>, x: u16, k: int) -> Option<int>
    decreases boundaries.len() - k,
{
    if k < 0 || k >= boundaries.len() {
        None
    } else if boundaries[k] == x {
        Some(k)
    } else {
        divider_at(boundaries, x, k + 1)
    }
}

/// The divider that a click takes hold of: one in the header or right below it.
pub open spec fn divider_hit(s: ScreenView, e: MouseEvent) -> Option<int> {
    if e.row == s.header_y || e.row == s.header_y + 1 {
        divider_at(s.boundaries, e.column, 0)
    } else {
        None
    }
}

/// The width of a column as it is now.
pub open spec fn width_now(s: ScreenView, column: Column) -> u16 {
    if s.widths.contains_key(column.key_text()) {
        s.widths[column.key_text()]
    } else {
        column.default_width()
    }
}

/// The tab under the cell of the tab bar. The labels stand side by side, three cells apart.
pub open spec fn tab_under(bar: Area, column: u16) -> Option<DetailTab> {
    let at = column - bar.x;
    if 0 <= at < 8 {
        Some(DetailTab::Trackers)
    } else if 11 <= at < 16 {
        Some(DetailTab::Peers)
    } else if 19 <= at < 26 {
        Some(DetailTab::Content)
    } else {
        None
    }
}

/// How many rows below the first row of a pane the cell is; the rows above it count as the
/// first.
pub open spec fn rows_below(row: u16, first: int) -> int {
    if row >= first {
        row - first
    } else {
        0
    }
}

/// The view after a click on the tab bar.
pub open spec fn tab_clicked(v: MainView, bar: Area, column: u16) -> MainView {
    MainView {
        tab: match tab_under(bar, column) {
            Some(tab) => tab,
            None => v.tab,
        },
        focus: Pane::Detail,
        ..v
    }
}

/// The view after a click in the sidebar.
pub open spec fn sidebar_clicked(v: MainView, area: Area, row: u16) -> MainView {
    let target = rows_below(row, area.y + 1);
    let chosen = if target < sidebar_of(v.categories, v.torrents).len() {
        sidebar_applied(
            MainView { sidebar: v.sidebar.with(Some(target as usize)), ..v },
        )
    } else {
        v
    };
    MainView { focus: Pane::Sidebar, ..chosen }
}

/// The click follows another on the same cell quickly enough.
pub open spec fn is_double(s: ScreenView, e: MouseEvent) -> bool {
    match s.last_click {
        Some((when, column, row)) => column == e.column && row == e.row && e.time - when
            < DOUBLE_CLICK,
        None => false,
    }
}

/// The view after a click in the list of torrents. The border, the column headers and the divider
/// stand above its rows, and the first row on screen need not be the first of the list.
pub open spec fn list_clicked(v: MainView, area: Area, row: u16, double: bool) -> MainView {
    let target = v.list.offset + rows_below(row, area.y + 3);
    let after = MainView {
        list: if target < shown(v.filters, v.torrents).len() {
            v.list.with(Some(target as usize))
        } else {
            v.list
        },
        focus: Pane::List,
        ..v
    };
    if double && !v.show_detail {
        MainView { show_detail: true, detail_due: true, ..after }
    } else {
        after
    }
}

/// The click lands in the list of torrents.
pub open spec fn in_list(s: ScreenView, e: MouseEvent) -> bool {
    !s.tab_bar.has(e.column, e.row) && !s.sidebar.has(e.column, e.row) && s.list.has(
        e.column,
        e.row,
    )
}

/// The view after a click in one of its panes.
pub open spec fn pane_clicked(v: MainView, s: ScreenView, e: MouseEvent) -> MainView {
    if s.tab_bar.has(e.column, e.row) {
        tab_clicked(v, s.tab_bar, e.column)
    } else if s.sidebar.has(e.column, e.row) {
        sidebar_clicked(v, s.sidebar, e.row)
    } else if s.list.has(e.column, e.row) {
        list_clicked(v, s.list, e.row, is_double(s, e))
    } else if s.detail.has(e.column, e.row) {
        MainView { focus: Pane::Detail, ..v }
    } else {
        v
    }
}

/// The screen after a click of the left button: a divider is taken hold of, or a click in the
/// list is remembered.
pub open spec fn screen_clicked(columns: Seq<Column>, s: ScreenView, e: MouseEvent) -> ScreenView {
    match divider_hit(s, e) {
        Some(k) => ScreenView {
            drag: Some(
                ColumnDrag {
                    column_index: k as usize,
                    start_x: e.column,
                    start_width: width_now(s, columns[k]),
                },
            ),
            ..s
        },
        None => if in_list(s, e) {
            ScreenView { last_click: Some((e.time, e.column, e.row)), ..s }
        } else {
            s
        },
    }
}

/// The interface after a click of the left button.
pub open spec fn after_left_down(v: AppView, s: ScreenView, e: MouseEvent) -> AppView {
    if divider_hit(s, e) is Some {
        v
    } else {
        AppView { main: pane_clicked(v.main, s, e), ..v }
    }
}

/// The view after scrolling: the pane under the pointer moves, whatever has the focus.
pub open spec fn after_scroll(v: MainView, s: ScreenView, e: MouseEvent, delta: int) -> MainView {
    if s.list.has(e.column, e.row) {
        list_moved(v, delta)
    } else if s.detail.has(e.column, e.row) {
        detail_moved(v, delta)
    } else if s.sidebar.has(e.column, e.row) {
        sidebar_applied(sidebar_moved(v, delta))
    } else {
        v
    }
}

/// The screen after the pointer was dragged.
pub open spec fn after_drag(columns: Seq<Column>, s: ScreenView, e: MouseEvent) -> ScreenView {
    match s.drag {
        Some(drag) if drag.column_index < columns.len() => ScreenView {
            widths: s.widths.insert(
                columns[drag.column_index as int].key_text(),
                dragged_width(drag.start_width, drag.start_x, e.column),
            ),
            ..s
        },
        _ => s,
    }
}

/// The interface after the mouse did something, and whether the widths are to be stored. A
/// prompt and the other pages take no notice of the mouse.
pub open spec fn after_mouse(v: AppView, s: ScreenView, e: MouseEvent) -> (AppView, ScreenView, bool) {
    if v.prompt is Some || !(v.mode is Main) {
        (v, s, false)
    } else {
        match e.kind {
            MouseKind::LeftDown => (
                after_left_down(v, s, e),
                screen_clicked(v.columns, s, e),
                false,
            ),
            MouseKind::LeftDrag => (v, after_drag(v.columns, s, e), false),
            MouseKind::LeftUp => (v, ScreenView { drag: None, ..s }, s.drag is Some),
            MouseKind::RightDown => if e.row == s.header_y && s.list.has(e.column, e.row) {
                (AppView { picker: Some(0), ..v }, s, false)
            } else {
                (v, s, false)
            },
            MouseKind::ScrollUp => (
                AppView { main: after_scroll(v.main, s, e, -3), ..v },
                s,
                false,
            ),
            MouseKind::ScrollDown => (
                AppView { main: after_scroll(v.main, s, e, 3), ..v },
                s,
                false,
            ),
            MouseKind::Other => (v, s, false),
        }
    }
}

/// The first divider that stands at the cell.
fn find_divider(boundaries: &Vec<u16>, x: u16) -> (r: Option<usize>)
    ensures
        r is Some <==> divider_at(boundaries@, x, 0) is Some,
        r matches Some(k) ==> divider_at(boundaries@, x, 0) == Some(k as int) && k
            < boundaries@.len(),
{
    let mut k: usize = 0;
    while k < boundaries.len()
        invariant
            k <= boundaries@.len(),
            divider_at(boundaries@, x, 0) == divider_at(boundaries@, x, k as int),
        decreases boundaries@.len() - k,
    {
        if boundaries[k] == x {
            return Some(k);
        }
        k = k + 1;
    }
    None
}

/// The tab under the cell of the tab bar.
fn find_tab(bar: Area, column: u16) -> (r: Option<DetailTab>)
    ensures
        r == tab_under(bar, column),
{
    if column < bar.x {
        return None;
    }
    let at: u16 = column - bar.x;
    if at < 8 {
        Some(DetailTab::Trackers)
    } else if 11 <= at && at < 16 {
        Some(DetailTab::Peers)
    } else if 19 <= at && at < 26 {
        Some(DetailTab::Content)
    } else {
        None
    }
}

/// How many rows below the first row of a pane the cell is.
fn count_rows_below(row: u16, first: u32) -> (r: usize)
    ensures
        r == rows_below(row, first as int),
        r <= 65535,
{
    if row as u32 >= first {
        (row as u32 - first) as usize
    } else {
        0
    }
}

impl MainState {
    /// A click on the tab bar.
    fn click_tab(&mut self, bar: Area, column: u16)
        requires
            old(self).wf(),
        ensures
            final(self).wf(),
            final(self)@ == tab_clicked(old(self)@, bar, column),
    {
        if let Some(tab) = find_tab(bar, column) {
            self.detail_tab = tab;
        }
        self.focus = Pane::Detail;
    }

    /// A click in the sidebar.
    fn click_sidebar(&mut self, area: Area, row: u16)
        requires
            old(self).wf(),
        ensures
            final(self).wf(),
            final(self)@ == sidebar_clicked(old(self)@, area, row),
    {
        let target: usize = count_rows_below(row, area.y as u32 + 1);
        let items = sidebar_items(&self.sidebar_categories, &self.torrents);
        assert(item_views(items@).len() == items@.len());
        if target < items.len() {
            self.sidebar.select(Some(target));
            self.apply_sidebar_selection();
        }
        self.focus = Pane::Sidebar;
    }

    /// A click in the list of torrents.
    fn click_list(&mut self, area: Area, row: u16, double: bool)
        requires
            old(self).wf(),
        ensures
            final(self).wf(),
            final(self)@ == list_clicked(old(self)@, area, row, double),
    {
        let below: usize = count_rows_below(row, area.y as u32 + 3);
        let count: usize = self.filters.filtered_indices(&self.torrents).len();
        let offset: usize = self.list.offset;
        if offset < count && below < count - offset {
            self.list.select(Some(offset + below));
        }
        self.focus = Pane::List;
        if double {
            self.open_detail();
        }
    }

    /// A click in one of the panes.
    fn click_pane(&mut self, screen: &Screen, e: MouseEvent)
        requires
            old(self).wf(),
        ensures
            final(self).wf(),
            final(self)@ == pane_clicked(old(self)@, screen@, e),
    {
        if rect_contains(screen.tab_bar, e.column, e.row) {
            self.click_tab(screen.tab_bar, e.column);
        } else if rect_contains(screen.sidebar, e.column, e.row) {
            self.click_sidebar(screen.sidebar, e.row);
        } else if rect_contains(screen.list, e.column, e.row) {
            let double = clicked_twice(screen.last_click, e);
            self.click_list(screen.list, e.row, double);
        } else if rect_contains(screen.detail, e.column, e.row) {
            self.focus = Pane::Detail;
        }
    }
}

/// Takes hold of a divider.
fn begin_drag(columns: &Vec<Column>, screen: &mut Screen, k: usize, x: u16)
    requires
        old(screen).widths.wf(),
        k < columns@.len(),
    ensures
        final(screen).widths.wf(),
        final(screen)@ == (ScreenView {
            drag: Some(
                ColumnDrag {
                    column_index: k,
                    start_x: x,
                    start_width: width_now(old(screen)@, columns@[k as int]),
                },
            ),
            ..old(screen)@
        }),
{
    let column = columns[k];
    let start_width: u16 = match screen.widths.get(column.key()) {
        Some(width) => *width,
        None => column.default_width_cells(),
    };
    screen.drag = Some(ColumnDrag { column_index: k, start_x: x, start_width });
}

/// Whether the click follows another on the same cell quickly enough.
fn clicked_twice(last: Option<(u64, u16, u16)>, e: MouseEvent) -> (r: bool)
    ensures
        r == (match last {
            Some((when, column, row)) => column == e.column && row == e.row && e.time - when
                < DOUBLE_CLICK,
            None => false,
        }),
{
    match last {
        Some((when, column, row)) => column == e.column && row == e.row && (e.time < when || e.time
            - when < DOUBLE_CLICK),
        None => false,
    }
}

/// The divider that a click takes hold of.
fn find_hit(screen: &Screen, e: MouseEvent) -> (r: Option<usize>)
    ensures
        r is Some <==> divider_hit(screen@, e) is Some,
        r matches Some(k) ==> divider_hit(screen@, e) == Some(k as int) && k
            < screen.boundaries@.len(),
{
    if e.row == screen.header_y || e.row as u32 == screen.header_y as u32 + 1 {
        find_divider(&screen.boundaries, e.column)
    } else {
        None
    }
}

/// A click of the left button.
fn mouse_left_down(app: &mut AppState, screen: &mut Screen, e: MouseEvent)
    requires
        old(app).wf(),
        old(screen).widths.wf(),
        old(screen).boundaries@.len() <= old(app).visible_columns@.len(),
    ensures
        final(app).wf(),
        final(screen).widths.wf(),
        final(app)@ == after_left_down(old(app)@, old(screen)@, e),
        final(screen)@ == screen_clicked(old(app)@.columns, old(screen)@, e),
{
    if let Some(k) = find_hit(screen, e) {
        begin_drag(&app.visible_columns, screen, k, e.column);
        return;
    }
    app.main.click_pane(screen, e);
    if !rect_contains(screen.tab_bar, e.column, e.row) && !rect_contains(
        screen.sidebar,
        e.column,
        e.row,
    ) && rect_contains(screen.list, e.column, e.row) {
        screen.last_click = Some((e.time, e.column, e.row));
    }
}

/// The pointer was dragged.
fn mouse_drag(columns: &Vec<Column>, screen: &mut Screen, e: MouseEvent)
    requires
        old(screen).widths.wf(),
    ensures
        final(screen).widths.wf(),
        final(screen)@ == after_drag(columns@, old(screen)@, e),
{
    if let Some(drag) = screen.drag {
        if drag.column_index < columns.len() {
            let key = columns[drag.column_index].key();
            let width: u16 = drag_width(drag.start_width, drag.start_x, e.column);
            let ghost before = screen.widths;
            screen.widths.insert(key, width);
            proof {
                let after = screen.widths;
                assert forall|k: Seq<char>|
                    width_map(after).contains_key(k) == width_map(before).insert(
                        key@,
                        width,
                    ).contains_key(k) && (width_map(after).contains_key(k) ==> width_map(after)[k]
                        == width_map(before).insert(key@, width)[k]) by {
                    if k != key@ {
                        assert(after.has(k) <==> before.has(k));
                        if before.has(k) {
                            assert(after.at(k) == before.at(k));
                        }
                    }
                }
                assert(width_map(after) =~= width_map(before).insert(key@, width));
            }
        }
    }
}

/// The mouse scrolls.
fn mouse_scroll(app: &mut AppState, screen: &Screen, e: MouseEvent, delta: isize)
    requires
        old(app).wf(),
    ensures
        final(app).wf(),
        final(app)@ == (AppView {
            main: after_scroll(old(app)@.main, screen@, e, delta as int),
            ..old(app)@
        }),
{
    if rect_contains(screen.list, e.column, e.row) {
        app.main.move_list(delta);
    } else if rect_contains(screen.detail, e.column, e.row) {
        app.main.move_detail(delta);
    } else if rect_contains(screen.sidebar, e.column, e.row) {
        app.main.move_sidebar(delta);
        app.main.apply_sidebar_selection();
    }
}

/// The mouse did something; tells whether the widths of the columns are to be stored.
pub fn handle_mouse(app: &mut AppState, screen: &mut Screen, event: MouseEvent) -> (store: bool)
    requires
        old(app).wf(),
        old(screen).widths.wf(),
        old(screen).boundaries@.len() <= old(app).visible_columns@.len(),
    ensures
        final(app).wf(),
        final(screen).widths.wf(),
        (final(app)@, final(screen)@, store) == after_mouse(old(app)@, old(screen)@, event),
{
    let in_main = match app.mode {
        Mode::Main => true,
        _ => false,
    };
    if app.prompt.is_some() || !in_main {
        return false;
    }
    match event.kind {
        MouseKind::LeftDown => mouse_left_down(app, screen, event),
        MouseKind::LeftDrag => mouse_drag(&app.visible_columns, screen, event),
        MouseKind::LeftUp => {
            if screen.drag.is_some() {
                screen.drag = None;
                return true;
            }
        },
        MouseKind::RightDown => {
            if event.row == screen.header_y && rect_contains(screen.list, event.column, event.row) {
                app.column_picker = Some(0);
            }
        },
        MouseKind::ScrollUp => mouse_scroll(app, screen, event, -3),
        MouseKind::ScrollDown => mouse_scroll(app, screen, event, 3),
        MouseKind::Other => {},
    }
    false
}

/// A dragged column never gets narrower than the least width.
pub proof fn law_dragged_columns_keep_the_least_width(
    columns: Seq<Column>,
    s: ScreenView,
    e: MouseEvent,
    key: Seq<char>,
)
    requires
        forall|k: Seq<char>| #[trigger]
            s.widths.contains_key(k) ==> s.widths[k] >= crate::tui::columns::MIN_COLUMN_WIDTH,
        after_drag(columns, s, e).widths.contains_key(key),
        s.drag matches Some(d) ==> d.start_width + (e.column - d.start_x) <= 65535,
    ensures
        after_drag(columns, s, e).widths[key] >= crate::tui::columns::MIN_COLUMN_WIDTH,
{
    assert(s.widths.contains_key(key) ==> s.widths[key] >= crate::tui::columns::MIN_COLUMN_WIDTH);
}

/// Scrolling moves the pane under the pointer and leaves the focus where it is.
pub proof fn law_scrolling_keeps_the_focus(v: MainView, s: ScreenView, e: MouseEvent, delta: int)
    ensures
        after_scroll(v, s, e, delta).focus == v.focus,
        after_scroll(v, s, e, delta).tab == v.tab,
{
}

/// A click on a row of the list selects the torrent that is drawn there.
pub proof fn law_clicked_torrent_is_selected(
    v: MainView,
    area: Area,
    inner: Area,
    layout: ListLayout,
    columns: Seq<Column>,
    overrides: NameMap<u16>,
    title: Seq<char>,
    column: u16,
    row: u16,
    double: bool,
)
    requires
        is_layout(layout, area, inner, columns, overrides, title),
        inner.y == area.y + 1,
        area.y + area.height <= u16::MAX,
        layout.data matches Some(data) && data.has(column, row),
        v.list.offset + (row - (layout.data->0).y) < shown(v.filters, v.torrents).len() <= usize::MAX,
    ensures
        list_clicked(v, area, row, double).list.selected == Some(
            (v.list.offset + (row - (layout.data->0).y)) as usize,
        ),
{
}

} // verus!
