//! The lines of the settings page.

use crate::display::{pad, padded};
use crate::integers::{parse_i32, written_within};
use crate::rss::pair_views;
use crate::text::{
    concat2, concat3, concat4, decimal, decimal_i64, decimal_u64, has_prefix, is_empty, join,
    join_with, same, starts_with, texts, trim, trimmed,
};
use crate::textfield::slice_texts;
use crate::tui::add_form::{edited_text, format_bool, switch_text};
use crate::tui::schema::{
    choice_options, config_value_string, description_text, field_description, field_is_list,
    field_key, field_kind, field_label, field_restarts, first_of_tab, is_list, key_text, kind_of,
    label_text, law_tabs_partition_the_settings, needs_restart, options, section_title, tab_start,
    tab_title, value_text, Choice, FieldKind, FIELD_COUNT, TAB_COUNT,
};
use crate::tui::settings::{SettingsState, SettingsView};
use vstd::prelude::*;

verus! {

/// The choices in a line, the chosen one in brackets.
pub open spec fn choice_line(words: Seq<Seq<char>>, value: Seq<char>) -> Seq<char> {
    join(
        words.map_values(
            |w: Seq<char>|
                if w == value {
                    "["@ + w + "]"@
                } else {
                    w
                },
        ),
        " "@,
    )
}

/// The first interface from `k` on with the name.
pub open spec fn interface_named(
    interfaces: Seq<(Seq<char>, Seq<char>)>,
    name: Seq<char>,
    k: int,
) -> Option<Seq<char>>
    decreases interfaces.len() - k,
{
    if k < 0 || k >= interfaces.len() {
        None
    } else if interfaces[k].0 == name {
        Some(interfaces[k].1)
    } else {
        interface_named(interfaces, name, k + 1)
    }
}

/// A stored value as it is shown. `interfaces` are the interfaces of this machine with their
/// addresses, and `is_address` tells whether the value is an address itself.
pub open spec fn shown_value(
    kind: FieldKind,
    value: Seq<char>,
    interfaces: Seq<(Seq<char>, Seq<char>)>,
    is_address: bool,
) -> Seq<char> {
    match kind {
        FieldKind::Choice(choice) => choice_line(options(choice), value),
        FieldKind::Bool => switch_text(value == "true"@),
        FieldKind::IntegerUnlimited => match written_within(
            value,
            true,
            i32::MIN as int,
            i32::MAX as int,
        ) {
            Some(n) => if n == -1 {
                "\u{221e}  unlimited"@
            } else if n == 0 {
                "0  (none allowed)"@
            } else {
                decimal(n)
            },
            None => value,
        },
        FieldKind::Interface => if trim(value).len() == 0 {
            "any (all interfaces)"@
        } else {
            match interface_named(interfaces, value, 0) {
                Some(address) => value + "  ("@ + address + ")"@,
                None => if is_address {
                    value + "  [specific ip]"@
                } else {
                    value
                },
            }
        },
        _ => value,
    }
}

/// The choices in a line.
fn write_choices(choice: Choice, value: &str) -> (r: String)
    ensures
        r@ == choice_line(options(choice), value@),
{
    let words = choice_options(choice);
    let ghost all = options(choice);
    let ghost marked = all.map_values(
        |w: Seq<char>|
            if w == value@ {
                "["@ + w + "]"@
            } else {
                w
            },
    );
    let mut parts: Vec<String> = Vec::new();
    let mut i: usize = 0;
    assert(slice_texts(words@).len() == words@.len());
    while i < words.len()
        invariant
            i <= words@.len(),
            all == slice_texts(words@),
            marked == all.map_values(
                |w: Seq<char>|
                    if w == value@ {
                        "["@ + w + "]"@
                    } else {
                        w
                    },
            ),
            parts@.len() == i,
            forall|j: int| 0 <= j < i ==> (#[trigger] parts@[j])@ == marked[j],
        decreases words@.len() - i,
    {
        assert(all[i as int] == words@[i as int]@);
        if same(words[i], value) {
            parts.push(concat3("[", words[i], "]"));
        } else {
            parts.push(words[i].to_owned());
        }
        i = i + 1;
    }
    assert(texts(parts@) =~= marked);
    join_with(&parts, " ")
}

/// The address of the first interface with the name.
fn find_interface(interfaces: &Vec<(String, String)>, name: &str) -> (r: Option<String>)
    ensures
        crate::text::opt_text(r) == interface_named(pair_views(interfaces@), name@, 0),
{
    let ghost all = pair_views(interfaces@);
    let mut k: usize = 0;
    assert(all.len() == interfaces@.len());
    while k < interfaces.len()
        invariant
            k <= interfaces@.len(),
            all == pair_views(interfaces@),
            all.len() == interfaces@.len(),
            interface_named(all, name@, 0) == interface_named(all, name@, k as int),
        decreases interfaces@.len() - k,
    {
        assert(all[k as int] == (interfaces@[k as int].0@, interfaces@[k as int].1@));
        if same(interfaces[k].0.as_str(), name) {
            return Some(interfaces[k].1.clone());
        }
        k = k + 1;
    }
    None
}

/// A stored value as it is shown.
fn show_value(
    kind: FieldKind,
    value: &str,
    interfaces: &Vec<(String, String)>,
    is_address: bool,
) -> (r: String)
    ensures
        r@ == shown_value(kind, value@, pair_views(interfaces@), is_address),
{
    match kind {
        FieldKind::Choice(choice) => write_choices(choice, value),
        FieldKind::Bool => format_bool(same(value, "true")),
        FieldKind::IntegerUnlimited => match parse_i32(value) {
            Ok(n) => if n == -1 {
                "\u{221e}  unlimited".to_owned()
            } else if n == 0 {
                "0  (none allowed)".to_owned()
            } else {
                decimal_i64(n as i64)
            },
            Err(_) => value.to_owned(),
        },
        FieldKind::Interface => {
            let bare = trimmed(value);
            if is_empty(bare.as_str()) {
                return "any (all interfaces)".to_owned();
            }
            match find_interface(interfaces, value) {
                Some(address) => concat4(value, "  (", address.as_str(), ")"),
                None => if is_address {
                    concat2(value, "  [specific ip]")
                } else {
                    value.to_owned()
                },
            }
        },
        _ => value.to_owned(),
    }
}

/// What this machine says of the network.
#[derive(Clone, Debug, PartialEq, Eq)]
pub struct Network {
    /// the interfaces with their addresses
    pub interfaces: Vec<(String, String)>,
    /// whether the listen address is an address itself, and no name
    pub is_address: bool,
}

/// One line of the page.
#[derive(Clone, Debug, PartialEq, Eq)]
pub enum PageLine {
    /// a setting
    Setting {
        selected: bool,
        /// whether its value is being typed
        edited: bool,
        label: String,
        value: String,
        /// whether a change takes effect after a restart only
        restart: bool,
    },
    /// an entry of the selected list
    Entry {
        selected: bool,
        /// whether it is being typed
        edited: bool,
        text: String,
    },
}

/// One line of the page as plain values.
pub enum LineView {
    Setting(bool, bool, Seq<char>, Seq<char>, bool),
    Entry(bool, bool, Seq<char>),
}

impl View for PageLine {
    type V = LineView;

    open spec fn view(&self) -> LineView {
        match *self {
            PageLine::Setting { selected, edited, label, value, restart } => LineView::Setting(
                selected,
                edited,
                label@,
                value@,
                restart,
            ),
            PageLine::Entry { selected, edited, text } => LineView::Entry(
                selected,
                edited,
                text@,
            ),
        }
    }
}

/// The lines as plain values.
pub open spec fn line_views(lines: Seq<PageLine>) -> Seq<LineView> {
    lines.map_values(|l: PageLine| l@)
}

/// How many entries a list has, in words.
pub open spec fn count_text(n: int) -> Seq<char> {
    if n == 0 {
        "(none)"@
    } else if n == 1 {
        "1 entry"@
    } else {
        decimal(n) + " entries"@
    }
}

/// The line of an entry of the list of folders.
pub open spec fn entry_line(v: SettingsView, i: int) -> LineView {
    let chosen = i == v.dir_selected;
    if chosen && v.dir_editing {
        LineView::Entry(true, true, edited_text(v.dir_buffer))
    } else if chosen {
        LineView::Entry(true, false, "\u{25b8} "@ + v.dirs[i])
    } else {
        LineView::Entry(false, false, "  "@ + v.dirs[i])
    }
}

/// The lines of the entries of the list of folders; one that is being added comes last.
pub open spec fn entry_lines(v: SettingsView) -> Seq<LineView> {
    Seq::new(v.dirs.len(), |i: int| entry_line(v, i)) + (if v.dir_editing && v.dir_selected
        >= v.dirs.len() {
        seq![LineView::Entry(true, true, edited_text(v.dir_buffer))]
    } else {
        Seq::empty()
    })
}

/// The lines of one setting. `value` is what it holds.
pub open spec fn setting_lines(
    v: SettingsView,
    i: int,
    value: Seq<char>,
    interfaces: Seq<(Seq<char>, Seq<char>)>,
    is_address: bool,
) -> Seq<LineView> {
    let selected = i == v.selected;
    let label = padded(label_text(i), 32);
    if is_list(i) {
        seq![
            LineView::Setting(selected, false, label, count_text(v.dirs.len() as int), false),
        ] + (if selected {
            entry_lines(v)
        } else {
            Seq::empty()
        })
    } else {
        let edited = selected && v.edit is Some;
        seq![
            LineView::Setting(
                selected,
                edited,
                label,
                if edited {
                    edited_text(v.edit->0)
                } else {
                    shown_value(kind_of(i), value, interfaces, is_address)
                },
                needs_restart(i),
            ),
        ]
    }
}

/// The lines of the settings from the first of the tab up to `n`.
pub open spec fn page_lines(
    s: SettingsState,
    from: int,
    n: int,
    interfaces: Seq<(Seq<char>, Seq<char>)>,
    is_address: bool,
) -> Seq<LineView>
    decreases n - from,
{
    if n <= from {
        Seq::empty()
    } else {
        page_lines(s, from, n - 1, interfaces, is_address) + setting_lines(
            s@,
            n - 1,
            value_text(s.config, key_text(n - 1), s.ratio_text@, s.autostart),
            interfaces,
            is_address,
        )
    }
}

/// The first line on screen, such that the selected one is on it.
pub open spec fn scrolled(scroll: int, row: int, lines: int, height: int) -> int {
    let near = if row < scroll {
        row
    } else if height > 0 && row >= scroll + height {
        row + 1 - height
    } else {
        scroll
    };
    let most = if lines > height {
        lines - height
    } else {
        0
    };
    if near > most {
        most
    } else {
        near
    }
}

impl SettingsState {
    /// How many entries the list has, in words.
    fn count_line(&self) -> (r: String)
        ensures
            r@ == count_text(self@.dirs.len() as int),
    {
        let n: usize = self.watch_dir_list.len();
        assert(texts(self.watch_dir_list@).len() == self.watch_dir_list@.len());
        if n == 0 {
            "(none)".to_owned()
        } else if n == 1 {
            "1 entry".to_owned()
        } else {
            let number = decimal_u64(n as u64);
            concat2(number.as_str(), " entries")
        }
    }

    /// Appends the lines of the entries.
    fn push_entries(&self, lines: &mut Vec<PageLine>)
        requires
            self.wf(),
        ensures
            line_views(final(lines)@) == line_views(old(lines)@) + entry_lines(self@),
    {
        let ghost start = line_views(lines@);
        let ghost all = Seq::new(self@.dirs.len(), |i: int| entry_line(self@, i));
        let mut i: usize = 0;
        assert(texts(self.watch_dir_list@).len() == self.watch_dir_list@.len());
        assert(line_views(lines@) =~= start + all.take(0));
        while i < self.watch_dir_list.len()
            invariant
                i <= self.watch_dir_list@.len(),
                self@.dirs.len() == self.watch_dir_list@.len(),
                all == Seq::new(self@.dirs.len(), |i: int| entry_line(self@, i)),
                line_views(lines@) == start + all.take(i as int),
            decreases self.watch_dir_list@.len() - i,
        {
            let chosen = i == self.watch_dir_selected;
            assert(texts(self.watch_dir_list@)[i as int] == self.watch_dir_list@[i as int]@);
            let line = if chosen && self.watch_dir_editing {
                PageLine::Entry {
                    selected: true,
                    edited: true,
                    text: concat3("[ ", self.watch_dir_buffer.as_str(), "_ ]"),
                }
            } else if chosen {
                PageLine::Entry {
                    selected: true,
                    edited: false,
                    text: concat2("\u{25b8} ", self.watch_dir_list[i].as_str()),
                }
            } else {
                PageLine::Entry {
                    selected: false,
                    edited: false,
                    text: concat2("  ", self.watch_dir_list[i].as_str()),
                }
            };
            assert(line@ == all[i as int]);
            let ghost before = lines@;
            lines.push(line);
            assert(line_views(lines@) =~= line_views(before).push(line@));
            assert(line_views(lines@) =~= start + all.take(i as int + 1));
            i = i + 1;
        }
        assert(all.take(all.len() as int) =~= all);
        if self.watch_dir_editing && self.watch_dir_selected >= self.watch_dir_list.len() {
            let ghost before = lines@;
            let line = PageLine::Entry {
                selected: true,
                edited: true,
                text: concat3("[ ", self.watch_dir_buffer.as_str(), "_ ]"),
            };
            lines.push(line);
            assert(line_views(lines@) =~= line_views(before).push(line@));
        }
        assert(line_views(lines@) =~= start + entry_lines(self@));
    }

    /// A setting's value as it is shown: the text that is typed, or what it holds.
    fn render_value(&self, i: usize, network: &Network) -> (r: String)
        requires
            i < FIELD_COUNT,
        ensures
            r@ == (if i == self.selected && self.edit_buffer is Some {
                edited_text(self@.edit->0)
            } else {
                shown_value(
                    kind_of(i as int),
                    value_text(
                        self.config,
                        key_text(i as int),
                        self.ratio_text@,
                        self.autostart,
                    ),
                    pair_views(network.interfaces@),
                    network.is_address,
                )
            }),
    {
        if i == self.selected {
            if let Some(text) = &self.edit_buffer {
                return concat3("[ ", text.as_str(), "_ ]");
            }
        }
        let value = config_value_string(
            &self.config,
            field_key(i),
            self.ratio_text.as_str(),
            self.autostart,
        );
        show_value(field_kind(i), value.as_str(), &network.interfaces, network.is_address)
    }

    /// The lines of the current tab.
    pub fn body_lines(&self, network: &Network) -> (r: Vec<PageLine>)
        requires
            self.wf(),
        ensures
            line_views(r@) == page_lines(
                *self,
                tab_start(self.current_tab as int),
                tab_start(self.current_tab + 1),
                pair_views(network.interfaces@),
                network.is_address,
            ),
    {
        let from: usize = first_of_tab(self.current_tab);
        let end: usize = first_of_tab(self.current_tab + 1);
        let mut lines: Vec<PageLine> = Vec::new();
        let mut i: usize = from;
        assert(line_views(lines@) =~= Seq::<LineView>::empty());
        while i < end
            invariant
                from <= i <= end,
                end <= FIELD_COUNT,
                self.wf(),
                line_views(lines@) == page_lines(
                    *self,
                    from as int,
                    i as int,
                    pair_views(network.interfaces@),
                    network.is_address,
                ),
            decreases end - i,
        {
            let ghost before = lines@;
            let selected = i == self.selected;
            let label = pad(field_label(i), 32);
            if field_is_list(i) {
                let line = PageLine::Setting {
                    selected,
                    edited: false,
                    label,
                    value: self.count_line(),
                    restart: false,
                };
                lines.push(line);
                assert(line_views(lines@) =~= line_views(before) + seq![line@]);
                if selected {
                    self.push_entries(&mut lines);
                    assert(line_views(lines@) =~= line_views(before) + (seq![line@] + entry_lines(
                        self@,
                    )));
                } else {
                    assert(seq![line@] + Seq::<LineView>::empty() =~= seq![line@]);
                }
            } else {
                let line = PageLine::Setting {
                    selected,
                    edited: selected && self.edit_buffer.is_some(),
                    label,
                    value: self.render_value(i, network),
                    restart: field_restarts(i),
                };
                lines.push(line);
                assert(line_views(lines@) =~= line_views(before) + seq![line@]);
            }
            i = i + 1;
        }
        lines
    }

    /// Scrolls so that the selected setting is among the `height` lines on screen.
    pub fn keep_in_sight(&mut self, lines: usize, height: u16)
        requires
            old(self).wf(),
        ensures
            final(self).wf(),
            final(self)@ == (SettingsView {
                scroll: scrolled(
                    old(self)@.scroll,
                    old(self)@.selected - tab_start(old(self)@.tab),
                    (lines % 65536) as int,
                    height as int,
                ),
                ..old(self)@
            }),
    {
        proof {
            law_tabs_partition_the_settings(self.selected as int, self.current_tab as int);
        }
        let row: u16 = (self.selected - first_of_tab(self.current_tab)) as u16;
        let count: u16 = (lines % 65536) as u16;
        let near: u16 = if row < self.scroll {
            row
        } else if height > 0 && row as u32 >= self.scroll as u32 + height as u32 {
            row + 1 - height
        } else {
            self.scroll
        };
        let most: u16 = count.saturating_sub(height);
        self.scroll = if near > most { most } else { near };
    }
}

// ----- around the lines -----

/// The tab bar: the tabs to the left, in the middle and to the right, and the place among all.
pub open spec fn bar_texts(tab: int) -> Seq<Seq<char>> {
    seq![
        tab_title((tab + TAB_COUNT - 1) % TAB_COUNT as int),
        " "@ + tab_title(tab) + " "@,
        tab_title((tab + 1) % TAB_COUNT as int),
        "["@ + decimal(tab + 1) + "/"@ + decimal(TAB_COUNT as int) + "]"@,
    ]
}

/// What the last line of the page offers.
#[derive(Clone, Copy, Debug, PartialEq, Eq, Structural)]
pub enum Hints {
    /// a folder is typed
    Folder,
    /// the list of folders is selected
    List,
    /// a value is typed
    Value,
    Page,
}

/// What the last line of the page offers.
pub open spec fn hints_of(v: SettingsView) -> Hints {
    if v.dir_editing {
        Hints::Folder
    } else if is_list(v.selected) {
        Hints::List
    } else if v.edit is Some {
        Hints::Value
    } else {
        Hints::Page
    }
}

impl SettingsState {
    /// The texts of the tab bar.
    pub fn tab_bar(&self) -> (r: Vec<String>)
        requires
            self.wf(),
        ensures
            texts(r@) == bar_texts(self@.tab),
    {
        let tab: usize = self.current_tab;
        let mut out: Vec<String> = Vec::new();
        let at = decimal_u64(tab as u64 + 1);
        let all = decimal_u64(TAB_COUNT as u64);
        let place = concat4("[", at.as_str(), "/", all.as_str());
        out.push(section_title((tab + TAB_COUNT - 1) % TAB_COUNT).to_owned());
        out.push(concat3(" ", section_title(tab), " "));
        out.push(section_title((tab + 1) % TAB_COUNT).to_owned());
        out.push(concat2(place.as_str(), "]"));
        assert(texts(out@) =~= bar_texts(self@.tab));
        out
    }

    /// What the selected setting is about.
    pub fn description(&self) -> (r: &'static str)
        requires
            self.wf(),
        ensures
            r@ == description_text(self@.selected),
    {
        field_description(self.selected)
    }

    /// Whether the status tells of an error.
    pub fn status_is_error(&self) -> (r: bool)
        ensures
            r == (self@.status matches Some(text) && has_prefix(text, "error"@)),
    {
        match &self.status {
            Some(text) => starts_with(text.as_str(), "error"),
            None => false,
        }
    }

    /// What the last line of the page offers.
    pub fn hints(&self) -> (r: Hints)
        requires
            self.wf(),
        ensures
            r == hints_of(self@),
    {
        if self.watch_dir_editing {
            Hints::Folder
        } else if field_is_list(self.selected) {
            Hints::List
        } else if self.edit_buffer.is_some() {
            Hints::Value
        } else {
            Hints::Page
        }
    }
}

/// After scrolling, the selected line is on a screen that shows any line.
pub proof fn law_selected_setting_is_in_sight(scroll: int, row: int, lines: int, height: int)
    requires
        0 <= scroll,
        0 <= row < lines,
        height > 0,
    ensures
        0 <= scrolled(scroll, row, lines, height) <= row,
        row < scrolled(scroll, row, lines, height) + height,
{
}

} // verus!
