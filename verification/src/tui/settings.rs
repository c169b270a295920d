//! The settings page.

use crate::config::Config;
use crate::config_keys::setting_of;
use crate::ipc::Response;
use crate::names::duplicate_list;
use crate::rss::pair_views;
use crate::text::{
    chars_of, concat2, concat4, is_empty, join, join_with, opt_text, same, string_of, texts, trim,
    trimmed,
};
use crate::textfield::slice_texts;
use crate::tui::keys::{Code, Key};
use crate::tui::schema::{
    choice_options, config_value_string, field_is_list, field_key, field_kind, first_of_tab,
    is_list, key_text, kind_of, law_tabs_partition_the_settings, needs_restart, options, tab_of,
    tab_start, value_text, Choice, FieldKind, FIELD_COUNT, TAB_COUNT,
};
use vstd::prelude::*;

verus! {

/// The list of network interfaces to pick from, as pairs of what is shown and what is stored.
#[derive(Clone, Debug, PartialEq, Eq)]
pub struct InterfacePickerState {
    pub items: Vec<(String, String)>,
    pub selected: usize,
}

/// The settings page.
#[derive(Clone, Debug, PartialEq, Eq)]
pub struct SettingsState {
    pub config: Config,
    /// the ratio limit as it is written
    pub ratio_text: String,
    /// whether the daemon starts on login
    pub autostart: bool,
    /// the selected setting, which is on the current tab
    pub selected: usize,
    pub current_tab: usize,
    /// the text of the setting that is being edited
    pub edit_buffer: Option<String>,
    /// what became of the last change
    pub status: Option<String>,
    /// the first line that is on screen
    pub scroll: u16,
    pub interface_picker: Option<InterfacePickerState>,
    /// the watched folders
    pub watch_dir_list: Vec<String>,
    pub watch_dir_selected: usize,
    /// whether a watched folder is being edited
    pub watch_dir_editing: bool,
    pub watch_dir_buffer: String,
}

/// The picker as plain values.
pub struct PickerView {
    pub items: Seq<(Seq<char>, Seq<char>)>,
    pub selected: int,
}

/// The page as plain values.
pub struct SettingsView {
    pub config: Config,
    pub ratio: Seq<char>,
    pub autostart: bool,
    pub selected: int,
    pub tab: int,
    pub edit: Option<Seq<char>>,
    pub status: Option<Seq<char>>,
    pub scroll: int,
    pub picker: Option<PickerView>,
    pub dirs: Seq<Seq<char>>,
    pub dir_selected: int,
    pub dir_editing: bool,
    pub dir_buffer: Seq<char>,
}

impl View for SettingsState {
    type V = SettingsView;

    open spec fn view(&self) -> SettingsView {
        SettingsView {
            config: self.config,
            ratio: self.ratio_text@,
            autostart: self.autostart,
            selected: self.selected as int,
            tab: self.current_tab as int,
            edit: opt_text(self.edit_buffer),
            status: opt_text(self.status),
            scroll: self.scroll as int,
            picker: match self.interface_picker {
                Some(p) => Some(
                    PickerView { items: pair_views(p.items@), selected: p.selected as int },
                ),
                None => None,
            },
            dirs: texts(self.watch_dir_list@),
            dir_selected: self.watch_dir_selected as int,
            dir_editing: self.watch_dir_editing,
            dir_buffer: self.watch_dir_buffer@,
        }
    }
}

/// What a key on the settings page leads to.
#[derive(Clone, Debug, PartialEq, Eq)]
pub enum SettingsOutcome {
    Stay,
    /// end the program
    Quit,
    /// back to the main view
    Close,
    /// set a value
    Commit { key: String, value: String },
    /// store the watched folders
    StoreFolders { value: String },
    /// list the network interfaces and open the picker
    ListInterfaces,
}

/// What a key leads to, as plain values.
pub enum OutcomeView {
    Stay,
    Quit,
    Close,
    Commit(Seq<char>, Seq<char>),
    StoreFolders(Seq<char>),
    ListInterfaces,
}

impl View for SettingsOutcome {
    type V = OutcomeView;

    open spec fn view(&self) -> OutcomeView {
        match *self {
            SettingsOutcome::Stay => OutcomeView::Stay,
            SettingsOutcome::Quit => OutcomeView::Quit,
            SettingsOutcome::Close => OutcomeView::Close,
            SettingsOutcome::Commit { key, value } => OutcomeView::Commit(key@, value@),
            SettingsOutcome::StoreFolders { value } => OutcomeView::StoreFolders(value@),
            SettingsOutcome::ListInterfaces => OutcomeView::ListInterfaces,
        }
    }
}

// ----- moving about -----

/// The page on another tab, at its first setting.
pub open spec fn on_tab(v: SettingsView, tab: int) -> SettingsView {
    SettingsView { tab, selected: tab_start(tab), scroll: 0, ..v }
}

/// The page one tab on or back.
pub open spec fn tab_switched(v: SettingsView, delta: int) -> SettingsView {
    SettingsView { edit: None, ..on_tab(v, (v.tab + delta) % TAB_COUNT as int) }
}

/// The page with the selection moved on its tab; behind the last setting comes the first.
pub open spec fn selection_moved(v: SettingsView, delta: int) -> SettingsView {
    let from = tab_start(v.tab);
    let count = tab_start(v.tab + 1) - from;
    SettingsView { selected: from + (v.selected - from + delta) % count, ..v }
}

/// The page after a key that moves about on it.
pub open spec fn after_move_key(v: SettingsView, key: Key) -> SettingsView {
    if key.code == Code::PageDown {
        selection_moved(v, 5)
    } else if key.code == Code::PageUp {
        selection_moved(v, -5)
    } else if key.code == Code::Home {
        SettingsView { selected: tab_start(v.tab), ..v }
    } else if key.code == Code::End {
        SettingsView { selected: tab_start(v.tab + 1) - 1, ..v }
    } else if key.code == Code::BackTab || (key.code == Code::Tab && key.shift && !key.control
        && !key.alt && !key.other) || key.code == Code::Left {
        tab_switched(v, -1)
    } else if key.code == Code::Tab || key.code == Code::Right {
        tab_switched(v, 1)
    } else {
        match key.digit() {
            Some(d) if 1 <= d <= TAB_COUNT => on_tab(v, d - 1),
            _ => v,
        }
    }
}

/// The key closes the page.
pub open spec fn closes(key: Key) -> bool {
    key.code == Code::Esc || key.is('q') || key.is(',')
}

/// The text without its last character.
pub open spec fn shortened(s: Seq<char>) -> Seq<char> {
    if s.len() > 0 {
        s.drop_last()
    } else {
        s
    }
}

// ----- the picker -----

/// The page and the outcome after a key in the picker. `value` is what the setting holds.
pub open spec fn after_picker_key(
    v: SettingsView,
    picker: PickerView,
    key: Key,
    value: Seq<char>,
) -> (SettingsView, OutcomeView) {
    let n = picker.items.len() as int;
    let last = if n > 0 {
        n - 1
    } else {
        0
    };
    let at = |row: int|
        SettingsView { picker: Some(PickerView { selected: row, ..picker }), ..v };
    match key.code {
        Code::Char('c') if key.control => (v, OutcomeView::Quit),
        Code::Esc | Code::Char('q') => (SettingsView { picker: None, ..v }, OutcomeView::Stay),
        Code::Char('s') | Code::Down => (
            at(
                if picker.selected + 1 < last {
                    picker.selected + 1
                } else {
                    last
                },
            ),
            OutcomeView::Stay,
        ),
        Code::Char('w') | Code::Up => (
            at(
                if picker.selected > 0 {
                    picker.selected - 1
                } else {
                    0
                },
            ),
            OutcomeView::Stay,
        ),
        Code::Home => (at(0), OutcomeView::Stay),
        Code::End => (at(last), OutcomeView::Stay),
        Code::Enter => if picker.selected < n {
            let chosen = picker.items[picker.selected].1;
            let closed = SettingsView { picker: None, ..v };
            if chosen == "__specific__"@ {
                (SettingsView { edit: Some(value), ..closed }, OutcomeView::Stay)
            } else {
                (closed, OutcomeView::Commit(key_text(v.selected), chosen))
            }
        } else {
            (v, OutcomeView::Stay)
        },
        _ => (v, OutcomeView::Stay),
    }
}

// ----- the watched folders -----

/// The page and the outcome after a key while a watched folder is edited.
pub open spec fn after_folder_edit_key(v: SettingsView, key: Key) -> (SettingsView, OutcomeView) {
    let done = SettingsView { dir_editing: false, dir_buffer: Seq::empty(), ..v };
    if key.is_quit() {
        (v, OutcomeView::Quit)
    } else if key.code == Code::Esc {
        (done, OutcomeView::Stay)
    } else if key.code == Code::Enter {
        let entry = trim(v.dir_buffer);
        if entry.len() == 0 {
            (done, OutcomeView::Stay)
        } else if v.dir_selected < v.dirs.len() {
            let dirs = v.dirs.update(v.dir_selected, entry);
            (SettingsView { dirs, ..done }, OutcomeView::StoreFolders(join(dirs, "\n"@)))
        } else {
            let dirs = v.dirs.push(entry);
            (
                SettingsView { dirs, dir_selected: dirs.len() - 1, ..done },
                OutcomeView::StoreFolders(join(dirs, "\n"@)),
            )
        }
    } else if key.code == Code::Backspace {
        (SettingsView { dir_buffer: shortened(v.dir_buffer), ..v }, OutcomeView::Stay)
    } else {
        match key.typed() {
            Some(c) => (
                SettingsView { dir_buffer: v.dir_buffer.push(c), ..v },
                OutcomeView::Stay,
            ),
            None => (v, OutcomeView::Stay),
        }
    }
}

/// The page and the outcome after a key while the list of watched folders is selected.
pub open spec fn after_folder_key(v: SettingsView, key: Key) -> (SettingsView, OutcomeView) {
    let n = v.dirs.len() as int;
    if key.is_quit() {
        (v, OutcomeView::Quit)
    } else if closes(key) {
        (v, OutcomeView::Close)
    } else if key.is_up() {
        (
            if n > 0 && v.dir_selected > 0 {
                SettingsView { dir_selected: v.dir_selected - 1, ..v }
            } else {
                v
            },
            OutcomeView::Stay,
        )
    } else if key.is_down() {
        (
            if n > 0 {
                SettingsView {
                    dir_selected: if v.dir_selected + 1 < n - 1 {
                        v.dir_selected + 1
                    } else {
                        n - 1
                    },
                    ..v
                }
            } else {
                v
            },
            OutcomeView::Stay,
        )
    } else if key.is('a') {
        (
            SettingsView { dir_selected: n, dir_editing: true, dir_buffer: Seq::empty(), ..v },
            OutcomeView::Stay,
        )
    } else if key.is('d') || key.code == Code::Delete {
        if v.dir_selected < n {
            let dirs = v.dirs.remove(v.dir_selected);
            let last = if n > 1 {
                n - 2
            } else {
                0
            };
            (
                SettingsView {
                    dirs,
                    dir_selected: if v.dir_selected < last {
                        v.dir_selected
                    } else {
                        last
                    },
                    ..v
                },
                OutcomeView::StoreFolders(join(dirs, "\n"@)),
            )
        } else {
            (v, OutcomeView::Stay)
        }
    } else if key.code == Code::Enter || key.is('i') {
        (
            SettingsView {
                dir_buffer: if v.dir_selected < n {
                    v.dirs[v.dir_selected]
                } else {
                    Seq::empty()
                },
                dir_editing: true,
                ..v
            },
            OutcomeView::Stay,
        )
    } else {
        (after_move_key(v, key), OutcomeView::Stay)
    }
}

// ----- editing and the rest -----

/// The page and the outcome after a key while a value is edited.
pub open spec fn after_edit_key(v: SettingsView, text: Seq<char>, key: Key) -> (
    SettingsView,
    OutcomeView,
) {
    if key.code == Code::Esc {
        (SettingsView { edit: None, ..v }, OutcomeView::Stay)
    } else if key.code == Code::Enter {
        (
            SettingsView { edit: None, ..v },
            OutcomeView::Commit(key_text(v.selected), text),
        )
    } else if key.code == Code::Backspace {
        (SettingsView { edit: Some(shortened(text)), ..v }, OutcomeView::Stay)
    } else {
        match key.typed() {
            Some(c) => (SettingsView { edit: Some(text.push(c)), ..v }, OutcomeView::Stay),
            None => (v, OutcomeView::Stay),
        }
    }
}

/// The position of the word among others, or the first where it is not among them.
pub open spec fn position_or_first(words: Seq<Seq<char>>, word: Seq<char>) -> int
    decreases words.len(),
{
    if words.len() == 0 {
        0
    } else if words[0] == word {
        0
    } else {
        let rest = words.skip(1);
        if rest.contains(word) {
            1 + position_or_first(rest, word)
        } else {
            0
        }
    }
}

/// The word behind the given one; behind the last comes the first.
pub open spec fn next_option(choice: Choice, value: Seq<char>) -> Seq<char> {
    let words = options(choice);
    words[(position_or_first(words, value) + 1) % words.len() as int]
}

/// The page and the outcome when a setting is activated that holds `value`.
pub open spec fn activated(v: SettingsView, value: Seq<char>) -> (SettingsView, OutcomeView) {
    let key = key_text(v.selected);
    match kind_of(v.selected) {
        FieldKind::Bool => (
            v,
            OutcomeView::Commit(
                key,
                if value == "true"@ {
                    "false"@
                } else {
                    "true"@
                },
            ),
        ),
        FieldKind::Choice(choice) => (v, OutcomeView::Commit(key, next_option(choice, value))),
        FieldKind::Interface => (v, OutcomeView::ListInterfaces),
        _ => (SettingsView { edit: Some(value), ..v }, OutcomeView::Stay),
    }
}

/// The page and the outcome after a key while nothing is being edited.
pub open spec fn after_page_key(v: SettingsView, key: Key, value: Seq<char>) -> (
    SettingsView,
    OutcomeView,
) {
    if key.is_quit() {
        (v, OutcomeView::Quit)
    } else if closes(key) {
        (v, OutcomeView::Close)
    } else if key.is_down() {
        (selection_moved(v, 1), OutcomeView::Stay)
    } else if key.is_up() {
        (selection_moved(v, -1), OutcomeView::Stay)
    } else if key.is('a') {
        (tab_switched(v, -1), OutcomeView::Stay)
    } else if key.is('d') {
        (tab_switched(v, 1), OutcomeView::Stay)
    } else if key.code == Code::Enter {
        activated(v, value)
    } else {
        (after_move_key(v, key), OutcomeView::Stay)
    }
}

/// The page and the outcome after a key. What is open takes the key first: the picker, the
/// editor of a folder, the list of folders, the editor of a value. `value` is what the selected
/// setting holds.
pub open spec fn after_settings_key(v: SettingsView, key: Key, value: Seq<char>) -> (
    SettingsView,
    OutcomeView,
) {
    match v.picker {
        Some(picker) => after_picker_key(v, picker, key, value),
        None => if v.dir_editing {
            after_folder_edit_key(v, key)
        } else if is_list(v.selected) {
            after_folder_key(v, key)
        } else {
            match v.edit {
                Some(text) => after_edit_key(v, text, key),
                None => after_page_key(v, key, value),
            }
        },
    }
}

/// Takes the last character off.
pub fn shorten(s: &str) -> (r: String)
    ensures
        r@ == shortened(s@),
{
    let v = chars_of(s);
    let n: usize = v.len();
    let out = string_of(v.as_slice(), 0, if n > 0 { n - 1 } else { 0 });
    assert(out@ =~= shortened(s@));
    out
}

/// Puts a character behind a text.
pub fn lengthen(s: &str, c: char) -> (r: String)
    ensures
        r@ == s@.push(c),
{
    let mut out = s.to_owned();
    out.push(c);
    out
}

impl SettingsState {
    /// The selection is on the current tab, and the folder selection is in its list or behind
    /// it.
    pub open spec fn wf(&self) -> bool {
        &&& self.selected < FIELD_COUNT
        &&& self.current_tab < TAB_COUNT
        &&& tab_of(self.selected as int) == self.current_tab
        &&& self.watch_dir_selected <= self.watch_dir_list@.len()
        &&& self.interface_picker matches Some(p) ==> p.selected < p.items@.len()
    }

    /// What the selected setting holds.
    pub open spec fn current_value(&self) -> Seq<char> {
        value_text(self.config, key_text(self.selected as int), self.ratio_text@, self.autostart)
    }

    /// The page that shows a configuration.
    pub fn load(config: Config, ratio_text: String, autostart: bool) -> (r: SettingsState)
        ensures
            r.wf(),
            r@ == (SettingsView {
                config,
                ratio: ratio_text@,
                autostart,
                selected: 0,
                tab: 0,
                edit: None,
                status: None,
                scroll: 0,
                picker: None,
                dirs: texts(config.watch_directories@),
                dir_selected: 0,
                dir_editing: false,
                dir_buffer: Seq::empty(),
            }),
    {
        let watch_dir_list = duplicate_list(&config.watch_directories);
        let r = SettingsState {
            config,
            ratio_text,
            autostart,
            selected: 0,
            current_tab: 0,
            edit_buffer: None,
            status: None,
            scroll: 0,
            interface_picker: None,
            watch_dir_list,
            watch_dir_selected: 0,
            watch_dir_editing: false,
            watch_dir_buffer: String::new(),
        };
        assert(r@.dir_buffer =~= Seq::<char>::empty());
        r
    }

    /// Takes up the configuration as the daemon has it now.
    pub fn refresh_config(&mut self, config: Config, ratio_text: String, autostart: bool)
        requires
            old(self).wf(),
        ensures
            final(self).wf(),
            ({
                let dirs = texts(config.watch_directories@);
                let last = if dirs.len() > 0 {
                    dirs.len() - 1
                } else {
                    0
                };
                final(self)@ == (SettingsView {
                    config,
                    ratio: ratio_text@,
                    autostart,
                    dirs,
                    dir_selected: if old(self)@.dir_selected < last {
                        old(self)@.dir_selected
                    } else {
                        last as int
                    },
                    ..old(self)@
                })
            }),
    {
        let list = duplicate_list(&config.watch_directories);
        let last: usize = if list.len() > 0 { list.len() - 1 } else { 0 };
        if self.watch_dir_selected > last {
            self.watch_dir_selected = last;
        }
        self.watch_dir_list = list;
        self.config = config;
        self.ratio_text = ratio_text;
        self.autostart = autostart;
    }

    /// Goes to the first setting of a tab.
    fn go_to_tab(&mut self, tab: usize)
        requires
            old(self).wf(),
            tab < TAB_COUNT,
        ensures
            final(self).wf(),
            final(self)@ == on_tab(old(self)@, tab as int),
    {
        self.current_tab = tab;
        self.selected = first_of_tab(tab);
        self.scroll = 0;
    }

    /// Goes one tab on or back; behind the last tab comes the first.
    pub fn switch_tab(&mut self, back: bool)
        requires
            old(self).wf(),
        ensures
            final(self).wf(),
            final(self)@ == tab_switched(
                old(self)@,
                if back {
                    -1
                } else {
                    1
                },
            ),
    {
        let tab: usize = if back {
            if self.current_tab == 0 {
                TAB_COUNT - 1
            } else {
                self.current_tab - 1
            }
        } else {
            if self.current_tab + 1 == TAB_COUNT {
                0
            } else {
                self.current_tab + 1
            }
        };
        self.go_to_tab(tab);
        self.edit_buffer = None;
    }

    /// Moves the selection on the tab; behind the last setting comes the first.
    pub fn move_selection(&mut self, delta: i64)
        requires
            old(self).wf(),
            -5 <= delta <= 5,
        ensures
            final(self).wf(),
            final(self)@ == selection_moved(old(self)@, delta as int),
    {
        let from: usize = first_of_tab(self.current_tab);
        let end: usize = first_of_tab(self.current_tab + 1);
        proof {
            law_tabs_partition_the_settings(self.selected as int, self.current_tab as int);
        }
        let count: i64 = end as i64 - from as i64;
        let position: i64 = self.selected as i64 - from as i64 + delta;
        let mut row: i64 = position;
        while row < 0
            invariant
                0 < count <= 33,
                -10 <= row < 100,
                (row as int) % (count as int) == (position as int) % (count as int),
            decreases 100 - row,
        {
            proof {
                lemma_add_period(row as int, count as int);
            }
            row = row + count;
        }
        while row >= count
            invariant
                0 < count <= 33,
                0 <= row < 200,
                (row as int) % (count as int) == (position as int) % (count as int),
            decreases row,
        {
            proof {
                lemma_add_period(row - count, count as int);
            }
            row = row - count;
        }
        proof {
            assert((row as int) % (count as int) == row) by (nonlinear_arith)
                requires
                    0 <= row < count,
            ;
            law_tabs_partition_the_settings(from + row, self.current_tab as int);
        }
        self.selected = from + row as usize;
    }
}

/// Adding the period does not change the remainder.
proof fn lemma_add_period(a: int, m: int)
    requires
        m > 0,
    ensures
        (a + m) % m == a % m,
{
    vstd::arithmetic::div_mod::lemma_mod_add_multiples_vanish(a, m);
}

// ----- keys -----

/// The position of the word among others, or the first where it is not among them.
fn position_of(words: &Vec<&'static str>, word: &str) -> (r: usize)
    requires
        words@.len() > 0,
    ensures
        r == position_or_first(slice_texts(words@), word@),
        r < words@.len(),
{
    let ghost all = slice_texts(words@);
    let mut i: usize = 0;
    while i < words.len()
        invariant
            i <= words@.len(),
            all == slice_texts(words@),
            forall|j: int| 0 <= j < i ==> #[trigger] all[j] != word@,
        decreases words@.len() - i,
    {
        assert(all[i as int] == words@[i as int]@);
        if same(words[i], word) {
            proof {
                lemma_position(all, word@, i as int);
            }
            return i;
        }
        i = i + 1;
    }
    proof {
        lemma_no_position(all, word@);
    }
    0
}

/// The first occurrence is the position.
proof fn lemma_position(words: Seq<Seq<char>>, word: Seq<char>, k: int)
    requires
        0 <= k < words.len(),
        words[k] == word,
        forall|j: int| 0 <= j < k ==> #[trigger] words[j] != word,
    ensures
        position_or_first(words, word) == k,
    decreases words.len(),
{
    if k > 0 {
        assert(words[0] != word);
        let rest = words.skip(1);
        assert(rest[k - 1] == word);
        assert forall|j: int| 0 <= j < k - 1 implies #[trigger] rest[j] != word by {
            assert(rest[j] == words[j + 1]);
        }
        lemma_position(rest, word, k - 1);
    }
}

/// A word that does not occur has the first position.
proof fn lemma_no_position(words: Seq<Seq<char>>, word: Seq<char>)
    requires
        forall|j: int| 0 <= j < words.len() ==> #[trigger] words[j] != word,
    ensures
        position_or_first(words, word) == 0,
{
    if words.len() > 0 {
        let rest = words.skip(1);
        if rest.contains(word) {
            let k = rest.index_of(word);
            assert(words[k + 1] == word);
        }
    }
}

/// The word behind the given one; behind the last comes the first.
fn option_after(choice: Choice, value: &str) -> (r: &'static str)
    ensures
        r@ == next_option(choice, value@),
{
    let words = choice_options(choice);
    let at: usize = position_of(&words, value);
    let n: usize = words.len();
    let next: usize = if at + 1 == n { 0 } else { at + 1 };
    proof {
        assert(slice_texts(words@)[next as int] == words@[next as int]@);
        if at + 1 == n {
            assert((at + 1) % n as int == 0) by (nonlinear_arith)
                requires
                    at + 1 == n,
                    n > 0,
            ;
        } else {
            assert((at + 1) % n as int == at + 1) by (nonlinear_arith)
                requires
                    0 <= at + 1 < n,
            ;
        }
    }
    words[next]
}

impl SettingsState {
    /// What the selected setting holds.
    fn value(&self) -> (r: String)
        requires
            self.wf(),
        ensures
            r@ == self.current_value(),
    {
        config_value_string(
            &self.config,
            field_key(self.selected),
            self.ratio_text.as_str(),
            self.autostart,
        )
    }

    /// A key that moves about on the page.
    fn move_key(&mut self, key: Key)
        requires
            old(self).wf(),
        ensures
            final(self).wf(),
            final(self)@ == after_move_key(old(self)@, key),
    {
        proof {
            law_tabs_partition_the_settings(self.selected as int, self.current_tab as int);
        }
        if key.code == Code::PageDown {
            self.move_selection(5);
        } else if key.code == Code::PageUp {
            self.move_selection(-5);
        } else if key.code == Code::Home {
            self.selected = first_of_tab(self.current_tab);
        } else if key.code == Code::End {
            let end: usize = first_of_tab(self.current_tab + 1);
            proof {
                law_tabs_partition_the_settings(end - 1, self.current_tab as int);
            }
            self.selected = end - 1;
        } else if key.code == Code::BackTab || (key.code == Code::Tab && key.shift && !key.control
            && !key.alt && !key.other) || key.code == Code::Left {
            self.switch_tab(true);
        } else if key.code == Code::Tab || key.code == Code::Right {
            self.switch_tab(false);
        } else if let Some(d) = key.pressed_digit() {
            if 1 <= d && d <= TAB_COUNT {
                self.go_to_tab(d - 1);
            }
        }
    }

    /// A key in the picker.
    fn picker_key(&mut self, key: Key) -> (out: SettingsOutcome)
        requires
            old(self).wf(),
            old(self).interface_picker is Some,
        ensures
            final(self).wf(),
            (final(self)@, out@) == after_picker_key(
                old(self)@,
                old(self)@.picker->0,
                key,
                old(self).current_value(),
            ),
    {
        let current = self.value();
        let picker = match &self.interface_picker {
            Some(p) => p,
            None => {
                return SettingsOutcome::Stay;
            },
        };
        let n: usize = picker.items.len();
        let row: usize = picker.selected;
        assert(pair_views(picker.items@)[row as int] == (
            picker.items@[row as int].0@,
            picker.items@[row as int].1@,
        ));
        match key.code {
            Code::Char('c') if key.control => {
                return SettingsOutcome::Quit;
            },
            Code::Esc | Code::Char('q') => {
                self.interface_picker = None;
                return SettingsOutcome::Stay;
            },
            Code::Enter => {
                let value = picker.items[row].1.clone();
                self.interface_picker = None;
                if same(value.as_str(), "__specific__") {
                    self.edit_buffer = Some(current);
                    return SettingsOutcome::Stay;
                }
                return SettingsOutcome::Commit { key: field_key(self.selected).to_owned(), value };
            },
            _ => {},
        }
        let to: usize = match key.code {
            Code::Char('s') | Code::Down => if row + 1 < n - 1 {
                row + 1
            } else {
                n - 1
            },
            Code::Char('w') | Code::Up => if row > 0 {
                row - 1
            } else {
                0
            },
            Code::Home => 0,
            Code::End => n - 1,
            _ => row,
        };
        self.select_interface(to);
        SettingsOutcome::Stay
    }

    /// Selects a row of the picker.
    fn select_interface(&mut self, row: usize)
        requires
            old(self).wf(),
            old(self).interface_picker is Some,
            row < old(self).interface_picker->0.items@.len(),
        ensures
            final(self).wf(),
            final(self)@ == (SettingsView {
                picker: Some(PickerView { selected: row as int, ..old(self)@.picker->0 }),
                ..old(self)@
            }),
    {
        if let Some(p) = &mut self.interface_picker {
            p.selected = row;
        }
    }

    /// The watched folders as they are stored.
    fn folder_text(&self) -> (r: String)
        ensures
            r@ == join(texts(self.watch_dir_list@), "\n"@),
    {
        join_with(&self.watch_dir_list, "\n")
    }

    /// A key while a watched folder is edited.
    fn folder_edit_key(&mut self, key: Key) -> (out: SettingsOutcome)
        requires
            old(self).wf(),
        ensures
            final(self).wf(),
            (final(self)@, out@) == after_folder_edit_key(old(self)@, key),
    {
        if key.quits() {
            return SettingsOutcome::Quit;
        }
        if key.code == Code::Esc {
            self.watch_dir_editing = false;
            self.watch_dir_buffer = String::new();
            assert(self@.dir_buffer =~= Seq::<char>::empty());
            return SettingsOutcome::Stay;
        }
        if key.code == Code::Enter {
            let entry = trimmed(self.watch_dir_buffer.as_str());
            self.watch_dir_editing = false;
            self.watch_dir_buffer = String::new();
            assert(self@.dir_buffer =~= Seq::<char>::empty());
            if is_empty(entry.as_str()) {
                return SettingsOutcome::Stay;
            }
            let ghost before = self.watch_dir_list@;
            let at: usize = self.watch_dir_selected;
            if at < self.watch_dir_list.len() {
                self.watch_dir_list.set(at, entry);
                assert(texts(self.watch_dir_list@) =~= texts(before).update(at as int, entry@));
            } else {
                self.watch_dir_list.push(entry);
                self.watch_dir_selected = self.watch_dir_list.len() - 1;
                assert(texts(self.watch_dir_list@) =~= texts(before).push(entry@));
            }
            return SettingsOutcome::StoreFolders { value: self.folder_text() };
        }
        if key.code == Code::Backspace {
            self.watch_dir_buffer = shorten(self.watch_dir_buffer.as_str());
        } else if let Some(c) = key.types() {
            self.watch_dir_buffer.push(c);
        }
        SettingsOutcome::Stay
    }

    /// A key while the list of watched folders is selected.
    fn folder_key(&mut self, key: Key) -> (out: SettingsOutcome)
        requires
            old(self).wf(),
        ensures
            final(self).wf(),
            (final(self)@, out@) == after_folder_key(old(self)@, key),
    {
        let n: usize = self.watch_dir_list.len();
        if key.quits() {
            return SettingsOutcome::Quit;
        }
        if key.code == Code::Esc || key.plain('q') || key.plain(',') {
            return SettingsOutcome::Close;
        }
        if key.goes_up() {
            if n > 0 && self.watch_dir_selected > 0 {
                self.watch_dir_selected = self.watch_dir_selected - 1;
            }
            return SettingsOutcome::Stay;
        }
        if key.goes_down() {
            if n > 0 {
                let last: usize = n - 1;
                self.watch_dir_selected = if self.watch_dir_selected < last
                    && self.watch_dir_selected + 1 < last {
                    self.watch_dir_selected + 1
                } else {
                    last
                };
            }
            return SettingsOutcome::Stay;
        }
        if key.plain('a') {
            self.watch_dir_selected = n;
            self.watch_dir_editing = true;
            self.watch_dir_buffer = String::new();
            assert(self@.dir_buffer =~= Seq::<char>::empty());
            return SettingsOutcome::Stay;
        }
        if key.plain('d') || key.code == Code::Delete {
            let at: usize = self.watch_dir_selected;
            if at < n {
                let ghost before = self.watch_dir_list@;
                self.watch_dir_list.remove(at);
                assert(texts(self.watch_dir_list@) =~= texts(before).remove(at as int));
                let last: usize = if n > 1 { n - 2 } else { 0 };
                self.watch_dir_selected = if at < last { at } else { last };
                return SettingsOutcome::StoreFolders { value: self.folder_text() };
            }
            return SettingsOutcome::Stay;
        }
        if key.code == Code::Enter || key.plain('i') {
            let at: usize = self.watch_dir_selected;
            self.watch_dir_buffer = if at < n {
                self.watch_dir_list[at].clone()
            } else {
                String::new()
            };
            self.watch_dir_editing = true;
            assert(self@.dir_buffer =~= if at < n { old(self)@.dirs[at as int] } else { Seq::empty() });
            return SettingsOutcome::Stay;
        }
        self.move_key(key);
        SettingsOutcome::Stay
    }

    /// A key while a value is edited.
    fn edit_key(&mut self, key: Key) -> (out: SettingsOutcome)
        requires
            old(self).wf(),
            old(self).edit_buffer is Some,
        ensures
            final(self).wf(),
            (final(self)@, out@) == after_edit_key(old(self)@, old(self)@.edit->0, key),
    {
        let text = match &self.edit_buffer {
            Some(text) => text.clone(),
            None => String::new(),
        };
        if key.code == Code::Esc {
            self.edit_buffer = None;
        } else if key.code == Code::Enter {
            self.edit_buffer = None;
            return SettingsOutcome::Commit {
                key: field_key(self.selected).to_owned(),
                value: text,
            };
        } else if key.code == Code::Backspace {
            self.edit_buffer = Some(shorten(text.as_str()));
        } else if let Some(c) = key.types() {
            self.edit_buffer = Some(lengthen(text.as_str(), c));
        }
        SettingsOutcome::Stay
    }

    /// Activates the selected setting: switches it, takes the next word, or opens its editor.
    pub fn activate_field(&mut self) -> (out: SettingsOutcome)
        requires
            old(self).wf(),
        ensures
            final(self).wf(),
            (final(self)@, out@) == activated(old(self)@, old(self).current_value()),
    {
        let current = self.value();
        let name = field_key(self.selected);
        match field_kind(self.selected) {
            FieldKind::Bool => {
                let value = if same(current.as_str(), "true") { "false" } else { "true" };
                SettingsOutcome::Commit { key: name.to_owned(), value: value.to_owned() }
            },
            FieldKind::Choice(choice) => {
                let value = option_after(choice, current.as_str());
                SettingsOutcome::Commit { key: name.to_owned(), value: value.to_owned() }
            },
            FieldKind::Interface => SettingsOutcome::ListInterfaces,
            _ => {
                self.edit_buffer = Some(current);
                SettingsOutcome::Stay
            },
        }
    }

    /// A key while nothing is being edited.
    fn page_key(&mut self, key: Key) -> (out: SettingsOutcome)
        requires
            old(self).wf(),
        ensures
            final(self).wf(),
            (final(self)@, out@) == after_page_key(old(self)@, key, old(self).current_value()),
    {
        if key.quits() {
            return SettingsOutcome::Quit;
        }
        if key.code == Code::Esc || key.plain('q') || key.plain(',') {
            return SettingsOutcome::Close;
        }
        if key.goes_down() {
            self.move_selection(1);
        } else if key.goes_up() {
            self.move_selection(-1);
        } else if key.plain('a') {
            self.switch_tab(true);
        } else if key.plain('d') {
            self.switch_tab(false);
        } else if key.code == Code::Enter {
            return self.activate_field();
        } else {
            self.move_key(key);
        }
        SettingsOutcome::Stay
    }

    /// A key on the settings page.
    pub fn handle_settings_key(&mut self, key: Key) -> (out: SettingsOutcome)
        requires
            old(self).wf(),
        ensures
            final(self).wf(),
            (final(self)@, out@) == after_settings_key(
                old(self)@,
                key,
                old(self).current_value(),
            ),
    {
        if self.interface_picker.is_some() {
            return self.picker_key(key);
        }
        if self.watch_dir_editing {
            return self.folder_edit_key(key);
        }
        if field_is_list(self.selected) {
            return self.folder_key(key);
        }
        if self.edit_buffer.is_some() {
            return self.edit_key(key);
        }
        self.page_key(key)
    }
}

// ----- what becomes of a change -----

/// The rows of the picker for those interfaces.
pub open spec fn picker_items(interfaces: Seq<(Seq<char>, Seq<char>)>) -> Seq<
    (Seq<char>, Seq<char>),
> {
    seq![("any (all interfaces)"@, Seq::<char>::empty())] + interfaces.map_values(
        |i: (Seq<char>, Seq<char>)| (i.0 + "  ("@ + i.1 + ")"@, i.0),
    ) + seq![("specific ip\u{2026}"@, "__specific__"@)]
}

/// The first row that stores the value, or the first of all where none does.
pub open spec fn picker_row(items: Seq<(Seq<char>, Seq<char>)>, value: Seq<char>, from: int) -> int
    decreases items.len() - from,
{
    if from < 0 || from >= items.len() {
        0
    } else if items[from].1 == value {
        from
    } else {
        picker_row(items, value, from + 1)
    }
}

/// What the status line says of a change.
pub open spec fn change_status(saved: Seq<char>, answer: Result<Response, String>) -> Seq<char> {
    match answer {
        Ok(Response::Done) => saved,
        Ok(Response::Failed(why)) => "error: "@ + why@,
        Ok(_) => "error: unexpected response to SetConfig"@,
        Err(why) => "error: "@ + why@,
    }
}

/// What the status line says of a change.
fn write_change_status(saved: String, answer: &Result<Response, String>) -> (r: (String, bool))
    ensures
        r.0@ == change_status(saved@, *answer),
        r.1 == (answer matches Ok(Response::Done)),
{
    match answer {
        Ok(Response::Done) => (saved, true),
        Ok(Response::Failed(why)) => (concat2("error: ", why.as_str()), false),
        Ok(_) => ("error: unexpected response to SetConfig".to_owned(), false),
        Err(why) => (concat2("error: ", why.as_str()), false),
    }
}

impl SettingsState {
    /// Opens the picker for those interfaces, at the one that is stored now.
    pub fn open_interface_picker(&mut self, interfaces: &Vec<(String, String)>)
        requires
            old(self).wf(),
        ensures
            final(self).wf(),
            ({
                let items = picker_items(pair_views(interfaces@));
                final(self)@ == (SettingsView {
                    picker: Some(
                        PickerView { items, selected: picker_row(items, old(self).current_value(), 0) },
                    ),
                    ..old(self)@
                })
            }),
    {
        let current = self.value();
        let ghost given = pair_views(interfaces@);
        let ghost all = picker_items(given);
        let mut items: Vec<(String, String)> = Vec::new();
        items.push(("any (all interfaces)".to_owned(), String::new()));
        let mut i: usize = 0;
        assert(items@[0].1@ =~= Seq::<char>::empty());
        assert(pair_views(items@) =~= all.take(1));
        while i < interfaces.len()
            invariant
                i <= interfaces@.len(),
                given == pair_views(interfaces@),
                all == picker_items(given),
                pair_views(items@) == all.take(i + 1),
            decreases interfaces@.len() - i,
        {
            let name = interfaces[i].0.clone();
            let label = concat4(name.as_str(), "  (", interfaces[i].1.as_str(), ")");
            proof {
                assert(given[i as int] == (interfaces@[i as int].0@, interfaces@[i as int].1@));
                assert(all[i + 1] == (label@, name@));
            }
            let ghost before = items@;
            items.push((label, name));
            assert(pair_views(items@) =~= pair_views(before).push((label@, name@)));
            assert(pair_views(items@) =~= all.take(i + 2));
            i = i + 1;
        }
        let ghost before = items@;
        items.push(("specific ip\u{2026}".to_owned(), "__specific__".to_owned()));
        assert(pair_views(items@) =~= pair_views(before).push(
            ("specific ip\u{2026}"@, "__specific__"@),
        ));
        assert(all.take(i + 1).push(all[i + 1]) =~= all);
        assert(pair_views(items@) =~= all);
        let mut selected: usize = 0;
        let mut k: usize = 0;
        let mut searching = true;
        while k < items.len() && searching
            invariant
                k <= items@.len(),
                items@.len() > 0,
                all == pair_views(items@),
                searching ==> selected == 0 && picker_row(all, current@, 0) == picker_row(
                    all,
                    current@,
                    k as int,
                ),
                !searching ==> selected == picker_row(all, current@, 0),
                selected < items@.len(),
            decreases items@.len() - k + (if searching { 1int } else { 0int }),
        {
            assert(all[k as int] == (items@[k as int].0@, items@[k as int].1@));
            if same(items[k].1.as_str(), current.as_str()) {
                selected = k;
                searching = false;
            } else {
                k = k + 1;
            }
        }
        self.interface_picker = Some(InterfacePickerState { items, selected });
    }

    /// Notes what became of a value that was set; tells whether the configuration is to be read
    /// anew.
    pub fn settle_commit(&mut self, key: &str, value: &str, answer: &Result<Response, String>) -> (r:
        bool)
        requires
            old(self).wf(),
        ensures
            final(self).wf(),
            r == (answer matches Ok(Response::Done)),
            final(self)@ == (SettingsView {
                status: Some(change_status("saved "@ + key@ + " = "@ + value@, *answer)),
                ..old(self)@
            }),
    {
        let saved = concat4("saved ", key, " = ", value);
        let (text, fresh) = write_change_status(saved, answer);
        self.status = Some(text);
        fresh
    }

    /// Notes what became of the watched folders that were stored; tells whether the
    /// configuration is to be read anew.
    pub fn settle_folders(&mut self, answer: &Result<Response, String>) -> (r: bool)
        requires
            old(self).wf(),
        ensures
            final(self).wf(),
            r == (answer matches Ok(Response::Done)),
            final(self)@ == (SettingsView {
                status: Some(change_status("saved watch_directories"@, *answer)),
                ..old(self)@
            }),
    {
        let (text, fresh) = write_change_status("saved watch_directories".to_owned(), answer);
        self.status = Some(text);
        fresh
    }

    /// Notes what became of starting the daemon on login, or no longer.
    pub fn settle_autostart(&mut self, value: &str, done: &Result<(), String>)
        requires
            old(self).wf(),
        ensures
            final(self).wf(),
            final(self)@ == (SettingsView {
                status: Some(
                    match *done {
                        Ok(_) => if value@ == "true"@ {
                            "autostart enabled"@
                        } else {
                            "autostart disabled"@
                        },
                        Err(why) => "error: "@ + why@,
                    },
                ),
                ..old(self)@
            }),
    {
        let text = match done {
            Ok(_) => if same(value, "true") {
                "autostart enabled".to_owned()
            } else {
                "autostart disabled".to_owned()
            },
            Err(why) => concat2("error: ", why.as_str()),
        };
        self.status = Some(text);
    }
}

/// Every setting of the page but the start on login has a key that the daemon knows.
pub proof fn law_every_setting_can_be_set(i: int)
    requires
        0 <= i < FIELD_COUNT,
        i != 32,
    ensures
        setting_of(key_text(i)) is Some,
        needs_restart(i) ==> crate::config_keys::needs_restart(key_text(i)),
{
}

/// Whatever is open on the page, ctrl+c ends the program, but for the editor of a value, which
/// ignores it.
pub proof fn law_control_c_quits_settings(v: SettingsView, key: Key, value: Seq<char>)
    requires
        key.is_quit(),
        v.picker is Some || v.dir_editing || is_list(v.selected) || v.edit is None,
    ensures
        after_settings_key(v, key, value) == (v, OutcomeView::Quit),
{
}

} // verus!
