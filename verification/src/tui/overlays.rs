//! What lies over the main view or takes its keys: the question whether to delete, a line that
//! is typed, and the list of columns.

use crate::ipc::Request;
use crate::tui::columns::{
    law_a_column_is_always_shown, lemma_first_of_bounds, move_visible_column, shifted,
    toggle_column, toggled, Column, COLUMN_COUNT,
};
use crate::tui::files::{completed_filter, filter_completed, refiltered};
use crate::tui::filters::{shown, FiltersView};
use crate::tui::keys::{Code, Key};
use crate::tui::main_view::{
    ConfirmDelete, ConfirmView, InputPurpose, InputView, MainState, MainView, TextInput,
};
use crate::tui::selection::kept;
use crate::tui::settings::{lengthen, shorten, shortened};
use vstd::prelude::*;

verus! {

// ----- deleting -----

/// What a key on the question leads to.
#[derive(Clone, Copy, Debug, PartialEq, Eq, Structural)]
pub enum ConfirmOutcome {
    Stay,
    /// end the program
    Quit,
    /// keep the torrent
    Cancel,
    /// delete it
    Delete,
}

/// The question after a key, and what it leads to.
pub open spec fn after_confirm_key(v: ConfirmView, key: Key) -> (ConfirmView, ConfirmOutcome) {
    if key.is_quit() {
        (v, ConfirmOutcome::Quit)
    } else if key.code == Code::Esc || key.code == Code::Char('n') {
        (v, ConfirmOutcome::Cancel)
    } else if key.code == Code::Enter || key.code == Code::Char('y') {
        (v, ConfirmOutcome::Delete)
    } else if key.code == Code::Tab || key.code == Code::Char(' ') {
        (ConfirmView { delete_files: !v.delete_files, ..v }, ConfirmOutcome::Stay)
    } else {
        (v, ConfirmOutcome::Stay)
    }
}

impl ConfirmDelete {
    /// A key on the question.
    pub fn handle_delete_confirm_key(&mut self, key: Key) -> (out: ConfirmOutcome)
        ensures
            (final(self)@, out) == after_confirm_key(old(self)@, key),
    {
        if key.quits() {
            return ConfirmOutcome::Quit;
        }
        if key.code == Code::Esc || key.code == Code::Char('n') {
            return ConfirmOutcome::Cancel;
        }
        if key.code == Code::Enter || key.code == Code::Char('y') {
            return ConfirmOutcome::Delete;
        }
        if key.code == Code::Tab || key.code == Code::Char(' ') {
            self.delete_files = !self.delete_files;
        }
        ConfirmOutcome::Stay
    }

    /// What is asked of the daemon.
    pub fn request(&self) -> (r: Request)
        ensures
            r == (Request::Remove {
                index: self.torrent_index,
                delete_files: self.delete_files,
            }),
    {
        Request::Remove { index: self.torrent_index, delete_files: self.delete_files }
    }
}

// ----- typing -----

/// What a key leads to while a line is typed.
#[derive(Clone, Copy, Debug, PartialEq, Eq, Structural)]
pub enum InputOutcome {
    Stay,
    /// end the program
    Quit,
    /// the line is done
    Close,
}

/// The list narrowed to names with the text in them.
pub open spec fn name_filtered(v: MainView, text: Seq<char>) -> MainView {
    MainView { filters: FiltersView { name: text, ..v.filters }, ..v }
}

/// The selection kept inside what the list shows; with none selected none is.
pub open spec fn list_kept(v: MainView) -> MainView {
    MainView {
        list: if v.list.selected is Some {
            v.list.with(kept(v.list.selected, shown(v.filters, v.torrents).len() as int))
        } else {
            v.list
        },
        ..v
    }
}

/// The view and the line after the line has become another text.
pub open spec fn line_changed(v: MainView, input: InputView, text: Seq<char>, shorter: bool) -> (
    MainView,
    InputView,
) {
    (
        match input.purpose {
            InputPurpose::ListFilter => if shorter {
                list_kept(name_filtered(v, text))
            } else {
                name_filtered(v, text)
            },
            InputPurpose::ContentFilter => MainView { files: refiltered(v.files, text), ..v },
        },
        InputView { buffer: text, ..input },
    )
}

/// The view and the line after a key, and what it leads to. What is typed takes effect at once.
pub open spec fn after_input_key(v: MainView, input: InputView, key: Key) -> (
    MainView,
    InputView,
    InputOutcome,
) {
    if key.is_quit() {
        (v, input, InputOutcome::Quit)
    } else if key.code == Code::Tab {
        if input.purpose == InputPurpose::ContentFilter {
            (
                MainView { files: filter_completed(v.files), ..v },
                match completed_filter(v.files) {
                    Some(text) => InputView { buffer: text, ..input },
                    None => input,
                },
                InputOutcome::Stay,
            )
        } else {
            (v, input, InputOutcome::Stay)
        }
    } else if key.code == Code::Esc || key.code == Code::Enter {
        (v, input, InputOutcome::Close)
    } else if key.code == Code::Backspace {
        let (after, line) = line_changed(v, input, shortened(input.buffer), true);
        (after, line, InputOutcome::Stay)
    } else {
        match key.typed() {
            Some(c) => {
                let (after, line) = line_changed(v, input, input.buffer.push(c), false);
                (after, line, InputOutcome::Stay)
            },
            None => (v, input, InputOutcome::Stay),
        }
    }
}

impl MainState {
    /// The line has become another text.
    fn change_line(&mut self, input: &mut TextInput, text: String, shorter: bool)
        requires
            old(self).wf(),
        ensures
            final(self).wf(),
            (final(self)@, final(input)@) == line_changed(
                old(self)@,
                old(input)@,
                text@,
                shorter,
            ),
    {
        input.buffer = text.clone();
        match input.purpose {
            InputPurpose::ListFilter => {
                self.filters.name = text;
                if shorter && self.list.selected.is_some() {
                    let count: usize = self.filters.filtered_indices(&self.torrents).len();
                    self.list.keep_within(count);
                }
            },
            InputPurpose::ContentFilter => {
                self.files.set_filter(text);
            },
        }
    }

    /// A key while a line is typed.
    pub fn handle_active_input_key(&mut self, input: &mut TextInput, key: Key) -> (out: InputOutcome)
        requires
            old(self).wf(),
        ensures
            final(self).wf(),
            (final(self)@, final(input)@, out) == after_input_key(old(self)@, old(input)@, key),
    {
        if key.quits() {
            return InputOutcome::Quit;
        }
        if key.code == Code::Tab {
            if input.purpose == InputPurpose::ContentFilter {
                if self.files.tab_complete_content_filter() {
                    input.buffer = self.files.filter.clone();
                }
            }
            return InputOutcome::Stay;
        }
        if key.code == Code::Esc || key.code == Code::Enter {
            return InputOutcome::Close;
        }
        if key.code == Code::Backspace {
            let text = shorten(input.buffer.as_str());
            self.change_line(input, text, true);
        } else if let Some(c) = key.types() {
            let text = lengthen(input.buffer.as_str(), c);
            self.change_line(input, text, false);
        }
        InputOutcome::Stay
    }
}

// ----- the columns -----

/// What a key on the list of columns leads to.
#[derive(Clone, Copy, Debug, PartialEq, Eq, Structural)]
pub enum PickerOutcome {
    Stay,
    /// end the program
    Quit,
    /// close the list and store the columns
    Close,
}

/// The shown columns and the selected one after a key, and what it leads to.
pub open spec fn after_columns_key(visible: Seq<Column>, selected: int, key: Key) -> (
    Seq<Column>,
    int,
    PickerOutcome,
) {
    let last = Column::all().len() - 1;
    let column = Column::all()[selected];
    if key.is_quit() {
        (visible, selected, PickerOutcome::Quit)
    } else if key.code == Code::Esc || key.is('q') {
        (visible, selected, PickerOutcome::Close)
    } else if key.is_down() {
        (
            visible,
            if selected < last {
                selected + 1
            } else {
                last
            },
            PickerOutcome::Stay,
        )
    } else if key.is_up() {
        (
            visible,
            if selected > 0 {
                selected - 1
            } else {
                0
            },
            PickerOutcome::Stay,
        )
    } else if key.code == Code::Char(' ') || key.code == Code::Enter {
        (toggled(visible, column), selected, PickerOutcome::Stay)
    } else if key.is_shift('W') {
        (shifted(visible, column, false), selected, PickerOutcome::Stay)
    } else if key.is_shift('S') {
        (shifted(visible, column, true), selected, PickerOutcome::Stay)
    } else {
        (visible, selected, PickerOutcome::Stay)
    }
}

/// A key on the list of columns.
pub fn handle_picker_key(visible: &mut Vec<Column>, selected: &mut usize, key: Key) -> (out:
    PickerOutcome)
    requires
        *old(selected) < Column::all().len(),
    ensures
        *final(selected) < Column::all().len(),
        (final(visible)@, *final(selected) as int, out) == after_columns_key(
            old(visible)@,
            *old(selected) as int,
            key,
        ),
{
    let at: usize = *selected;
    let last: usize = COLUMN_COUNT - 1;
    assert(Column::all().len() == COLUMN_COUNT);
    if key.quits() {
        return PickerOutcome::Quit;
    }
    if key.code == Code::Esc || key.plain('q') {
        return PickerOutcome::Close;
    }
    if key.goes_down() {
        *selected = if at < last { at + 1 } else { last };
    } else if key.goes_up() {
        *selected = if at > 0 { at - 1 } else { 0 };
    } else if key.code == Code::Char(' ') || key.code == Code::Enter {
        toggle_column(visible, Column::at(at));
    } else if key.with_shift('W') {
        move_visible_column(visible, Column::at(at), false);
    } else if key.with_shift('S') {
        move_visible_column(visible, Column::at(at), true);
    }
    PickerOutcome::Stay
}

/// No key on the list of columns hides them all.
pub proof fn law_picker_keeps_a_column(visible: Seq<Column>, selected: int, key: Key)
    requires
        visible.len() > 0,
        0 <= selected < Column::all().len(),
    ensures
        after_columns_key(visible, selected, key).0.len() > 0,
        0 <= after_columns_key(visible, selected, key).1 < Column::all().len(),
{
    law_a_column_is_always_shown(visible, Column::all()[selected]);
    lemma_first_of_bounds(visible, Column::all()[selected]);
}

/// Asking about the files of a torrent twice leaves the question as it was.
pub proof fn law_toggling_twice_changes_nothing(v: ConfirmView, key: Key)
    requires
        key.code == Code::Tab || key.code == Code::Char(' '),
    ensures
        after_confirm_key(after_confirm_key(v, key).0, key).0 == v,
{
}

} // verus!
