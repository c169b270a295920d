//! The options of torrents that are about to be added, and adding them one after the other.

use crate::ipc::{ContentLayout, Request, RequestView, Response};
use crate::text::{
    concat2, concat3, concat4, decimal, decimal_u64, is_empty, join, join_with, opt_text, texts,
    trim, trimmed,
};
use crate::textfield::{
    folder_to_list, listed_folder, opt_entries, completed_path, tab_complete_path, FolderEntry,
};
use crate::tui::keys::{Code, Key};
use crate::tui::settings::{lengthen, shorten, shortened};
use vstd::prelude::*;

verus! {

/// How many fields the form has, the button among them.
pub const ADD_OPTIONS_FIELD_COUNT: usize = 6;

/// The options of one torrent.
#[derive(Clone, Debug, PartialEq, Eq)]
pub struct AddOptions {
    pub start: bool,
    pub sequential: bool,
    pub first_last: bool,
    pub content_layout: ContentLayout,
    /// empty for the daemon's own folder
    pub save_path: String,
}

/// The options of one torrent as plain values.
pub struct OptionsView {
    pub start: bool,
    pub sequential: bool,
    pub first_last: bool,
    pub layout: ContentLayout,
    pub save_path: Seq<char>,
}

impl View for AddOptions {
    type V = OptionsView;

    open spec fn view(&self) -> OptionsView {
        OptionsView {
            start: self.start,
            sequential: self.sequential,
            first_last: self.first_last,
            layout: self.content_layout,
            save_path: self.save_path@,
        }
    }
}

/// The options as they are at first.
pub open spec fn default_options() -> OptionsView {
    OptionsView {
        start: true,
        sequential: false,
        first_last: false,
        layout: ContentLayout::Default,
        save_path: Seq::empty(),
    }
}

impl Default for AddOptions {
    fn default() -> (r: AddOptions)
        ensures
            r@ == default_options(),
    {
        let r = AddOptions {
            start: true,
            sequential: false,
            first_last: false,
            content_layout: ContentLayout::Default,
            save_path: String::new(),
        };
        assert(r@.save_path =~= Seq::<char>::empty());
        r
    }
}

/// The options of each torrent as plain values.
pub open spec fn options_views(options: Seq<AddOptions>) -> Seq<OptionsView> {
    options.map_values(|o: AddOptions| o@)
}

/// The form: it goes through the sources one by one.
#[derive(Clone, Debug, PartialEq, Eq)]
pub struct AddOptionsForm {
    pub entries: Vec<String>,
    pub options: Vec<AddOptions>,
    /// the source that is being configured
    pub current: usize,
    /// the field that has the focus
    pub field: usize,
    /// the save path while it is being edited
    pub edit_buffer: Option<String>,
}

/// The form as plain values.
pub struct FormView {
    pub entries: Seq<Seq<char>>,
    pub options: Seq<OptionsView>,
    pub current: int,
    pub field: int,
    pub edit: Option<Seq<char>>,
}

impl View for AddOptionsForm {
    type V = FormView;

    open spec fn view(&self) -> FormView {
        FormView {
            entries: texts(self.entries@),
            options: options_views(self.options@),
            current: self.current as int,
            field: self.field as int,
            edit: opt_text(self.edit_buffer),
        }
    }
}

/// What a key leads to.
#[derive(Clone, Debug, PartialEq, Eq)]
pub enum FormOutcome {
    Stay,
    /// end the program
    Quit,
    /// leave the form; nothing is added
    Cancel,
    /// add all sources
    Dispatch,
    /// read this folder and complete the save path among its entries
    ListFolder(String),
}

/// What a key leads to, as plain values.
pub enum FormOut {
    Stay,
    Quit,
    Cancel,
    Dispatch,
    ListFolder(Seq<char>),
}

impl View for FormOutcome {
    type V = FormOut;

    open spec fn view(&self) -> FormOut {
        match *self {
            FormOutcome::Stay => FormOut::Stay,
            FormOutcome::Quit => FormOut::Quit,
            FormOutcome::Cancel => FormOut::Cancel,
            FormOutcome::Dispatch => FormOut::Dispatch,
            FormOutcome::ListFolder(folder) => FormOut::ListFolder(folder@),
        }
    }
}

// ----- keys -----

/// The form with other options for the current source.
pub open spec fn with_options(v: FormView, o: OptionsView) -> FormView {
    FormView { options: v.options.update(v.current, o), ..v }
}

/// The form after a key while the save path is edited.
pub open spec fn after_path_key(v: FormView, text: Seq<char>, key: Key) -> (FormView, FormOut) {
    if key.is_quit() {
        (v, FormOut::Quit)
    } else if key.code == Code::Esc {
        (FormView { edit: None, ..v }, FormOut::Stay)
    } else if key.code == Code::Enter {
        (
            with_options(
                FormView { edit: None, ..v },
                OptionsView { save_path: text, ..v.options[v.current] },
            ),
            FormOut::Stay,
        )
    } else if key.code == Code::Backspace {
        (FormView { edit: Some(shortened(text)), ..v }, FormOut::Stay)
    } else if key.code == Code::Tab {
        (v, FormOut::ListFolder(listed_folder(text)))
    } else {
        match key.typed() {
            Some(c) => (FormView { edit: Some(text.push(c)), ..v }, FormOut::Stay),
            None => (v, FormOut::Stay),
        }
    }
}

/// The form after its focused field was activated.
pub open spec fn field_activated(v: FormView) -> (FormView, FormOut) {
    let o = v.options[v.current];
    if v.field == 5 {
        if v.current + 1 < v.entries.len() {
            (FormView { current: v.current + 1, field: 0, ..v }, FormOut::Stay)
        } else {
            (v, FormOut::Dispatch)
        }
    } else if v.field == 0 {
        (with_options(v, OptionsView { start: !o.start, ..o }), FormOut::Stay)
    } else if v.field == 1 {
        (with_options(v, OptionsView { sequential: !o.sequential, ..o }), FormOut::Stay)
    } else if v.field == 2 {
        (with_options(v, OptionsView { first_last: !o.first_last, ..o }), FormOut::Stay)
    } else if v.field == 3 {
        (with_options(v, OptionsView { layout: o.layout.next(), ..o }), FormOut::Stay)
    } else {
        (FormView { edit: Some(o.save_path), ..v }, FormOut::Stay)
    }
}

/// The form after a key, and what it leads to.
pub open spec fn after_form_key(v: FormView, key: Key) -> (FormView, FormOut) {
    match v.edit {
        Some(text) => after_path_key(v, text, key),
        None => if key.is_quit() {
            (v, FormOut::Quit)
        } else if key.code == Code::Esc {
            (v, FormOut::Cancel)
        } else if key.is_down() || key.code == Code::Tab {
            (FormView { field: (v.field + 1) % 6, ..v }, FormOut::Stay)
        } else if key.is_up() {
            (FormView { field: (v.field + 5) % 6, ..v }, FormOut::Stay)
        } else if key.code == Code::Enter || key.is(' ') {
            field_activated(v)
        } else {
            (v, FormOut::Stay)
        },
    }
}

impl AddOptionsForm {
    /// Every source has its options, and the current source and field are there.
    pub open spec fn wf(&self) -> bool {
        &&& self.entries@.len() == self.options@.len()
        &&& self.current < self.entries@.len()
        &&& self.field < ADD_OPTIONS_FIELD_COUNT
    }

    /// The form for those sources.
    pub fn new(entries: Vec<String>) -> (r: AddOptionsForm)
        requires
            entries@.len() > 0,
        ensures
            r.wf(),
            r@ == (FormView {
                entries: texts(entries@),
                options: Seq::new(entries@.len(), |i: int| default_options()),
                current: 0,
                field: 0,
                edit: None,
            }),
    {
        let mut options: Vec<AddOptions> = Vec::new();
        while options.len() < entries.len()
            invariant
                options@.len() <= entries@.len(),
                forall|j: int| 0 <= j < options@.len() ==> (#[trigger] options@[j])@ == default_options(),
            decreases entries@.len() - options@.len(),
        {
            options.push(AddOptions::default());
        }
        assert(options_views(options@) =~= Seq::new(entries@.len(), |i: int| default_options()));
        AddOptionsForm { entries, options, current: 0, field: 0, edit_buffer: None }
    }

    /// Changes the options of the current source.
    fn replace_options(&mut self, options: AddOptions)
        requires
            old(self).wf(),
        ensures
            final(self).wf(),
            final(self)@ == with_options(old(self)@, options@),
    {
        let ghost before = self.options@;
        self.options.set(self.current, options);
        assert(options_views(self.options@) =~= options_views(before).update(
            self.current as int,
            options@,
        ));
    }

    /// The options of the current source.
    fn current_options(&self) -> (r: AddOptions)
        requires
            self.wf(),
        ensures
            r@ == self@.options[self@.current],
    {
        let o = &self.options[self.current];
        assert(options_views(self.options@)[self.current as int]
            == self.options@[self.current as int]@);
        AddOptions {
            start: o.start,
            sequential: o.sequential,
            first_last: o.first_last,
            content_layout: o.content_layout,
            save_path: o.save_path.clone(),
        }
    }

    /// A key while the save path is edited.
    fn path_key(&mut self, text: String, key: Key) -> (out: FormOutcome)
        requires
            old(self).wf(),
        ensures
            final(self).wf(),
            (final(self)@, out@) == after_path_key(old(self)@, text@, key),
    {
        if key.quits() {
            return FormOutcome::Quit;
        }
        if key.code == Code::Esc {
            self.edit_buffer = None;
        } else if key.code == Code::Enter {
            self.edit_buffer = None;
            let mut options = self.current_options();
            options.save_path = text;
            self.replace_options(options);
        } else if key.code == Code::Backspace {
            self.edit_buffer = Some(shorten(text.as_str()));
        } else if key.code == Code::Tab {
            return FormOutcome::ListFolder(folder_to_list(text.as_str()));
        } else if let Some(c) = key.types() {
            self.edit_buffer = Some(lengthen(text.as_str(), c));
        }
        FormOutcome::Stay
    }

    /// Goes on to the next source; behind the last, all are added.
    fn advance_add_options(&mut self) -> (out: FormOutcome)
        requires
            old(self).wf(),
            old(self).field == 5,
        ensures
            final(self).wf(),
            (final(self)@, out@) == field_activated(old(self)@),
    {
        let count: usize = self.entries.len();
        if self.current + 1 < count {
            self.current = self.current + 1;
            self.field = 0;
            FormOutcome::Stay
        } else {
            FormOutcome::Dispatch
        }
    }

    /// Activates the focused field.
    fn activate_add_options_field(&mut self) -> (out: FormOutcome)
        requires
            old(self).wf(),
        ensures
            final(self).wf(),
            (final(self)@, out@) == field_activated(old(self)@),
    {
        if self.field == 5 {
            return self.advance_add_options();
        }
        let mut options = self.current_options();
        if self.field == 0 {
            options.start = !options.start;
        } else if self.field == 1 {
            options.sequential = !options.sequential;
        } else if self.field == 2 {
            options.first_last = !options.first_last;
        } else if self.field == 3 {
            options.content_layout = options.content_layout.cycle();
        } else {
            self.edit_buffer = Some(options.save_path);
            return FormOutcome::Stay;
        }
        self.replace_options(options);
        FormOutcome::Stay
    }

    /// A key in the form.
    pub fn handle_add_options_key(&mut self, key: Key) -> (out: FormOutcome)
        requires
            old(self).wf(),
        ensures
            final(self).wf(),
            (final(self)@, out@) == after_form_key(old(self)@, key),
    {
        let text = match &self.edit_buffer {
            Some(text) => Some(text.clone()),
            None => None,
        };
        if let Some(text) = text {
            return self.path_key(text, key);
        }
        if key.quits() {
            return FormOutcome::Quit;
        }
        if key.code == Code::Esc {
            return FormOutcome::Cancel;
        }
        if key.goes_down() || key.code == Code::Tab {
            self.field = (self.field + 1) % 6;
        } else if key.goes_up() {
            self.field = (self.field + 5) % 6;
        } else if key.code == Code::Enter || key.plain(' ') {
            return self.activate_add_options_field();
        }
        FormOutcome::Stay
    }

    /// Completes the save path among the entries of its folder.
    pub fn complete_path(&mut self, entries: &Option<Vec<FolderEntry>>)
        requires
            old(self).wf(),
        ensures
            final(self).wf(),
            final(self)@ == (FormView {
                edit: match old(self)@.edit {
                    Some(text) => Some(completed_path(text, opt_entries(*entries))),
                    None => None,
                },
                ..old(self)@
            }),
    {
        let done = match &self.edit_buffer {
            Some(text) => Some(tab_complete_path(text.as_str(), entries)),
            None => None,
        };
        self.edit_buffer = done;
    }
}

// ----- what is drawn -----

/// A switch as it is shown.
pub open spec fn switch_text(on: bool) -> Seq<char> {
    if on {
        "\u{25cf} on"@
    } else {
        "\u{25cb} off"@
    }
}

/// A switch as it is shown.
pub fn format_bool(value: bool) -> (r: String)
    ensures
        r@ == switch_text(value),
{
    if value {
        "\u{25cf} on".to_owned()
    } else {
        "\u{25cb} off".to_owned()
    }
}

/// What a text field shows while it is edited.
pub open spec fn edited_text(text: Seq<char>) -> Seq<char> {
    "[ "@ + text + "_ ]"@
}

/// The values of the form's fields as they are shown.
pub open spec fn form_values(v: FormView) -> Seq<Seq<char>> {
    let o = v.options[v.current];
    seq![
        switch_text(o.start),
        switch_text(o.sequential),
        switch_text(o.first_last),
        o.layout.label_text(),
        match v.edit {
            Some(text) => edited_text(text),
            None => if o.save_path.len() == 0 {
                "(default \u{2014} daemon's default_save_path)"@
            } else {
                o.save_path
            },
        },
        if v.current + 1 < v.entries.len() {
            "[ next \u{2192} ]"@
        } else {
            "[ add ]"@
        },
    ]
}

/// The title of the form.
pub open spec fn form_title(v: FormView) -> Seq<char> {
    " add options  ("@ + decimal(v.current + 1) + "/"@ + decimal(v.entries.len() as int) + ") "@
}

impl AddOptionsForm {
    /// The title of the form.
    pub fn title(&self) -> (r: String)
        requires
            self.wf(),
        ensures
            r@ == form_title(self@),
    {
        let count: usize = self.entries.len();
        let at = decimal_u64(self.current as u64 + 1);
        let all = decimal_u64(count as u64);
        let head = concat4(" add options  (", at.as_str(), "/", all.as_str());
        concat2(head.as_str(), ") ")
    }

    /// The values of the fields as they are shown.
    pub fn field_values(&self) -> (r: Vec<String>)
        requires
            self.wf(),
        ensures
            texts(r@) == form_values(self@),
    {
        let o = &self.options[self.current];
        assert(options_views(self.options@)[self.current as int]
            == self.options@[self.current as int]@);
        let path = match &self.edit_buffer {
            Some(text) => concat3("[ ", text.as_str(), "_ ]"),
            None => if is_empty(o.save_path.as_str()) {
                "(default \u{2014} daemon's default_save_path)".to_owned()
            } else {
                o.save_path.clone()
            },
        };
        let count: usize = self.entries.len();
        let button = if self.current + 1 < count {
            "[ next \u{2192} ]"
        } else {
            "[ add ]"
        };
        let mut out: Vec<String> = Vec::new();
        out.push(format_bool(o.start));
        out.push(format_bool(o.sequential));
        out.push(format_bool(o.first_last));
        out.push(o.content_layout.label().to_owned());
        out.push(path);
        out.push(button.to_owned());
        assert(texts(out@) =~= form_values(self@));
        out
    }
}

// ----- adding -----

/// What is next for the current source.
#[derive(Clone, Copy, Debug, PartialEq, Eq, Structural)]
pub enum AddStage {
    /// add it
    Add,
    /// learn its place in the daemon's list
    Locate,
    /// download it front to back
    Sequential { index: usize },
    /// fetch the ends of its files first
    FirstLast { index: usize },
}

/// Adding the sources of a form one after the other.
#[derive(Clone, Debug, PartialEq, Eq)]
pub struct AddRun {
    pub entries: Vec<String>,
    pub options: Vec<AddOptions>,
    /// the current source
    pub at: usize,
    pub stage: AddStage,
    pub succeeded: usize,
    pub failures: Vec<String>,
    /// the sources that were added paused
    pub paused_entries: Vec<String>,
    /// and their places in the daemon's list
    pub paused_indices: Vec<usize>,
}

/// Adding as plain values.
pub struct RunView {
    pub entries: Seq<Seq<char>>,
    pub options: Seq<OptionsView>,
    pub at: int,
    pub stage: AddStage,
    pub succeeded: int,
    pub failures: Seq<Seq<char>>,
    pub paused_entries: Seq<Seq<char>>,
    pub paused_indices: Seq<usize>,
}

impl View for AddRun {
    type V = RunView;

    open spec fn view(&self) -> RunView {
        RunView {
            entries: texts(self.entries@),
            options: options_views(self.options@),
            at: self.at as int,
            stage: self.stage,
            succeeded: self.succeeded as int,
            failures: texts(self.failures@),
            paused_entries: texts(self.paused_entries@),
            paused_indices: self.paused_indices@,
        }
    }
}

/// Adding at its beginning.
pub open spec fn run_started(v: FormView) -> RunView {
    RunView {
        entries: v.entries,
        options: v.options,
        at: 0,
        stage: AddStage::Add,
        succeeded: 0,
        failures: Seq::empty(),
        paused_entries: Seq::empty(),
        paused_indices: Seq::empty(),
    }
}

/// Each source is counted once: as added, or with a failure.
pub open spec fn run_counts(v: RunView) -> bool {
    &&& v.entries.len() == v.options.len()
    &&& 0 <= v.at <= v.entries.len()
    &&& v.stage != AddStage::Add ==> v.at < v.entries.len()
    &&& v.succeeded >= 0
    &&& v.succeeded + v.failures.len() == v.at + (if v.stage == AddStage::Add {
        0int
    } else {
        1int
    })
    &&& v.paused_entries.len() == v.paused_indices.len()
    &&& v.paused_entries.len() + (if v.stage == AddStage::Add {
        0int
    } else {
        1int
    }) <= v.succeeded
}

/// What is asked of the daemon next.
pub open spec fn run_request(v: RunView) -> Option<RequestView> {
    if v.at >= v.entries.len() {
        None
    } else {
        let o = v.options[v.at];
        match v.stage {
            AddStage::Add => Some(
                RequestView::Add {
                    uri: v.entries[v.at],
                    save_path: if trim(o.save_path).len() == 0 {
                        None
                    } else {
                        Some(o.save_path)
                    },
                    category: None,
                    start_paused: !o.start,
                    content_layout: o.layout,
                },
            ),
            AddStage::Locate => Some(RequestView::List),
            AddStage::Sequential { index } => Some(
                RequestView::SetSequential { index, enabled: true },
            ),
            AddStage::FirstLast { index } => Some(
                RequestView::SetFirstLastPriority { index, enabled: true },
            ),
        }
    }
}

/// On to the next source.
pub open spec fn next_source(v: RunView) -> RunView {
    RunView { at: v.at + 1, stage: AddStage::Add, ..v }
}

/// The current source is done; one that was added paused is noted.
pub open spec fn source_done(v: RunView, index: usize) -> RunView {
    if v.options[v.at].start {
        next_source(v)
    } else {
        next_source(
            RunView {
                paused_entries: v.paused_entries.push(v.entries[v.at]),
                paused_indices: v.paused_indices.push(index),
                ..v
            },
        )
    }
}

/// After the order of download was dealt with.
pub open spec fn after_sequential(v: RunView, index: usize) -> RunView {
    if v.options[v.at].first_last {
        RunView { stage: AddStage::FirstLast { index }, ..v }
    } else {
        source_done(v, index)
    }
}

/// Adding after the current source has failed.
pub open spec fn source_failed(v: RunView, why: Seq<char>) -> RunView {
    next_source(RunView { failures: v.failures.push(v.entries[v.at] + ": "@ + why), ..v })
}

/// Adding after an answer of the daemon.
pub open spec fn after_answer(v: RunView, answer: Result<Response, String>) -> RunView {
    let o = v.options[v.at];
    match v.stage {
        AddStage::Add => match answer {
            Ok(Response::Added { id: _ }) => {
                let more = RunView { succeeded: v.succeeded + 1, ..v };
                if o.sequential || o.first_last || !o.start {
                    RunView { stage: AddStage::Locate, ..more }
                } else {
                    next_source(more)
                }
            },
            Ok(Response::Failed(why)) => source_failed(v, why@),
            Ok(_) => source_failed(v, "unexpected response"@),
            Err(why) => source_failed(v, why@),
        },
        AddStage::Locate => match answer {
            Ok(Response::TorrentList(list)) => {
                let index = if list@.len() > 0 {
                    (list@.len() - 1) as usize
                } else {
                    0usize
                };
                if o.sequential {
                    RunView { stage: AddStage::Sequential { index }, ..v }
                } else {
                    after_sequential(v, index)
                }
            },
            _ => next_source(v),
        },
        AddStage::Sequential { index } => after_sequential(v, index),
        AddStage::FirstLast { index } => source_done(v, index),
    }
}

/// What the status line says in the end.
pub open spec fn run_summary(v: RunView) -> Seq<char> {
    let all = join(v.failures, "; "@);
    if v.failures.len() == 0 {
        "added "@ + decimal(v.succeeded) + " torrent(s)"@
    } else if v.succeeded == 0 {
        "all sources failed: "@ + all
    } else {
        "added "@ + decimal(v.succeeded) + " ok, "@ + decimal(v.failures.len() as int)
            + " failed: "@ + all
    }
}

impl AddRun {
    /// Each source is counted once.
    pub open spec fn wf(&self) -> bool {
        run_counts(self@)
    }

    /// Begins to add the sources of a form.
    pub fn dispatch_add_options(form: AddOptionsForm) -> (r: AddRun)
        requires
            form.wf(),
        ensures
            r.wf(),
            r@ == run_started(form@),
    {
        let r = AddRun {
            entries: form.entries,
            options: form.options,
            at: 0,
            stage: AddStage::Add,
            succeeded: 0,
            failures: Vec::new(),
            paused_entries: Vec::new(),
            paused_indices: Vec::new(),
        };
        proof {
            assert(r@.failures =~= Seq::<Seq<char>>::empty());
            assert(r@.paused_entries =~= Seq::<Seq<char>>::empty());
            assert(r@.paused_indices =~= Seq::<usize>::empty());
        }
        r
    }

    /// What is asked of the daemon next; nothing where all is done.
    pub fn next_request(&self) -> (r: Option<Request>)
        requires
            self.wf(),
        ensures
            r is Some <==> run_request(self@) is Some,
            r matches Some(request) ==> run_request(self@) == Some(request@),
    {
        assert(texts(self.entries@).len() == self.entries@.len());
        assert(options_views(self.options@).len() == self.options@.len());
        if self.at >= self.entries.len() {
            return None;
        }
        assert(texts(self.entries@)[self.at as int] == self.entries@[self.at as int]@);
        assert(options_views(self.options@)[self.at as int] == self.options@[self.at as int]@);
        match self.stage {
            AddStage::Add => {
                let o = &self.options[self.at];
                let bare = trimmed(o.save_path.as_str());
                let save_path = if is_empty(bare.as_str()) {
                    None
                } else {
                    Some(o.save_path.clone())
                };
                Some(
                    Request::Add {
                        uri: self.entries[self.at].clone(),
                        save_path,
                        category: None,
                        start_paused: !o.start,
                        content_layout: o.content_layout,
                    },
                )
            },
            AddStage::Locate => Some(Request::List),
            AddStage::Sequential { index } => Some(
                Request::SetSequential { index, enabled: true },
            ),
            AddStage::FirstLast { index } => Some(
                Request::SetFirstLastPriority { index, enabled: true },
            ),
        }
    }

    /// The current source has failed.
    fn fail(&mut self, why: &str)
        requires
            old(self).wf(),
            old(self).at < old(self).entries@.len(),
            old(self).stage == AddStage::Add,
        ensures
            final(self).wf(),
            final(self)@ == source_failed(old(self)@, why@),
    {
        let count: usize = self.entries.len();
        assert(self.at < count);
        let text = concat3(self.entries[self.at].as_str(), ": ", why);
        let ghost before = self.failures@;
        assert(texts(self.entries@)[self.at as int] == self.entries@[self.at as int]@);
        self.failures.push(text);
        assert(texts(self.failures@) =~= texts(before).push(text@));
        self.at = self.at + 1;
        self.stage = AddStage::Add;
    }

    /// The current source is done.
    fn finish_source(&mut self, index: usize)
        requires
            old(self).wf(),
            old(self).stage != AddStage::Add,
        ensures
            final(self).wf(),
            final(self)@ == source_done(old(self)@, index),
    {
        assert(texts(self.entries@).len() == self.entries@.len());
        assert(options_views(self.options@)[self.at as int] == self.options@[self.at as int]@);
        let count: usize = self.entries.len();
        assert(self.at < count);
        if !self.options[self.at].start {
            let ghost before = self.paused_entries@;
            let entry = self.entries[self.at].clone();
            assert(texts(self.entries@)[self.at as int] == self.entries@[self.at as int]@);
            self.paused_entries.push(entry);
            assert(texts(self.paused_entries@) =~= texts(before).push(entry@));
            self.paused_indices.push(index);
        }
        self.at = self.at + 1;
        self.stage = AddStage::Add;
    }

    /// After the order of download was dealt with.
    fn pass_sequential(&mut self, index: usize)
        requires
            old(self).wf(),
            old(self).stage != AddStage::Add,
        ensures
            final(self).wf(),
            final(self)@ == after_sequential(old(self)@, index),
    {
        assert(texts(self.entries@).len() == self.entries@.len());
        assert(options_views(self.options@)[self.at as int] == self.options@[self.at as int]@);
        if self.options[self.at].first_last {
            self.stage = AddStage::FirstLast { index };
        } else {
            self.finish_source(index);
        }
    }

    /// Takes up an answer of the daemon.
    pub fn take_answer(&mut self, answer: &Result<Response, String>)
        requires
            old(self).wf(),
            old(self).at < old(self).entries@.len(),
        ensures
            final(self).wf(),
            final(self)@ == after_answer(old(self)@, *answer),
    {
        assert(texts(self.entries@).len() == self.entries@.len());
        assert(options_views(self.options@).len() == self.options@.len());
        assert(options_views(self.options@)[self.at as int] == self.options@[self.at as int]@);
        let count: usize = self.entries.len();
        assert(self.at < count && self.succeeded <= count);
        match self.stage {
            AddStage::Add => match answer {
                Ok(Response::Added { id: _ }) => {
                    self.succeeded = self.succeeded + 1;
                    let o = &self.options[self.at];
                    if o.sequential || o.first_last || !o.start {
                        self.stage = AddStage::Locate;
                    } else {
                        self.at = self.at + 1;
                    }
                },
                Ok(Response::Failed(why)) => self.fail(why.as_str()),
                Ok(_) => self.fail("unexpected response"),
                Err(why) => self.fail(why.as_str()),
            },
            AddStage::Locate => match answer {
                Ok(Response::TorrentList(list)) => {
                    let index: usize = if list.len() > 0 { list.len() - 1 } else { 0 };
                    if self.options[self.at].sequential {
                        self.stage = AddStage::Sequential { index };
                    } else {
                        self.pass_sequential(index);
                    }
                },
                _ => {
                    self.at = self.at + 1;
                    self.stage = AddStage::Add;
                },
            },
            AddStage::Sequential { index } => self.pass_sequential(index),
            AddStage::FirstLast { index } => self.finish_source(index),
        }
    }

    /// What the status line says in the end.
    pub fn summary(&self) -> (r: String)
        requires
            self.wf(),
        ensures
            r@ == run_summary(self@),
    {
        assert(texts(self.failures@).len() == self.failures@.len());
        let added = decimal_u64(self.succeeded as u64);
        if self.failures.len() == 0 {
            return concat3("added ", added.as_str(), " torrent(s)");
        }
        let all = join_with(&self.failures, "; ");
        if self.succeeded == 0 {
            return concat2("all sources failed: ", all.as_str());
        }
        let failed = decimal_u64(self.failures.len() as u64);
        let head = concat4("added ", added.as_str(), " ok, ", failed.as_str());
        concat3(head.as_str(), " failed: ", all.as_str())
    }
}

// ----- laws -----

/// How much is left to ask of the daemon, at most.
pub open spec fn requests_left(v: RunView) -> int {
    4 * (v.entries.len() - v.at) - match v.stage {
        AddStage::Add => 0int,
        AddStage::Locate => 1,
        AddStage::Sequential { index: _ } => 2,
        AddStage::FirstLast { index: _ } => 3,
    }
}

/// Whatever the daemon answers, adding comes to an end: each answer leaves fewer requests to
/// make, and the sources stay the same.
pub proof fn law_adding_ends(v: RunView, answer: Result<Response, String>)
    requires
        run_counts(v),
        run_request(v) is Some,
    ensures
        run_counts(after_answer(v, answer)),
        0 <= requests_left(after_answer(v, answer)) < requests_left(v),
        after_answer(v, answer).entries == v.entries,
        after_answer(v, answer).options == v.options,
{
}

/// In the end every source was added or has a failure.
pub proof fn law_every_source_is_counted(v: RunView)
    requires
        run_counts(v),
        run_request(v) is None,
    ensures
        v.succeeded + v.failures.len() == v.entries.len(),
{
}

/// A source that the daemon refuses is reported, and the ones behind it are still added.
pub proof fn law_a_failure_does_not_stop_adding(v: RunView, why: String)
    requires
        run_counts(v),
        run_request(v) is Some,
        v.stage == AddStage::Add,
    ensures
        ({
            let after = after_answer(v, Err(why));
            &&& after.at == v.at + 1
            &&& after.stage == AddStage::Add
            &&& after.failures.last() == v.entries[v.at] + ": "@ + why@
            &&& after.succeeded == v.succeeded
        }),
{
}

/// Leaving the form, or the program, changes none of its options.
pub proof fn law_form_is_left_unchanged(v: FormView, key: Key)
    requires
        v.edit is None,
        key.is_quit() || key.code == Code::Esc,
    ensures
        after_form_key(v, key).0 == v,
{
}

} // verus!
