//! The whole interface: its pages and what lies over them, and where a key goes.

use crate::config::Config;
use crate::ipc::{Request, RequestView, Response};
use crate::text::{concat2, same, texts};
use crate::textfield::{opt_entries, completed_path, FolderEntry};
use crate::tui::add_form::{
    after_form_key, default_options, run_started, run_summary, AddOptionsForm, AddRun, FormOut,
    FormOutcome, FormView, RunView,
};
use crate::tui::columns::{Column, COLUMN_COUNT};
use crate::tui::feeds::{
    after_feeds_key, feed_removed, feeds_opened, feeds_polled, FeedsOutcome, FeedsState, FeedsView,
};
use crate::tui::keys::{Code, Key};
use crate::tui::main_view::{
    after_main_key, all_due, law_main_keys_delete_nothing, noted, told, ConfirmDelete, ConfirmView,
    InputView, MainOut, MainOutcome, MainState, MainView, Purpose, PurposeView, TextInput,
};
use crate::tui::overlays::{
    after_columns_key, after_confirm_key, after_input_key, handle_picker_key, ConfirmOutcome,
    InputOutcome, PickerOutcome,
};
use crate::tui::priority::{
    after_step_key, fresh_files, PriorityStep, StepOut, StepOutcome, StepView,
};
use crate::tui::prompt::{
    add_prompt, after_prompt_key, clipboard_magnet_or_url, feed_prompt, looks_like_source, plan_of,
    settle_prompt, settled, settled_view, PlanView, Prompt, PromptAction, PromptOut, PromptOutcome,
    PromptPlan, PromptView,
};
use crate::tui::replies::after_reply;
use crate::tui::schema::{key_text, value_text};
use crate::tui::settings::{
    after_settings_key, change_status, OutcomeView, SettingsOutcome, SettingsState, SettingsView,
};
use vstd::prelude::*;

verus! {

/// A page.
#[derive(Clone, Debug, PartialEq, Eq)]
pub enum Mode {
    Main,
    Settings(SettingsState),
    Feeds(FeedsState),
}

/// A page as plain values.
pub enum ModeView {
    Main,
    Settings(SettingsView),
    Feeds(FeedsView),
}

impl View for Mode {
    type V = ModeView;

    open spec fn view(&self) -> ModeView {
        match *self {
            Mode::Main => ModeView::Main,
            Mode::Settings(s) => ModeView::Settings(s@),
            Mode::Feeds(f) => ModeView::Feeds(f@),
        }
    }
}

/// The whole interface.
#[derive(Clone, Debug, PartialEq, Eq)]
pub struct AppState {
    pub main: MainState,
    pub mode: Mode,
    pub prompt: Option<Prompt>,
    pub add_options: Option<AddOptionsForm>,
    pub priority_step: Option<PriorityStep>,
    pub active_input: Option<TextInput>,
    /// the selected row of the list of columns, while it is open
    pub column_picker: Option<usize>,
    /// the columns of the list of torrents
    pub visible_columns: Vec<Column>,
    pub show_help: bool,
    pub confirm_delete: Option<ConfirmDelete>,
}

/// The whole interface as plain values.
pub struct AppView {
    pub main: MainView,
    pub mode: ModeView,
    pub prompt: Option<PromptView>,
    pub form: Option<FormView>,
    pub step: Option<StepView>,
    pub input: Option<InputView>,
    pub picker: Option<int>,
    pub columns: Seq<Column>,
    pub help: bool,
    pub confirm: Option<ConfirmView>,
}

impl View for AppState {
    type V = AppView;

    open spec fn view(&self) -> AppView {
        AppView {
            main: self.main@,
            mode: self.mode@,
            prompt: match self.prompt {
                Some(p) => Some(p@),
                None => None,
            },
            form: match self.add_options {
                Some(f) => Some(f@),
                None => None,
            },
            step: match self.priority_step {
                Some(s) => Some(s@),
                None => None,
            },
            input: match self.active_input {
                Some(i) => Some(i@),
                None => None,
            },
            picker: match self.column_picker {
                Some(row) => Some(row as int),
                None => None,
            },
            columns: self.visible_columns@,
            help: self.show_help,
            confirm: match self.confirm_delete {
                Some(c) => Some(c@),
                None => None,
            },
        }
    }
}

/// What the daemon was asked for, which decides where its answer goes.
#[derive(Clone, Debug, PartialEq, Eq)]
pub enum Topic {
    /// something of the main view
    Main(Purpose),
    /// what the prompt submits
    Prompt,
    /// something whose answer is not looked at
    Step,
    FeedRemoval { index: usize },
    FeedPoll,
    Setting { key: String, value: String },
    Folders,
}

/// What the daemon was asked for, as plain values.
pub enum TopicView {
    Main(PurposeView),
    Prompt,
    Step,
    FeedRemoval(usize),
    FeedPoll,
    Setting(Seq<char>, Seq<char>),
    Folders,
}

impl View for Topic {
    type V = TopicView;

    open spec fn view(&self) -> TopicView {
        match *self {
            Topic::Main(p) => TopicView::Main(p@),
            Topic::Prompt => TopicView::Prompt,
            Topic::Step => TopicView::Step,
            Topic::FeedRemoval { index } => TopicView::FeedRemoval(index),
            Topic::FeedPoll => TopicView::FeedPoll,
            Topic::Setting { key, value } => TopicView::Setting(key@, value@),
            Topic::Folders => TopicView::Folders,
        }
    }
}

/// What the program has to do after a key.
#[derive(Clone, Debug, PartialEq, Eq)]
pub enum Effect {
    Nothing,
    /// end
    Quit,
    /// ask this of the daemon and hand back its answer
    Send { request: Request, topic: Topic },
    /// read the configuration and open the settings
    OpenSettings,
    /// read the clipboard and open the prompt for sources
    OpenSources,
    /// read the folder and complete the line of the prompt
    CompletePrompt { folder: String },
    /// read the folder and complete the save path of the form
    CompleteForm { folder: String },
    /// store the shown columns
    StoreColumns,
    /// list the network interfaces and open the picker
    PickInterface,
    /// start the daemon on login, or no longer
    SetAutostart { value: String },
    /// add the sources one after the other
    AddSources(AddRun),
}

/// What the program has to do, as plain values.
pub enum EffectView {
    Nothing,
    Quit,
    Send(RequestView, TopicView),
    OpenSettings,
    OpenSources,
    CompletePrompt(Seq<char>),
    CompleteForm(Seq<char>),
    StoreColumns,
    PickInterface,
    SetAutostart(Seq<char>),
    AddSources(RunView),
}

impl View for Effect {
    type V = EffectView;

    open spec fn view(&self) -> EffectView {
        match *self {
            Effect::Nothing => EffectView::Nothing,
            Effect::Quit => EffectView::Quit,
            Effect::Send { request, topic } => EffectView::Send(request@, topic@),
            Effect::OpenSettings => EffectView::OpenSettings,
            Effect::OpenSources => EffectView::OpenSources,
            Effect::CompletePrompt { folder } => EffectView::CompletePrompt(folder@),
            Effect::CompleteForm { folder } => EffectView::CompleteForm(folder@),
            Effect::StoreColumns => EffectView::StoreColumns,
            Effect::PickInterface => EffectView::PickInterface,
            Effect::SetAutostart { value } => EffectView::SetAutostart(value@),
            Effect::AddSources(run) => EffectView::AddSources(run@),
        }
    }
}

// ----- where a key goes -----

/// A key on the step that sets priorities.
pub open spec fn key_to_step(v: AppView, step: StepView, key: Key) -> (AppView, EffectView) {
    let (after, out) = after_step_key(step, key);
    let next = AppView { step: Some(after), ..v };
    match out {
        StepOut::Stay => (next, EffectView::Nothing),
        StepOut::Quit => (next, EffectView::Quit),
        StepOut::Finish => (
            AppView { step: None, main: all_due(v.main), ..v },
            EffectView::Nothing,
        ),
        StepOut::Send(request) => (next, EffectView::Send(request, TopicView::Step)),
    }
}

/// A key while the help is shown: any closes it.
pub open spec fn key_to_help(v: AppView, key: Key) -> (AppView, EffectView) {
    if key.is_quit() {
        (v, EffectView::Quit)
    } else {
        (AppView { help: false, ..v }, EffectView::Nothing)
    }
}

/// A key on the question whether to delete.
pub open spec fn key_to_confirm(v: AppView, confirm: ConfirmView, key: Key) -> (AppView, EffectView) {
    let (after, out) = after_confirm_key(confirm, key);
    match out {
        ConfirmOutcome::Stay => (AppView { confirm: Some(after), ..v }, EffectView::Nothing),
        ConfirmOutcome::Quit => (v, EffectView::Quit),
        ConfirmOutcome::Cancel => (AppView { confirm: None, ..v }, EffectView::Nothing),
        ConfirmOutcome::Delete => (
            AppView { confirm: None, ..v },
            EffectView::Send(
                RequestView::Remove {
                    index: confirm.torrent,
                    delete_files: confirm.delete_files,
                },
                TopicView::Main(PurposeView::Delete),
            ),
        ),
    }
}

/// A key on the list of columns.
pub open spec fn key_to_columns(v: AppView, row: int, key: Key) -> (AppView, EffectView) {
    let (columns, after, out) = after_columns_key(v.columns, row, key);
    let next = AppView { columns, picker: Some(after), ..v };
    match out {
        PickerOutcome::Stay => (next, EffectView::Nothing),
        PickerOutcome::Quit => (next, EffectView::Quit),
        PickerOutcome::Close => (AppView { picker: None, ..next }, EffectView::StoreColumns),
    }
}

/// A key in the form of options.
pub open spec fn key_to_form(v: AppView, form: FormView, key: Key) -> (AppView, EffectView) {
    let (after, out) = after_form_key(form, key);
    let next = AppView { form: Some(after), ..v };
    match out {
        FormOut::Stay => (next, EffectView::Nothing),
        FormOut::Quit => (next, EffectView::Quit),
        FormOut::Cancel => (AppView { form: None, ..v }, EffectView::Nothing),
        FormOut::Dispatch => (
            AppView { form: None, ..v },
            EffectView::AddSources(run_started(after)),
        ),
        FormOut::ListFolder(folder) => (next, EffectView::CompleteForm(folder)),
    }
}

/// The text of the prompt is submitted.
pub open spec fn prompt_submitted(v: AppView, prompt: PromptView) -> (AppView, EffectView) {
    match plan_of(prompt) {
        PlanView::Refuse(why) => (AppView { main: told(v.main, why), ..v }, EffectView::Nothing),
        PlanView::Options(entries) => (
            AppView {
                prompt: None,
                form: Some(
                    FormView {
                        entries,
                        options: Seq::new(entries.len(), |i: int| default_options()),
                        current: 0,
                        field: 0,
                        edit: None,
                    },
                ),
                main: all_due(v.main),
                ..v
            },
            EffectView::Nothing,
        ),
        PlanView::Send(request) => (v, EffectView::Send(request, TopicView::Prompt)),
    }
}

/// A key in the prompt.
pub open spec fn key_to_prompt(v: AppView, prompt: PromptView, key: Key) -> (AppView, EffectView) {
    let (after, out) = after_prompt_key(prompt, key);
    let next = AppView { prompt: Some(after), ..v };
    match out {
        PromptOut::Stay => (next, EffectView::Nothing),
        PromptOut::Quit => (next, EffectView::Quit),
        PromptOut::Cancel => (AppView { prompt: None, ..v }, EffectView::Nothing),
        PromptOut::Submit => prompt_submitted(next, after),
        PromptOut::ListFolder(folder) => (next, EffectView::CompletePrompt(folder)),
    }
}

/// A key while a line is typed.
pub open spec fn key_to_input(v: AppView, input: InputView, key: Key) -> (AppView, EffectView) {
    let (main, line, out) = after_input_key(v.main, input, key);
    let next = AppView { main, input: Some(line), ..v };
    match out {
        InputOutcome::Stay => (next, EffectView::Nothing),
        InputOutcome::Quit => (next, EffectView::Quit),
        InputOutcome::Close => (AppView { input: None, ..next }, EffectView::Nothing),
    }
}

/// A key on the settings page.
pub open spec fn key_to_settings(
    v: AppView,
    page: SettingsView,
    key: Key,
) -> (AppView, EffectView) {
    let value = value_text(page.config, key_text(page.selected), page.ratio, page.autostart);
    let (after, out) = after_settings_key(page, key, value);
    let next = AppView { mode: ModeView::Settings(after), ..v };
    match out {
        OutcomeView::Stay => (next, EffectView::Nothing),
        OutcomeView::Quit => (next, EffectView::Quit),
        OutcomeView::Close => (
            AppView {
                mode: ModeView::Main,
                main: MainView { list_due: true, ..v.main },
                ..v
            },
            EffectView::Nothing,
        ),
        OutcomeView::Commit(name, text) => (
            next,
            if name == "autostart"@ {
                EffectView::SetAutostart(text)
            } else {
                EffectView::Send(
                    RequestView::SetConfig { key: name, value: text },
                    TopicView::Setting(name, text),
                )
            },
        ),
        OutcomeView::StoreFolders(text) => (
            next,
            EffectView::Send(
                RequestView::SetConfig { key: "watch_directories"@, value: text },
                TopicView::Folders,
            ),
        ),
        OutcomeView::ListInterfaces => (next, EffectView::PickInterface),
    }
}

/// A key on the page of feeds.
pub open spec fn key_to_feeds(v: AppView, page: FeedsView, key: Key) -> (AppView, EffectView) {
    let (after, out) = after_feeds_key(page, key);
    let next = AppView { mode: ModeView::Feeds(after), ..v };
    match out {
        FeedsOutcome::Stay => (next, EffectView::Nothing),
        FeedsOutcome::Quit => (next, EffectView::Quit),
        FeedsOutcome::Close => (AppView { mode: ModeView::Main, ..v }, EffectView::Nothing),
        FeedsOutcome::AskAddress => (
            AppView { prompt: Some(feed_prompt()), ..next },
            EffectView::Nothing,
        ),
        FeedsOutcome::Remove { index } => (
            next,
            EffectView::Send(RequestView::RemoveFeed { index }, TopicView::FeedRemoval(index)),
        ),
        FeedsOutcome::Poll => (
            next,
            EffectView::Send(RequestView::PollFeeds, TopicView::FeedPoll),
        ),
    }
}

/// A key in the main view.
pub open spec fn key_to_main(v: AppView, key: Key) -> (AppView, EffectView) {
    let (main, out) = after_main_key(v.main, key);
    let next = AppView { main, ..v };
    match out {
        MainOut::Stay => (next, EffectView::Nothing),
        MainOut::Quit => (next, EffectView::Quit),
        MainOut::Settings => (next, EffectView::OpenSettings),
        MainOut::Feeds => (
            AppView { mode: ModeView::Feeds(feeds_opened()), ..next },
            EffectView::Nothing,
        ),
        MainOut::Ask(prompt) => (AppView { prompt: Some(prompt), ..next }, EffectView::Nothing),
        MainOut::AskSources => (next, EffectView::OpenSources),
        MainOut::Columns => (AppView { picker: Some(0), ..next }, EffectView::Nothing),
        MainOut::Help => (AppView { help: true, ..next }, EffectView::Nothing),
        MainOut::Confirm(c) => (AppView { confirm: Some(c), ..next }, EffectView::Nothing),
        MainOut::Input(i) => (AppView { input: Some(i), ..next }, EffectView::Nothing),
        MainOut::Send(request, purpose) => (
            next,
            EffectView::Send(request, TopicView::Main(purpose)),
        ),
    }
}

/// The interface after a key, and what the program has to do. What lies on top takes the key:
/// the step, the help, the question, the columns, the form, the prompt, the line, and then the
/// page.
pub open spec fn after_key(v: AppView, key: Key) -> (AppView, EffectView) {
    if v.step is Some {
        key_to_step(v, v.step->0, key)
    } else if v.help {
        key_to_help(v, key)
    } else if v.confirm is Some {
        key_to_confirm(v, v.confirm->0, key)
    } else if v.picker is Some {
        key_to_columns(v, v.picker->0, key)
    } else if v.form is Some {
        key_to_form(v, v.form->0, key)
    } else if v.prompt is Some {
        key_to_prompt(v, v.prompt->0, key)
    } else if v.input is Some {
        key_to_input(v, v.input->0, key)
    } else {
        match v.mode {
            ModeView::Settings(page) => key_to_settings(v, page, key),
            ModeView::Feeds(page) => key_to_feeds(v, page, key),
            ModeView::Main => key_to_main(v, key),
        }
    }
}

impl Mode {
    /// The page is consistent.
    pub open spec fn wf(&self) -> bool {
        match *self {
            Mode::Settings(s) => s.wf(),
            _ => true,
        }
    }
}

impl AppState {
    /// Every page and all that lies over it is consistent.
    pub open spec fn wf(&self) -> bool {
        &&& self.main.wf()
        &&& self.mode.wf()
        &&& self.prompt matches Some(p) ==> p.wf()
        &&& self.add_options matches Some(f) ==> f.wf()
        &&& self.priority_step matches Some(s) ==> s.wf()
        &&& self.column_picker matches Some(row) ==> row < COLUMN_COUNT
    }

    /// The interface as the program starts.
    pub fn new(main: MainState, visible_columns: Vec<Column>) -> (r: AppState)
        requires
            main.wf(),
        ensures
            r.wf(),
            r@ == (AppView {
                main: main@,
                mode: ModeView::Main,
                prompt: None,
                form: None,
                step: None,
                input: None,
                picker: None,
                columns: visible_columns@,
                help: false,
                confirm: None,
            }),
    {
        AppState {
            main,
            mode: Mode::Main,
            prompt: None,
            add_options: None,
            priority_step: None,
            active_input: None,
            column_picker: None,
            visible_columns,
            show_help: false,
            confirm_delete: None,
        }
    }

    /// A key on the step that sets priorities.
    fn step_key(&mut self, key: Key) -> (out: Effect)
        requires
            old(self).wf(),
            old(self).priority_step is Some,
        ensures
            final(self).wf(),
            (final(self)@, out@) == key_to_step(old(self)@, old(self)@.step->0, key),
    {
        let mut step = match self.priority_step.take() {
            Some(step) => step,
            None => {
                return Effect::Nothing;
            },
        };
        let out = step.handle_priority_step_key(key);
        if let StepOutcome::Finish = out {
            self.main.refresh();
            return Effect::Nothing;
        }
        self.priority_step = Some(step);
        match out {
            StepOutcome::Quit => Effect::Quit,
            StepOutcome::Send(request) => Effect::Send { request, topic: Topic::Step },
            _ => Effect::Nothing,
        }
    }

    /// A key on the question whether to delete.
    fn confirm_key(&mut self, key: Key) -> (out: Effect)
        requires
            old(self).wf(),
            old(self).confirm_delete is Some,
        ensures
            final(self).wf(),
            (final(self)@, out@) == key_to_confirm(old(self)@, old(self)@.confirm->0, key),
    {
        let mut confirm = match self.confirm_delete.take() {
            Some(confirm) => confirm,
            None => {
                return Effect::Nothing;
            },
        };
        match confirm.handle_delete_confirm_key(key) {
            ConfirmOutcome::Stay => {
                self.confirm_delete = Some(confirm);
                Effect::Nothing
            },
            ConfirmOutcome::Quit => {
                self.confirm_delete = Some(confirm);
                Effect::Quit
            },
            ConfirmOutcome::Cancel => Effect::Nothing,
            ConfirmOutcome::Delete => Effect::Send {
                request: confirm.request(),
                topic: Topic::Main(Purpose::Delete),
            },
        }
    }

    /// A key on the list of columns.
    fn columns_key(&mut self, row: usize, key: Key) -> (out: Effect)
        requires
            old(self).wf(),
            old(self).column_picker == Some(row),
        ensures
            final(self).wf(),
            (final(self)@, out@) == key_to_columns(old(self)@, row as int, key),
    {
        let mut selected: usize = row;
        assert(Column::all().len() == COLUMN_COUNT);
        let out = handle_picker_key(&mut self.visible_columns, &mut selected, key);
        self.column_picker = Some(selected);
        match out {
            PickerOutcome::Stay => Effect::Nothing,
            PickerOutcome::Quit => Effect::Quit,
            PickerOutcome::Close => {
                self.column_picker = None;
                Effect::StoreColumns
            },
        }
    }

    /// A key in the form of options.
    fn form_key(&mut self, key: Key) -> (out: Effect)
        requires
            old(self).wf(),
            old(self).add_options is Some,
        ensures
            final(self).wf(),
            (final(self)@, out@) == key_to_form(old(self)@, old(self)@.form->0, key),
    {
        let mut form = match self.add_options.take() {
            Some(form) => form,
            None => {
                return Effect::Nothing;
            },
        };
        match form.handle_add_options_key(key) {
            FormOutcome::Cancel => Effect::Nothing,
            FormOutcome::Dispatch => Effect::AddSources(AddRun::dispatch_add_options(form)),
            FormOutcome::Stay => {
                self.add_options = Some(form);
                Effect::Nothing
            },
            FormOutcome::Quit => {
                self.add_options = Some(form);
                Effect::Quit
            },
            FormOutcome::ListFolder(folder) => {
                self.add_options = Some(form);
                Effect::CompleteForm { folder }
            },
        }
    }

    /// The text of the prompt is submitted.
    fn submit(&mut self, prompt: Prompt) -> (out: Effect)
        requires
            old(self).wf(),
            old(self).prompt is None,
            prompt.wf(),
        ensures
            final(self).wf(),
            (final(self)@, out@) == prompt_submitted(
                AppView { prompt: Some(prompt@), ..old(self)@ },
                prompt@,
            ),
    {
        match prompt.submit_prompt() {
            PromptPlan::Refuse(why) => {
                self.main.tell(why);
                self.prompt = Some(prompt);
                Effect::Nothing
            },
            PromptPlan::Options(entries) => {
                assert(texts(entries@).len() == entries@.len());
                self.add_options = Some(AddOptionsForm::new(entries));
                self.main.refresh();
                Effect::Nothing
            },
            PromptPlan::Send(request) => {
                self.prompt = Some(prompt);
                Effect::Send { request, topic: Topic::Prompt }
            },
        }
    }

    /// A key in the prompt.
    fn prompt_key(&mut self, key: Key) -> (out: Effect)
        requires
            old(self).wf(),
            old(self).prompt is Some,
        ensures
            final(self).wf(),
            (final(self)@, out@) == key_to_prompt(old(self)@, old(self)@.prompt->0, key),
    {
        let mut prompt = match self.prompt.take() {
            Some(prompt) => prompt,
            None => {
                return Effect::Nothing;
            },
        };
        match prompt.handle_prompt_key(key) {
            PromptOutcome::Cancel => Effect::Nothing,
            PromptOutcome::Submit => self.submit(prompt),
            PromptOutcome::Stay => {
                self.prompt = Some(prompt);
                Effect::Nothing
            },
            PromptOutcome::Quit => {
                self.prompt = Some(prompt);
                Effect::Quit
            },
            PromptOutcome::ListFolder(folder) => {
                self.prompt = Some(prompt);
                Effect::CompletePrompt { folder }
            },
        }
    }

    /// A key while a line is typed.
    fn input_key(&mut self, key: Key) -> (out: Effect)
        requires
            old(self).wf(),
            old(self).active_input is Some,
        ensures
            final(self).wf(),
            (final(self)@, out@) == key_to_input(old(self)@, old(self)@.input->0, key),
    {
        let mut input = match self.active_input.take() {
            Some(input) => input,
            None => {
                return Effect::Nothing;
            },
        };
        match self.main.handle_active_input_key(&mut input, key) {
            InputOutcome::Close => Effect::Nothing,
            InputOutcome::Stay => {
                self.active_input = Some(input);
                Effect::Nothing
            },
            InputOutcome::Quit => {
                self.active_input = Some(input);
                Effect::Quit
            },
        }
    }

    /// A key on the settings page.
    fn settings_key(&mut self, page: SettingsState, key: Key) -> (out: Effect)
        requires
            old(self).wf(),
            page.wf(),
        ensures
            final(self).wf(),
            (final(self)@, out@) == key_to_settings(old(self)@, page@, key),
    {
        let mut page = page;
        let out = page.handle_settings_key(key);
        if let SettingsOutcome::Close = out {
            self.mode = Mode::Main;
            self.main.list_due = true;
            return Effect::Nothing;
        }
        self.mode = Mode::Settings(page);
        match out {
            SettingsOutcome::Stay | SettingsOutcome::Close => Effect::Nothing,
            SettingsOutcome::Quit => Effect::Quit,
            SettingsOutcome::Commit { key, value } => if same(key.as_str(), "autostart") {
                Effect::SetAutostart { value }
            } else {
                Effect::Send {
                    request: Request::SetConfig { key: key.clone(), value: value.clone() },
                    topic: Topic::Setting { key, value },
                }
            },
            SettingsOutcome::StoreFolders { value } => Effect::Send {
                request: Request::SetConfig { key: "watch_directories".to_owned(), value },
                topic: Topic::Folders,
            },
            SettingsOutcome::ListInterfaces => Effect::PickInterface,
        }
    }

    /// A key on the page of feeds.
    fn feeds_key(&mut self, page: FeedsState, key: Key) -> (out: Effect)
        requires
            old(self).wf(),
        ensures
            final(self).wf(),
            (final(self)@, out@) == key_to_feeds(old(self)@, page@, key),
    {
        let mut page = page;
        let out = page.handle_feeds_key(key);
        if let FeedsOutcome::Close = out {
            self.mode = Mode::Main;
            return Effect::Nothing;
        }
        self.mode = Mode::Feeds(page);
        match out {
            FeedsOutcome::Stay | FeedsOutcome::Close => Effect::Nothing,
            FeedsOutcome::Quit => Effect::Quit,
            FeedsOutcome::AskAddress => {
                self.prompt = Some(Prompt::for_feed());
                Effect::Nothing
            },
            FeedsOutcome::Remove { index } => Effect::Send {
                request: Request::RemoveFeed { index },
                topic: Topic::FeedRemoval { index },
            },
            FeedsOutcome::Poll => Effect::Send { request: Request::PollFeeds, topic: Topic::FeedPoll },
        }
    }

    /// A key in the main view.
    fn main_key(&mut self, key: Key) -> (out: Effect)
        requires
            old(self).wf(),
        ensures
            final(self).wf(),
            (final(self)@, out@) == key_to_main(old(self)@, key),
    {
        match self.main.handle_key(key) {
            MainOutcome::Stay => Effect::Nothing,
            MainOutcome::Quit => Effect::Quit,
            MainOutcome::Settings => Effect::OpenSettings,
            MainOutcome::Feeds => {
                self.mode = Mode::Feeds(FeedsState::new());
                Effect::Nothing
            },
            MainOutcome::Ask(prompt) => {
                assert(prompt.wf()) by {
                    assert(prompt@.lines.len() == prompt.lines@.len());
                }
                self.prompt = Some(prompt);
                Effect::Nothing
            },
            MainOutcome::AskSources => Effect::OpenSources,
            MainOutcome::Columns => {
                self.column_picker = Some(0);
                Effect::Nothing
            },
            MainOutcome::Help => {
                self.show_help = true;
                Effect::Nothing
            },
            MainOutcome::Confirm(confirm) => {
                self.confirm_delete = Some(confirm);
                Effect::Nothing
            },
            MainOutcome::Input(input) => {
                self.active_input = Some(input);
                Effect::Nothing
            },
            MainOutcome::Send(request, purpose) => Effect::Send {
                request,
                topic: Topic::Main(purpose),
            },
        }
    }

    /// A key. What lies on top takes it.
    pub fn route_key(&mut self, key: Key) -> (out: Effect)
        requires
            old(self).wf(),
        ensures
            final(self).wf(),
            (final(self)@, out@) == after_key(old(self)@, key),
    {
        if self.priority_step.is_some() {
            return self.step_key(key);
        }
        if self.show_help {
            if key.quits() {
                return Effect::Quit;
            }
            self.show_help = false;
            return Effect::Nothing;
        }
        if self.confirm_delete.is_some() {
            return self.confirm_key(key);
        }
        if let Some(row) = self.column_picker {
            return self.columns_key(row, key);
        }
        if self.add_options.is_some() {
            return self.form_key(key);
        }
        if self.prompt.is_some() {
            return self.prompt_key(key);
        }
        if self.active_input.is_some() {
            return self.input_key(key);
        }
        let mut mode = Mode::Main;
        core::mem::swap(&mut mode, &mut self.mode);
        match mode {
            Mode::Settings(page) => self.settings_key(page, key),
            Mode::Feeds(page) => self.feeds_key(page, key),
            Mode::Main => self.main_key(key),
        }
    }
}

// ----- what comes back -----

/// The page of feeds, where it is open, with the note that a feed was added.
pub open spec fn feed_noted(mode: ModeView) -> ModeView {
    match mode {
        ModeView::Feeds(page) => ModeView::Feeds(
            FeedsView { poll_now: true, status: Some("feed added"@), ..page },
        ),
        other => other,
    }
}

/// The interface once it is known what became of the prompt's text: the prompt is closed, or
/// stays with the reason on the status line.
pub open spec fn prompt_settled(
    v: AppView,
    prompt: PromptView,
    outcome: Result<Option<Seq<char>>, Seq<char>>,
) -> AppView {
    match outcome {
        Err(why) => AppView { prompt: Some(prompt), main: told(v.main, why), ..v },
        Ok(note) => AppView {
            prompt: None,
            main: all_due(noted(v.main, note)),
            mode: if prompt.action is AddFeed {
                feed_noted(v.mode)
            } else {
                v.mode
            },
            ..v
        },
    }
}

/// The interface after the daemon has answered what the prompt submitted.
pub open spec fn prompt_answered(v: AppView, prompt: PromptView, answer: Result<Response, String>) -> AppView {
    prompt_settled(v, prompt, settled(prompt.action, answer))
}

/// The interface after the daemon has answered.
pub open spec fn after_reply_to(v: AppView, topic: TopicView, answer: Result<Response, String>) -> AppView {
    match topic {
        TopicView::Main(purpose) => AppView { main: after_reply(v.main, purpose, answer), ..v },
        TopicView::Prompt => match v.prompt {
            Some(prompt) => prompt_answered(v, prompt, answer),
            None => v,
        },
        TopicView::Step => v,
        TopicView::FeedRemoval(index) => match v.mode {
            ModeView::Feeds(page) => AppView {
                mode: ModeView::Feeds(feed_removed(page, index, answer)),
                ..v
            },
            _ => v,
        },
        TopicView::FeedPoll => match v.mode {
            ModeView::Feeds(page) => AppView {
                mode: ModeView::Feeds(feeds_polled(page, answer)),
                ..v
            },
            _ => v,
        },
        TopicView::Setting(name, text) => match v.mode {
            ModeView::Settings(page) => AppView {
                mode: ModeView::Settings(
                    SettingsView {
                        status: Some(
                            change_status("saved "@ + name + " = "@ + text, answer),
                        ),
                        ..page
                    },
                ),
                ..v
            },
            _ => v,
        },
        TopicView::Folders => match v.mode {
            ModeView::Settings(page) => AppView {
                mode: ModeView::Settings(
                    SettingsView {
                        status: Some(change_status("saved watch_directories"@, answer)),
                        ..page
                    },
                ),
                ..v
            },
            _ => v,
        },
    }
}

/// The configuration is to be read anew: a setting was stored.
pub open spec fn settings_stale(v: AppView, topic: TopicView, answer: Result<Response, String>) -> bool {
    (topic is Setting || topic is Folders) && v.mode is Settings && answer == Ok::<Response, String>(
        Response::Done,
    )
}

impl AppState {
    /// Tells the page of feeds, where it is open, that a feed was added.
    fn note_feed(&mut self)
        requires
            old(self).wf(),
        ensures
            final(self).wf(),
            final(self)@ == (AppView { mode: feed_noted(old(self)@.mode), ..old(self)@ }),
    {
        if let Mode::Feeds(page) = &mut self.mode {
            page.feed_added();
        }
    }

    /// It is known what became of the prompt's text.
    fn settle(&mut self, prompt: Prompt, outcome: Result<Option<String>, String>)
        requires
            old(self).wf(),
            old(self).prompt is None,
            prompt.wf(),
        ensures
            final(self).wf(),
            final(self)@ == prompt_settled(old(self)@, prompt@, settled_view(outcome)),
    {
        match outcome {
            Err(why) => {
                self.main.tell(why);
                self.prompt = Some(prompt);
            },
            Ok(note) => {
                self.main.take_note(note);
                if let PromptAction::AddFeed = prompt.action {
                    self.note_feed();
                }
            },
        }
    }

    /// Takes up the answer to what the prompt submitted.
    fn answer_prompt(&mut self, answer: &Result<Response, String>)
        requires
            old(self).wf(),
        ensures
            final(self).wf(),
            final(self)@ == (match old(self)@.prompt {
                Some(prompt) => prompt_answered(old(self)@, prompt, *answer),
                None => old(self)@,
            }),
    {
        if let Some(prompt) = self.prompt.take() {
            let outcome = settle_prompt(&prompt.action, answer);
            self.settle(prompt, outcome);
        }
    }

    /// Takes up an answer of the daemon; tells whether the configuration is to be read anew.
    pub fn take_answer(&mut self, topic: &Topic, answer: &Result<Response, String>) -> (r: bool)
        requires
            old(self).wf(),
        ensures
            final(self).wf(),
            final(self)@ == after_reply_to(old(self)@, topic@, *answer),
            r == settings_stale(old(self)@, topic@, *answer),
    {
        match topic {
            Topic::Main(purpose) => {
                self.main.take_reply(purpose, answer);
                false
            },
            Topic::Prompt => {
                self.answer_prompt(answer);
                false
            },
            Topic::Step => false,
            Topic::FeedRemoval { index } => {
                if let Mode::Feeds(page) = &mut self.mode {
                    page.settle_removal(*index, answer);
                }
                false
            },
            Topic::FeedPoll => {
                if let Mode::Feeds(page) = &mut self.mode {
                    page.settle_poll(answer);
                }
                false
            },
            Topic::Setting { key, value } => {
                let mut mode = Mode::Main;
                core::mem::swap(&mut mode, &mut self.mode);
                match mode {
                    Mode::Settings(page) => {
                        let mut page = page;
                        let stale = page.settle_commit(key.as_str(), value.as_str(), answer);
                        self.mode = Mode::Settings(page);
                        stale
                    },
                    other => {
                        self.mode = other;
                        false
                    },
                }
            },
            Topic::Folders => {
                let mut mode = Mode::Main;
                core::mem::swap(&mut mode, &mut self.mode);
                match mode {
                    Mode::Settings(page) => {
                        let mut page = page;
                        let stale = page.settle_folders(answer);
                        self.mode = Mode::Settings(page);
                        stale
                    },
                    other => {
                        self.mode = other;
                        false
                    },
                }
            },
        }
    }

    /// Opens the settings with the configuration of the daemon, or says why not.
    pub fn open_settings(&mut self, loaded: Result<Config, String>, ratio_text: String, autostart: bool)
        requires
            old(self).wf(),
        ensures
            final(self).wf(),
            match loaded {
                Ok(config) => {
                    &&& final(self)@ == (AppView { mode: final(self)@.mode, ..old(self)@ })
                    &&& final(self)@.mode == ModeView::Settings(
                        SettingsView {
                            config,
                            ratio: ratio_text@,
                            autostart,
                            selected: 0,
                            tab: 0,
                            edit: None,
                            status: None,
                            scroll: 0,
                            picker: None,
                            dirs: texts(config.watch_directories@),
                            dir_selected: 0,
                            dir_editing: false,
                            dir_buffer: Seq::empty(),
                        },
                    )
                },
                Err(why) => final(self)@ == (AppView {
                    main: told(old(self)@.main, "settings: "@ + why@),
                    ..old(self)@
                }),
            },
    {
        match loaded {
            Ok(config) => {
                self.mode = Mode::Settings(SettingsState::load(config, ratio_text, autostart));
            },
            Err(why) => {
                self.main.tell(concat2("settings: ", why.as_str()));
            },
        }
    }

    /// Opens the prompt for sources, filled with the text of the clipboard where that looks like
    /// one.
    pub fn open_add_prompt(&mut self, clipboard: &Option<String>)
        requires
            old(self).wf(),
        ensures
            final(self).wf(),
            final(self)@ == (AppView {
                prompt: Some(
                    add_prompt(
                        match *clipboard {
                            Some(text) => if looks_like_source(crate::text::trim(text@)) {
                                crate::text::trim(text@)
                            } else {
                                Seq::empty()
                            },
                            None => Seq::empty(),
                        },
                    ),
                ),
                ..old(self)@
            }),
    {
        let found = match clipboard {
            Some(text) => clipboard_magnet_or_url(text.as_str()),
            None => None,
        };
        let prefill = match found {
            Some(source) => source,
            None => {
                let empty = String::new();
                assert(empty@ =~= Seq::<char>::empty());
                empty
            },
        };
        self.prompt = Some(Prompt::for_add(prefill.as_str()));
    }

    /// Completes the line of the prompt among the entries of its folder.
    pub fn complete_prompt(&mut self, entries: &Option<Vec<FolderEntry>>)
        requires
            old(self).wf(),
        ensures
            final(self).wf(),
            final(self)@ == (AppView {
                prompt: match old(self)@.prompt {
                    Some(p) => Some(
                        PromptView {
                            lines: p.lines.update(
                                p.cursor,
                                completed_path(p.lines[p.cursor], opt_entries(*entries)),
                            ),
                            ..p
                        },
                    ),
                    None => None,
                },
                ..old(self)@
            }),
    {
        if let Some(prompt) = &mut self.prompt {
            prompt.complete_line(entries);
        }
    }

    /// Completes the save path of the form among the entries of its folder.
    pub fn complete_form(&mut self, entries: &Option<Vec<FolderEntry>>)
        requires
            old(self).wf(),
        ensures
            final(self).wf(),
            final(self)@ == (AppView {
                form: match old(self)@.form {
                    Some(f) => Some(
                        FormView {
                            edit: match f.edit {
                                Some(text) => Some(completed_path(text, opt_entries(*entries))),
                                None => None,
                            },
                            ..f
                        },
                    ),
                    None => None,
                },
                ..old(self)@
            }),
    {
        if let Some(form) = &mut self.add_options {
            form.complete_path(entries);
        }
    }

    /// All sources were dealt with: says what became of them, and goes on to the files of those
    /// that were added paused.
    pub fn finish_adding(&mut self, run: AddRun)
        requires
            old(self).wf(),
            run.wf(),
        ensures
            final(self).wf(),
            final(self)@ == (AppView {
                main: MainView { list_due: true, ..told(old(self)@.main, run_summary(run@)) },
                step: if run@.paused_indices.len() > 0 {
                    Some(
                        StepView {
                            entries: run@.paused_entries,
                            indices: run@.paused_indices,
                            current: 0,
                            files: fresh_files(),
                            filter_active: false,
                            rename: None,
                            target: None,
                            poll_now: true,
                        },
                    )
                } else {
                    old(self)@.step
                },
                ..old(self)@
            }),
    {
        let text = run.summary();
        self.main.tell(text);
        self.main.list_due = true;
        if run.paused_indices.len() > 0 {
            self.priority_step = Some(
                PriorityStep::new(run.paused_entries, run.paused_indices),
            );
        }
    }
}

// ----- asking the daemon -----

/// What is to be asked of the daemon now.
#[derive(Clone, Copy, Debug, PartialEq, Eq, Structural)]
pub struct Polls {
    pub list: bool,
    pub detail: bool,
    pub feeds: bool,
    pub step: bool,
}

/// What is to be asked of the daemon now. Each flag of `elapsed` says that the last time was
/// long enough ago.
pub open spec fn polls_due(v: AppView, elapsed: Polls) -> Polls {
    Polls {
        list: v.mode is Main && (v.main.list_due || elapsed.list),
        detail: v.mode is Main && v.main.show_detail && (v.main.detail_due || elapsed.detail),
        feeds: match v.mode {
            ModeView::Feeds(page) => page.poll_now || elapsed.feeds,
            _ => false,
        },
        step: match v.step {
            Some(step) => step.poll_now || elapsed.step,
            None => false,
        },
    }
}

impl AppState {
    /// What is to be asked of the daemon now.
    pub fn wanted_polls(&self, elapsed: Polls) -> (r: Polls)
        ensures
            r == polls_due(self@, elapsed),
    {
        let in_main = match self.mode {
            Mode::Main => true,
            _ => false,
        };
        let feeds = match &self.mode {
            Mode::Feeds(page) => page.poll_now || elapsed.feeds,
            _ => false,
        };
        let step = match &self.priority_step {
            Some(step) => step.poll_now || elapsed.step,
            None => false,
        };
        Polls {
            list: in_main && (self.main.list_due || elapsed.list),
            detail: in_main && self.main.show_detail && (self.main.detail_due || elapsed.detail),
            feeds,
            step,
        }
    }
}

// ----- laws -----

/// Something lies over the main view and takes its keys.
pub open spec fn covered(v: AppView) -> bool {
    v.step is Some || v.help || v.confirm is Some || v.picker is Some || v.form is Some || v.prompt
        is Some
}

/// While something lies over the main view, no key reaches it: the torrents, the filters, what
/// is selected and what is on screen stay as they are.
pub proof fn law_overlays_take_every_key(v: AppView, key: Key)
    requires
        covered(v),
    ensures
        ({
            let after = after_key(v, key).0.main;
            &&& after.torrents == v.main.torrents
            &&& after.filters == v.main.filters
            &&& after.list == v.main.list
            &&& after.sidebar == v.main.sidebar
            &&& after.files == v.main.files
            &&& after.focus == v.main.focus
            &&& after.tab == v.main.tab
            &&& after.show_sidebar == v.main.show_sidebar
            &&& after.show_detail == v.main.show_detail
        }),
{
}

/// A value of the settings is being typed, and nothing lies over it.
pub open spec fn types_a_setting(v: AppView) -> bool {
    !covered(v) && v.input is None && (v.mode matches ModeView::Settings(page) && page.picker
        is None && !page.dir_editing && !crate::tui::schema::is_list(page.selected) && page.edit
        is Some)
}

/// Ctrl+c ends the program wherever the keys go, but where a value of the settings is typed.
pub proof fn law_control_c_quits(v: AppView, key: Key)
    requires
        key.is_quit(),
        !types_a_setting(v),
    ensures
        after_key(v, key).1 == EffectView::Quit,
{
}

/// No other key ends the program in the main view.
pub proof fn law_only_control_c_quits_main(v: AppView, key: Key)
    requires
        !covered(v),
        v.input is None,
        v.mode is Main,
        after_key(v, key).1 == EffectView::Quit,
    ensures
        key.is_quit(),
{
}

/// A torrent is deleted only by confirming the question about it, and it is the one that the
/// question is about.
pub proof fn law_deleting_is_confirmed(v: AppView, key: Key, index: usize, delete_files: bool)
    requires
        after_key(v, key).1 == EffectView::Send(
            RequestView::Remove { index, delete_files },
            TopicView::Main(PurposeView::Delete),
        ),
    ensures
        v.confirm matches Some(c) && c.torrent == index && c.delete_files == delete_files,
        key.code == Code::Enter || key.code == Code::Char('y'),
        after_key(v, key).0.confirm is None,
{
    let asked = EffectView::Send(
        RequestView::Remove { index, delete_files },
        TopicView::Main(PurposeView::Delete),
    );
    if v.step is Some {
        assert(key_to_step(v, v.step->0, key).1 != asked);
    } else if v.help {
        assert(key_to_help(v, key).1 != asked);
    } else if v.confirm is Some {
        assert(key_to_confirm(v, v.confirm->0, key).1 == asked);
    } else if v.picker is Some {
        assert(key_to_columns(v, v.picker->0, key).1 != asked);
    } else if v.form is Some {
        assert(key_to_form(v, v.form->0, key).1 != asked);
    } else if v.prompt is Some {
        assert(key_to_prompt(v, v.prompt->0, key).1 != asked);
    } else if v.input is Some {
        assert(key_to_input(v, v.input->0, key).1 != asked);
    } else if v.mode is Main {
        law_main_keys_delete_nothing(v.main, key);
    }
}

/// A text that the daemon refuses stays in the prompt, with the reason on the status line.
pub proof fn law_refused_text_stays(v: AppView, why: String)
    requires
        v.prompt is Some,
    ensures
        ({
            let after = after_reply_to(v, TopicView::Prompt, Ok(Response::Failed(why)));
            after.prompt == v.prompt && after.main.error == Some(why@)
        }),
{
    reveal(settled);
}

} // verus!
