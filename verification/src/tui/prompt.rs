//! The prompt that asks for a line of text, or several.

use crate::integers::{parse_i32, written_within};
use crate::ipc::{Request, RequestView, Response};
use crate::text::{
    collected_lines, concat2, concat3, concat4, decimal, decimal_i64, decimal_u64, ends_with,
    filled_lines, has_prefix, has_suffix, is_empty, join, join_with, starts_with, texts, trim,
    trimmed,
};
use crate::textfield::{
    folder_to_list, listed_folder, opt_entries, completed_path, tab_complete_path, FolderEntry,
};
use crate::tui::keys::{Code, Key};
use crate::tui::settings::{lengthen, shorten, shortened};
use vstd::prelude::*;

verus! {

/// What the text is for.
#[derive(Clone, Debug, PartialEq, Eq)]
pub enum PromptAction {
    /// the name of a torrent
    Rename,
    /// the folder to move a torrent to
    Move,
    /// sources of torrents, one on each line
    Add,
    /// the path of a file of the torrent
    RenameFile { file_index: usize },
    /// the path of a folder of the torrent
    RenameFolder { old_prefix: String },
    /// the address of a feed
    AddFeed,
    /// the limits of a torrent: download on the first line, upload on the second
    SetRateLimit,
    /// the address of a tracker
    AddTracker,
}

/// What the text is for, as plain values.
pub enum ActionView {
    Rename,
    Move,
    Add,
    RenameFile(usize),
    RenameFolder(Seq<char>),
    AddFeed,
    SetRateLimit,
    AddTracker,
}

impl View for PromptAction {
    type V = ActionView;

    open spec fn view(&self) -> ActionView {
        match *self {
            PromptAction::Rename => ActionView::Rename,
            PromptAction::Move => ActionView::Move,
            PromptAction::Add => ActionView::Add,
            PromptAction::RenameFile { file_index } => ActionView::RenameFile(file_index),
            PromptAction::RenameFolder { old_prefix } => ActionView::RenameFolder(old_prefix@),
            PromptAction::AddFeed => ActionView::AddFeed,
            PromptAction::SetRateLimit => ActionView::SetRateLimit,
            PromptAction::AddTracker => ActionView::AddTracker,
        }
    }
}

/// A prompt. It takes every key until it is submitted or left.
#[derive(Clone, Debug, PartialEq, Eq)]
pub struct Prompt {
    pub title: String,
    pub helper: String,
    pub lines: Vec<String>,
    /// the line that is being edited
    pub cursor_line: usize,
    pub action: PromptAction,
    /// the torrent that the action is about
    pub torrent_index: usize,
    /// whether lines can be added
    pub allow_multiline: bool,
}

/// A prompt as plain values.
pub struct PromptView {
    pub title: Seq<char>,
    pub helper: Seq<char>,
    pub lines: Seq<Seq<char>>,
    pub cursor: int,
    pub action: ActionView,
    pub torrent: usize,
    pub multiline: bool,
}

impl View for Prompt {
    type V = PromptView;

    open spec fn view(&self) -> PromptView {
        PromptView {
            title: self.title@,
            helper: self.helper@,
            lines: texts(self.lines@),
            cursor: self.cursor_line as int,
            action: self.action@,
            torrent: self.torrent_index,
            multiline: self.allow_multiline,
        }
    }
}

/// What a key leads to.
#[derive(Clone, Debug, PartialEq, Eq)]
pub enum PromptOutcome {
    Stay,
    /// end the program
    Quit,
    /// leave the prompt
    Cancel,
    /// take the text
    Submit,
    /// read this folder and complete the line among its entries
    ListFolder(String),
}

/// What a key leads to, as plain values.
pub enum PromptOut {
    Stay,
    Quit,
    Cancel,
    Submit,
    ListFolder(Seq<char>),
}

impl View for PromptOutcome {
    type V = PromptOut;

    open spec fn view(&self) -> PromptOut {
        match *self {
            PromptOutcome::Stay => PromptOut::Stay,
            PromptOutcome::Quit => PromptOut::Quit,
            PromptOutcome::Cancel => PromptOut::Cancel,
            PromptOutcome::Submit => PromptOut::Submit,
            PromptOutcome::ListFolder(folder) => PromptOut::ListFolder(folder@),
        }
    }
}

// ----- keys -----

/// The prompt after a character or a line was taken back: an empty line goes, unless it is the
/// first.
pub open spec fn taken_back(v: PromptView) -> PromptView {
    let line = v.lines[v.cursor];
    if line.len() == 0 && v.cursor > 0 && v.lines.len() > 1 {
        PromptView { lines: v.lines.remove(v.cursor), cursor: v.cursor - 1, ..v }
    } else {
        PromptView { lines: v.lines.update(v.cursor, shortened(line)), ..v }
    }
}

/// The prompt after a new line.
pub open spec fn line_added(v: PromptView) -> PromptView {
    if v.multiline {
        PromptView {
            lines: v.lines.insert(v.cursor + 1, Seq::empty()),
            cursor: v.cursor + 1,
            ..v
        }
    } else {
        v
    }
}

/// The prompt after a key, and what it leads to.
pub open spec fn after_prompt_key(v: PromptView, key: Key) -> (PromptView, PromptOut) {
    if key.is_quit() {
        (v, PromptOut::Quit)
    } else if key.code == Code::Esc {
        (v, PromptOut::Cancel)
    } else if key.code == Code::Enter {
        if key.shift && !key.control && !key.alt && !key.other {
            (line_added(v), PromptOut::Stay)
        } else {
            (v, PromptOut::Submit)
        }
    } else if key.code == Code::Up {
        (
            PromptView {
                cursor: if v.cursor > 0 {
                    v.cursor - 1
                } else {
                    0
                },
                ..v
            },
            PromptOut::Stay,
        )
    } else if key.code == Code::Down {
        (
            PromptView {
                cursor: if v.cursor + 1 < v.lines.len() {
                    v.cursor + 1
                } else {
                    v.lines.len() - 1
                },
                ..v
            },
            PromptOut::Stay,
        )
    } else if key.code == Code::Backspace {
        (taken_back(v), PromptOut::Stay)
    } else if key.code == Code::Tab {
        if v.action is Move || v.action is AddFeed {
            (v, PromptOut::ListFolder(listed_folder(v.lines[v.cursor])))
        } else {
            (v, PromptOut::Stay)
        }
    } else {
        match key.typed() {
            Some(c) => (
                PromptView { lines: v.lines.update(v.cursor, v.lines[v.cursor].push(c)), ..v },
                PromptOut::Stay,
            ),
            None => (v, PromptOut::Stay),
        }
    }
}

// ----- submitting -----

/// The limit on a line: -1 where there is no such line or it is no number.
pub open spec fn limit_on(lines: Seq<Seq<char>>, i: int) -> int {
    if i < lines.len() {
        match written_within(trim(lines[i]), true, i32::MIN as int, i32::MAX as int) {
            Some(n) => n,
            None => -1,
        }
    } else {
        -1
    }
}

/// What submitting the text does.
#[derive(Clone, Debug, PartialEq, Eq)]
pub enum PromptPlan {
    /// nothing, for this reason
    Refuse(String),
    /// go on to the options of these sources
    Options(Vec<String>),
    /// ask this of the daemon
    Send(Request),
}

/// What submitting the text does, as plain values.
pub enum PlanView {
    Refuse(Seq<char>),
    Options(Seq<Seq<char>>),
    Send(RequestView),
}

impl View for PromptPlan {
    type V = PlanView;

    open spec fn view(&self) -> PlanView {
        match *self {
            PromptPlan::Refuse(why) => PlanView::Refuse(why@),
            PromptPlan::Options(entries) => PlanView::Options(texts(entries@)),
            PromptPlan::Send(request) => PlanView::Send(request@),
        }
    }
}

/// What submitting the text does.
pub open spec fn plan_of(v: PromptView) -> PlanView {
    let index = v.torrent;
    let text = v.lines[0];
    match v.action {
        ActionView::Rename => PlanView::Send(RequestView::RenameTorrent { index, new_name: text }),
        ActionView::RenameFile(file_index) => PlanView::Send(
            RequestView::RenameFile { index, file_index, new_name: text },
        ),
        ActionView::RenameFolder(old_prefix) => PlanView::Send(
            RequestView::RenameFolder { index, old_prefix, new_prefix: text },
        ),
        ActionView::Move => PlanView::Send(RequestView::Move { index, new_save_path: text }),
        ActionView::Add => if filled_lines(v.lines).len() == 0 {
            PlanView::Refuse("no sources provided"@)
        } else {
            PlanView::Options(filled_lines(v.lines))
        },
        ActionView::SetRateLimit => PlanView::Send(
            RequestView::SetTorrentRateLimit {
                index,
                download: limit_on(v.lines, 0) as i32,
                upload: limit_on(v.lines, 1) as i32,
            },
        ),
        ActionView::AddFeed => if trim(text).len() == 0 {
            PlanView::Refuse("url cannot be empty"@)
        } else {
            PlanView::Send(
                RequestView::AddFeed {
                    url: trim(text),
                    filter: Seq::empty(),
                    category: None,
                    save_path: None,
                    poll_interval_minutes: 30,
                    start_paused: false,
                },
            )
        },
        ActionView::AddTracker => if trim(text).len() == 0 {
            PlanView::Refuse("tracker url cannot be empty"@)
        } else {
            PlanView::Send(RequestView::AddTracker { index, url: trim(text), tier: 0 })
        },
    }
}

/// One rejected file of a rename.
pub open spec fn rejection(r: (usize, String)) -> Seq<char> {
    "#"@ + decimal(r.0 as int) + ": "@ + r.1@
}

/// What becomes of a submitted text: done, perhaps with a note, or failed with a reason.
#[verifier::opaque]
pub open spec fn settled(action: ActionView, answer: Result<Response, String>) -> Result<
    Option<Seq<char>>,
    Seq<char>,
> {
    match answer {
        Err(why) => Err(why@),
        Ok(Response::Done) => Ok(None),
        Ok(Response::Failed(why)) => Err(why@),
        Ok(Response::RenameResult { renamed, rejected }) if action is RenameFolder => {
            if rejected@.len() == 0 {
                Ok(Some("renamed "@ + decimal(renamed@.len() as int) + " file(s)"@))
            } else {
                Err(
                    "rejected: "@ + join(
                        rejected@.map_values(|r: (usize, String)| rejection(r)),
                        "; "@,
                    ),
                )
            }
        },
        Ok(_) => Err("unexpected response"@),
    }
}

/// What becomes of a submitted text, as plain values.
pub open spec fn settled_view(r: Result<Option<String>, String>) -> Result<
    Option<Seq<char>>,
    Seq<char>,
> {
    match r {
        Ok(note) => Ok(crate::text::opt_text(note)),
        Err(why) => Err(why@),
    }
}

/// What becomes of a submitted text.
pub fn settle_prompt(action: &PromptAction, answer: &Result<Response, String>) -> (r: Result<
    Option<String>,
    String,
>)
    ensures
        settled_view(r) == settled(action@, *answer),
{
    proof {
        reveal(settled);
    }
    match answer {
        Err(why) => Err(why.clone()),
        Ok(Response::Done) => Ok(None),
        Ok(Response::Failed(why)) => Err(why.clone()),
        Ok(Response::RenameResult { renamed, rejected }) => {
            match action {
                PromptAction::RenameFolder { old_prefix: _ } => {
                    if rejected.len() == 0 {
                        let count = decimal_u64(renamed.len() as u64);
                        Ok(Some(concat3("renamed ", count.as_str(), " file(s)")))
                    } else {
                        let mut parts: Vec<String> = Vec::new();
                        let mut i: usize = 0;
                        while i < rejected.len()
                            invariant
                                i <= rejected@.len(),
                                parts@.len() == i,
                                forall|j: int|
                                    0 <= j < i ==> (#[trigger] parts@[j])@ == rejection(
                                        rejected@[j],
                                    ),
                            decreases rejected@.len() - i,
                        {
                            let number = decimal_u64(rejected[i].0 as u64);
                            parts.push(
                                concat4("#", number.as_str(), ": ", rejected[i].1.as_str()),
                            );
                            i = i + 1;
                        }
                        assert(texts(parts@) =~= rejected@.map_values(
                            |r: (usize, String)| rejection(r),
                        ));
                        let all = join_with(&parts, "; ");
                        Err(concat2("rejected: ", all.as_str()))
                    }
                },
                _ => Err("unexpected response".to_owned()),
            }
        },
        Ok(_) => Err("unexpected response".to_owned()),
    }
}

/// The limit on a line.
fn read_limit(lines: &Vec<String>, i: usize) -> (r: i32)
    ensures
        r == limit_on(texts(lines@), i as int),
{
    if i < lines.len() {
        assert(texts(lines@)[i as int] == lines@[i as int]@);
        let line = trimmed(lines[i].as_str());
        match parse_i32(line.as_str()) {
            Ok(n) => n,
            Err(_) => -1,
        }
    } else {
        -1
    }
}

impl Prompt {
    /// There is a line, and the cursor is on one.
    pub open spec fn wf(&self) -> bool {
        self.cursor_line < self.lines@.len()
    }

    /// A prompt with one line.
    fn single(
        title: String,
        helper: &str,
        line: String,
        action: PromptAction,
        torrent_index: usize,
    ) -> (r: Prompt)
        ensures
            r.wf(),
            r@ == (PromptView {
                title: title@,
                helper: helper@,
                lines: seq![line@],
                cursor: 0,
                action: action@,
                torrent: torrent_index,
                multiline: false,
            }),
    {
        let mut lines: Vec<String> = Vec::new();
        lines.push(line);
        assert(texts(lines@) =~= seq![line@]);
        Prompt {
            title,
            helper: helper.to_owned(),
            lines,
            cursor_line: 0,
            action,
            torrent_index,
            allow_multiline: false,
        }
    }

    /// Asks for the name of a torrent.
    pub fn for_rename(index: usize, current: &str) -> (r: Prompt)
        ensures
            r.wf(),
            r@ == rename_prompt(index, current@),
    {
        let number = decimal_u64(index as u64);
        Prompt::single(
            concat2("rename torrent #", number.as_str()),
            "files inside are not renamed; use the content tab + F2 for individual files",
            current.to_owned(),
            PromptAction::Rename,
            index,
        )
    }

    /// Asks for the folder to move a torrent to.
    pub fn for_move(index: usize, current: &str) -> (r: Prompt)
        ensures
            r.wf(),
            r@ == move_prompt(index, current@),
    {
        let number = decimal_u64(index as u64);
        Prompt::single(
            concat3("move torrent #", number.as_str(), " \u{2014} new save directory"),
            "absolute path. files will be moved on disk by libtorrent.",
            current.to_owned(),
            PromptAction::Move,
            index,
        )
    }

    /// Asks for the path of a folder.
    pub fn for_folder(index: usize, path: &str) -> (r: Prompt)
        ensures
            r.wf(),
            r@ == folder_prompt(index, path@),
    {
        Prompt::single(
            concat3("rename folder \"", path, "\""),
            "new folder path (relative to the torrent root). renaming into an existing folder merges automatically; file-on-file collisions are rejected.",
            path.to_owned(),
            PromptAction::RenameFolder { old_prefix: path.to_owned() },
            index,
        )
    }

    /// Asks for the path of a file.
    pub fn for_file(index: usize, file_index: usize, label: &str, path: &str) -> (r: Prompt)
        ensures
            r.wf(),
            r@ == file_prompt(index, file_index, label@, path@),
    {
        Prompt::single(
            concat3("rename file \"", label, "\""),
            "new path relative to the torrent root. collisions with existing files are rejected.",
            path.to_owned(),
            PromptAction::RenameFile { file_index },
            index,
        )
    }

    /// Asks for the address of a tracker.
    pub fn for_tracker(index: usize) -> (r: Prompt)
        ensures
            r.wf(),
            r@ == tracker_prompt(index),
    {
        let number = decimal_u64(index as u64);
        let empty = String::new();
        assert(empty@ =~= Seq::<char>::empty());
        Prompt::single(
            concat2("add tracker to torrent #", number.as_str()),
            "announce url (e.g. udp://tracker.example.com:1337/announce)",
            empty,
            PromptAction::AddTracker,
            index,
        )
    }

    /// Asks for the address of a feed.
    pub fn for_feed() -> (r: Prompt)
        ensures
            r.wf(),
            r@ == feed_prompt(),
    {
        let empty = String::new();
        assert(empty@ =~= Seq::<char>::empty());
        Prompt::single(
            " add feed \u{2014} enter url ".to_owned(),
            "url of the rss/atom feed to subscribe to",
            empty,
            PromptAction::AddFeed,
            0,
        )
    }

    /// Asks for the limits of a torrent.
    pub fn for_limits(index: usize, download: i32, upload: i32) -> (r: Prompt)
        ensures
            r.wf(),
            r@ == limits_prompt(index, download as int, upload as int),
    {
        let number = decimal_u64(index as u64);
        let mut lines: Vec<String> = Vec::new();
        lines.push(decimal_i64(download as i64));
        lines.push(decimal_i64(upload as i64));
        assert(texts(lines@) =~= seq![decimal(download as int), decimal(upload as int)]);
        Prompt {
            title: concat2("rate limits for torrent #", number.as_str()),
            helper:
                "bytes/sec  0 = unlimited  -1 = inherit global  line 1 = download  line 2 = upload".to_owned(),
            lines,
            cursor_line: 0,
            action: PromptAction::SetRateLimit,
            torrent_index: index,
            allow_multiline: false,
        }
    }

    /// Asks for sources of torrents.
    pub fn for_add(prefill: &str) -> (r: Prompt)
        ensures
            r.wf(),
            r@ == add_prompt(prefill@),
    {
        let mut lines: Vec<String> = Vec::new();
        lines.push(prefill.to_owned());
        assert(texts(lines@) =~= seq![prefill@]);
        Prompt {
            title: "add torrent (shift+enter to add another line)".to_owned(),
            helper:
                "magnet:, http(s)://, ftp(s)://, /abs/path, C:\\path, or ~/foo.torrent \u{2014} one per line".to_owned(),
            lines,
            cursor_line: 0,
            action: PromptAction::Add,
            torrent_index: 0,
            allow_multiline: true,
        }
    }

    /// A key in the prompt.
    pub fn handle_prompt_key(&mut self, key: Key) -> (out: PromptOutcome)
        requires
            old(self).wf(),
        ensures
            final(self).wf(),
            (final(self)@, out@) == after_prompt_key(old(self)@, key),
    {
        let at: usize = self.cursor_line;
        let count: usize = self.lines.len();
        let ghost before = self.lines@;
        assert(texts(before)[at as int] == before[at as int]@);
        if key.quits() {
            return PromptOutcome::Quit;
        }
        if key.code == Code::Esc {
            return PromptOutcome::Cancel;
        }
        if key.code == Code::Enter {
            if key.shift && !key.control && !key.alt && !key.other {
                if self.allow_multiline {
                    let empty = String::new();
                    assert(empty@ =~= Seq::<char>::empty());
                    self.lines.insert(at + 1, empty);
                    self.cursor_line = at + 1;
                    assert(texts(self.lines@) =~= texts(before).insert(at + 1, Seq::empty()));
                }
                return PromptOutcome::Stay;
            }
            return PromptOutcome::Submit;
        }
        if key.code == Code::Up {
            self.cursor_line = if at > 0 { at - 1 } else { 0 };
        } else if key.code == Code::Down {
            self.cursor_line = if at + 1 < count { at + 1 } else { count - 1 };
        } else if key.code == Code::Backspace {
            if is_empty(self.lines[at].as_str()) && at > 0 && count > 1 {
                self.lines.remove(at);
                self.cursor_line = at - 1;
                assert(texts(self.lines@) =~= texts(before).remove(at as int));
            } else {
                let line = shorten(self.lines[at].as_str());
                self.lines.set(at, line);
                assert(texts(self.lines@) =~= texts(before).update(at as int, line@));
            }
        } else if key.code == Code::Tab {
            let completes = match self.action {
                PromptAction::Move | PromptAction::AddFeed => true,
                _ => false,
            };
            if completes {
                return PromptOutcome::ListFolder(folder_to_list(self.lines[at].as_str()));
            }
        } else if let Some(c) = key.types() {
            let line = lengthen(self.lines[at].as_str(), c);
            self.lines.set(at, line);
            assert(texts(self.lines@) =~= texts(before).update(at as int, line@));
        }
        PromptOutcome::Stay
    }

    /// Completes the current line as a path among the entries of its folder.
    pub fn complete_line(&mut self, entries: &Option<Vec<FolderEntry>>)
        requires
            old(self).wf(),
        ensures
            final(self).wf(),
            final(self)@ == (PromptView {
                lines: old(self)@.lines.update(
                    old(self)@.cursor,
                    completed_path(
                        old(self)@.lines[old(self)@.cursor],
                        opt_entries(*entries),
                    ),
                ),
                ..old(self)@
            }),
    {
        let at: usize = self.cursor_line;
        let ghost before = self.lines@;
        let line = tab_complete_path(self.lines[at].as_str(), entries);
        self.lines.set(at, line);
        assert(texts(self.lines@) =~= texts(before).update(at as int, line@));
    }

    /// What submitting the text does.
    pub fn submit_prompt(&self) -> (r: PromptPlan)
        requires
            self.wf(),
        ensures
            r@ == plan_of(self@),
    {
        let index: usize = self.torrent_index;
        let text = self.lines[0].as_str();
        assert(texts(self.lines@)[0] == self.lines@[0]@);
        match &self.action {
            PromptAction::Rename => PromptPlan::Send(
                Request::RenameTorrent { index, new_name: text.to_owned() },
            ),
            PromptAction::RenameFile { file_index } => PromptPlan::Send(
                Request::RenameFile { index, file_index: *file_index, new_name: text.to_owned() },
            ),
            PromptAction::RenameFolder { old_prefix } => PromptPlan::Send(
                Request::RenameFolder {
                    index,
                    old_prefix: old_prefix.clone(),
                    new_prefix: text.to_owned(),
                },
            ),
            PromptAction::Move => PromptPlan::Send(
                Request::Move { index, new_save_path: text.to_owned() },
            ),
            PromptAction::Add => {
                let entries = collected_lines(&self.lines);
                assert(texts(entries@).len() == entries@.len());
                if entries.len() == 0 {
                    PromptPlan::Refuse("no sources provided".to_owned())
                } else {
                    PromptPlan::Options(entries)
                }
            },
            PromptAction::SetRateLimit => PromptPlan::Send(
                Request::SetTorrentRateLimit {
                    index,
                    download: read_limit(&self.lines, 0),
                    upload: read_limit(&self.lines, 1),
                },
            ),
            PromptAction::AddFeed => {
                let url = trimmed(text);
                if is_empty(url.as_str()) {
                    PromptPlan::Refuse("url cannot be empty".to_owned())
                } else {
                    let filter = String::new();
                    assert(filter@ =~= Seq::<char>::empty());
                    PromptPlan::Send(
                        Request::AddFeed {
                            url,
                            filter,
                            category: None,
                            save_path: None,
                            poll_interval_minutes: 30,
                            start_paused: false,
                        },
                    )
                }
            },
            PromptAction::AddTracker => {
                let url = trimmed(text);
                if is_empty(url.as_str()) {
                    PromptPlan::Refuse("tracker url cannot be empty".to_owned())
                } else {
                    PromptPlan::Send(Request::AddTracker { index, url, tier: 0 })
                }
            },
        }
    }
}

// ----- the prompts -----

/// A prompt with one line.
pub open spec fn one_line(
    title: Seq<char>,
    helper: Seq<char>,
    line: Seq<char>,
    action: ActionView,
    torrent: usize,
) -> PromptView {
    PromptView {
        title,
        helper,
        lines: seq![line],
        cursor: 0,
        action,
        torrent,
        multiline: false,
    }
}

/// The prompt for the name of a torrent.
pub open spec fn rename_prompt(index: usize, current: Seq<char>) -> PromptView {
    one_line(
        "rename torrent #"@ + decimal(index as int),
        "files inside are not renamed; use the content tab + F2 for individual files"@,
        current,
        ActionView::Rename,
        index,
    )
}

/// The prompt for the folder of a torrent.
pub open spec fn move_prompt(index: usize, current: Seq<char>) -> PromptView {
    one_line(
        "move torrent #"@ + decimal(index as int) + " \u{2014} new save directory"@,
        "absolute path. files will be moved on disk by libtorrent."@,
        current,
        ActionView::Move,
        index,
    )
}

/// The prompt for the path of a folder.
pub open spec fn folder_prompt(index: usize, path: Seq<char>) -> PromptView {
    one_line(
        "rename folder \""@ + path + "\""@,
        "new folder path (relative to the torrent root). renaming into an existing folder merges automatically; file-on-file collisions are rejected."@,
        path,
        ActionView::RenameFolder(path),
        index,
    )
}

/// The prompt for the path of a file.
pub open spec fn file_prompt(
    index: usize,
    file_index: usize,
    label: Seq<char>,
    path: Seq<char>,
) -> PromptView {
    one_line(
        "rename file \""@ + label + "\""@,
        "new path relative to the torrent root. collisions with existing files are rejected."@,
        path,
        ActionView::RenameFile(file_index),
        index,
    )
}

/// The prompt for a tracker.
pub open spec fn tracker_prompt(index: usize) -> PromptView {
    one_line(
        "add tracker to torrent #"@ + decimal(index as int),
        "announce url (e.g. udp://tracker.example.com:1337/announce)"@,
        Seq::empty(),
        ActionView::AddTracker,
        index,
    )
}

/// The prompt for a feed.
pub open spec fn feed_prompt() -> PromptView {
    one_line(
        " add feed \u{2014} enter url "@,
        "url of the rss/atom feed to subscribe to"@,
        Seq::empty(),
        ActionView::AddFeed,
        0,
    )
}

/// The prompt for the limits of a torrent.
pub open spec fn limits_prompt(index: usize, download: int, upload: int) -> PromptView {
    PromptView {
        title: "rate limits for torrent #"@ + decimal(index as int),
        helper: "bytes/sec  0 = unlimited  -1 = inherit global  line 1 = download  line 2 = upload"@,
        lines: seq![decimal(download), decimal(upload)],
        cursor: 0,
        action: ActionView::SetRateLimit,
        torrent: index,
        multiline: false,
    }
}

/// The prompt for sources.
pub open spec fn add_prompt(prefill: Seq<char>) -> PromptView {
    PromptView {
        title: "add torrent (shift+enter to add another line)"@,
        helper: "magnet:, http(s)://, ftp(s)://, /abs/path, C:\\path, or ~/foo.torrent \u{2014} one per line"@,
        lines: seq![prefill],
        cursor: 0,
        action: ActionView::Add,
        torrent: 0,
        multiline: true,
    }
}

/// How many rows the lines of a prompt get: one each, up to twelve.
pub open spec fn body_rows(lines: int) -> int {
    if lines < 1 {
        1
    } else if lines > 12 {
        12
    } else {
        lines
    }
}

/// How many rows the lines of the prompt get.
pub fn prompt_rows(lines: usize) -> (r: u16)
    ensures
        r == body_rows(lines as int),
{
    if lines < 1 {
        1
    } else if lines > 12 {
        12
    } else {
        lines as u16
    }
}

/// The text of the clipboard looks like a source of a torrent.
pub open spec fn looks_like_source(text: Seq<char>) -> bool {
    has_prefix(text, "magnet:"@) || has_prefix(text, "http://"@) || has_prefix(text, "https://"@)
        || has_suffix(text, ".torrent"@)
}

/// The text of the clipboard, where it looks like a source of a torrent.
pub fn clipboard_magnet_or_url(text: &str) -> (r: Option<String>)
    ensures
        r is Some <==> looks_like_source(trim(text@)),
        r matches Some(source) ==> source@ == trim(text@),
{
    let source = trimmed(text);
    let s = source.as_str();
    if starts_with(s, "magnet:") || starts_with(s, "http://") || starts_with(s, "https://")
        || ends_with(s, ".torrent") {
        Some(source)
    } else {
        None
    }
}

/// Ctrl+c in a prompt ends the program, esc leaves it; neither changes the text.
pub proof fn law_prompt_is_left_unchanged(v: PromptView, key: Key)
    requires
        key.is_quit() || key.code == Code::Esc,
    ensures
        after_prompt_key(v, key).0 == v,
        after_prompt_key(v, key).1 == (if key.is_quit() {
            PromptOut::Quit
        } else {
            PromptOut::Cancel
        }),
{
}

/// Taking back the character that was just typed gives the same text again.
pub proof fn law_backspace_undoes_typing_in_prompt(v: PromptView, key: Key, back: Key)
    requires
        0 <= v.cursor < v.lines.len(),
        key.typed() is Some,
        back.code == Code::Backspace,
    ensures
        after_prompt_key(after_prompt_key(v, key).0, back).0 == v,
{
    let c = key.typed()->0;
    let typed = after_prompt_key(v, key).0;
    assert(typed.lines[v.cursor] == v.lines[v.cursor].push(c));
    assert(v.lines[v.cursor].push(c).drop_last() =~= v.lines[v.cursor]);
    assert(typed.lines.update(v.cursor, v.lines[v.cursor]) =~= v.lines);
}

} // verus!
