//! What the answers of the daemon do to the main view.

use crate::ipc::{CategoryInfo, Request, Response, TorrentDetail, TorrentInfo};
use crate::order::{sort_texts, sorted};
use crate::text::{concat2, concat3, concat4, decimal, decimal_u64, is_empty, texts};
use crate::tui::files::FilesView;
use crate::tui::filters::shown;
use crate::tui::main_view::{selected_torrent, told, MainState, MainView, Purpose, PurposeView};
use crate::tui::selection::{kept, Selection};
use vstd::prelude::*;

verus! {

/// What the status line says of a refused or failed request.
pub open spec fn trouble(what: Seq<char>, why: Seq<char>) -> Seq<char> {
    what + ": "@ + why
}

/// The view after the daemon has answered a request of the main view.
pub open spec fn after_reply(v: MainView, purpose: PurposeView, answer: Result<Response, String>) -> MainView {
    match purpose {
        PurposeView::Pause => match answer {
            Err(why) => told(v, trouble("pause/resume"@, why@)),
            Ok(_) => MainView { list_due: true, ..v },
        },
        PurposeView::Recheck(index) => match answer {
            Err(why) => told(v, trouble("recheck"@, why@)),
            Ok(_) => told(v, "recheck submitted for torrent "@ + decimal(index as int)),
        },
        PurposeView::Reannounce(index) => match answer {
            Err(why) => told(v, trouble("reannounce"@, why@)),
            Ok(_) => told(v, "reannounce submitted for torrent "@ + decimal(index as int)),
        },
        PurposeView::Magnet => match answer {
            Ok(Response::Magnet(uri)) => if uri@.len() > 0 {
                told(v, "magnet: "@ + uri@)
            } else {
                told(v, "magnet not ready (metadata still downloading?)"@)
            },
            Ok(Response::Failed(why)) => told(v, trouble("magnet"@, why@)),
            Ok(_) => told(v, "unexpected response to magnet request"@),
            Err(why) => told(v, trouble("magnet"@, why@)),
        },
        PurposeView::RemoveTracker(url) => match answer {
            Ok(Response::Done) => MainView {
                detail_due: true,
                ..told(v, "removed tracker: "@ + url)
            },
            Ok(Response::Failed(why)) => told(v, trouble("remove tracker"@, why@)),
            Ok(_) => told(v, "unexpected response"@),
            Err(why) => told(v, trouble("remove tracker"@, why@)),
        },
        PurposeView::Sequential(index) => match answer {
            Ok(Response::Done) => told(v, "sequential ON for torrent "@ + decimal(index as int)),
            Ok(Response::Failed(why)) => told(v, trouble("sequential"@, why@)),
            Ok(_) => told(v, "unexpected response"@),
            Err(why) => told(v, trouble("sequential"@, why@)),
        },
        PurposeView::Delete => match answer {
            Ok(Response::Done) => v,
            Ok(Response::Failed(why)) => told(v, trouble("delete"@, why@)),
            Ok(_) => told(v, "unexpected response to delete"@),
            Err(why) => told(v, trouble("delete"@, why@)),
        },
        PurposeView::Priority(priority, count) => MainView {
            detail_due: true,
            ..match answer {
                Ok(Response::Done) => told(
                    v,
                    "priority "@ + decimal(priority as int) + " set on "@ + decimal(count as int)
                        + " file(s)"@,
                ),
                Ok(Response::Failed(why)) => told(v, trouble("priority"@, why@)),
                Ok(_) => told(v, "unexpected response to batch priority"@),
                Err(why) => told(v, trouble("priority"@, why@)),
            }
        },
    }
}

/// The selection in a list that has changed: it stays where it can, and an empty selection
/// becomes the first row.
pub open spec fn reselected(selection: Selection, length: int) -> Selection {
    match selection.selected {
        Some(_) => selection.with(kept(selection.selected, length)),
        None => if length > 0 {
            selection.with(Some(0))
        } else {
            selection
        },
    }
}

/// The view after the daemon has listed its torrents, or has not.
pub open spec fn after_list(v: MainView, answer: Result<Response, String>) -> MainView {
    match answer {
        Ok(Response::TorrentList(list)) => MainView {
            torrents: list@,
            unreachable: false,
            error: None,
            list: reselected(v.list, shown(v.filters, list@).len() as int),
            ..v
        },
        Ok(Response::Failed(why)) => told(v, why@),
        Ok(_) => told(v, "unexpected response from daemon"@),
        Err(why) => MainView { unreachable: true, ..told(v, trouble("daemon"@, why@)) },
    }
}

/// The view after the daemon has told its totals, or has not.
pub open spec fn after_stats(v: MainView, answer: Result<Response, String>) -> MainView {
    match answer {
        Ok(Response::Stats(stats)) => MainView { stats: Some(stats), ..v },
        Ok(_) => v,
        Err(_) => MainView { stats: None, ..v },
    }
}

/// The names of the categories.
pub open spec fn category_names(list: Seq<CategoryInfo>) -> Seq<Seq<char>> {
    list.map_values(|c: CategoryInfo| c.name@)
}

/// The view after the daemon has listed its categories, or has not.
pub open spec fn after_categories(v: MainView, answer: Result<Response, String>) -> MainView {
    match answer {
        Ok(Response::Categories(list)) => MainView {
            categories: sorted(category_names(list@)),
            ..v
        },
        _ => v,
    }
}

/// Refused or failed, for the status line.
fn write_trouble(what: &str, why: &str) -> (r: String)
    ensures
        r@ == trouble(what@, why@),
{
    concat3(what, ": ", why)
}

/// What the status line says of an answer that should be no more than done.
fn outcome_text(what: &str, other: &str, answer: &Result<Response, String>) -> (r: Option<String>)
    ensures
        r is None <==> (answer matches Ok(Response::Done)),
        r matches Some(text) ==> text@ == (match *answer {
            Ok(Response::Failed(why)) => trouble(what@, why@),
            Ok(_) => other@,
            Err(why) => trouble(what@, why@),
        }),
{
    match answer {
        Ok(Response::Done) => None,
        Ok(Response::Failed(why)) => Some(write_trouble(what, why.as_str())),
        Ok(_) => Some(other.to_owned()),
        Err(why) => Some(write_trouble(what, why.as_str())),
    }
}

impl MainState {
    /// Takes up an answer to a request of the main view.
    pub fn take_reply(&mut self, purpose: &Purpose, answer: &Result<Response, String>)
        requires
            old(self).wf(),
        ensures
            final(self).wf(),
            final(self)@ == after_reply(old(self)@, purpose@, *answer),
    {
        match purpose {
            Purpose::Pause => match answer {
                Err(why) => self.tell(write_trouble("pause/resume", why.as_str())),
                Ok(_) => {
                    self.list_due = true;
                },
            },
            Purpose::Recheck { index } => match answer {
                Err(why) => self.tell(write_trouble("recheck", why.as_str())),
                Ok(_) => {
                    let number = decimal_u64(*index as u64);
                    self.tell(concat2("recheck submitted for torrent ", number.as_str()));
                },
            },
            Purpose::Reannounce { index } => match answer {
                Err(why) => self.tell(write_trouble("reannounce", why.as_str())),
                Ok(_) => {
                    let number = decimal_u64(*index as u64);
                    self.tell(concat2("reannounce submitted for torrent ", number.as_str()));
                },
            },
            Purpose::Magnet => {
                let text = match answer {
                    Ok(Response::Magnet(uri)) => if is_empty(uri.as_str()) {
                        "magnet not ready (metadata still downloading?)".to_owned()
                    } else {
                        concat2("magnet: ", uri.as_str())
                    },
                    Ok(Response::Failed(why)) => write_trouble("magnet", why.as_str()),
                    Ok(_) => "unexpected response to magnet request".to_owned(),
                    Err(why) => write_trouble("magnet", why.as_str()),
                };
                self.tell(text);
            },
            Purpose::RemoveTracker { url } => {
                match outcome_text("remove tracker", "unexpected response", answer) {
                    Some(text) => self.tell(text),
                    None => {
                        self.detail_due = true;
                        self.tell(concat2("removed tracker: ", url.as_str()));
                    },
                }
            },
            Purpose::Sequential { index } => {
                match outcome_text("sequential", "unexpected response", answer) {
                    Some(text) => self.tell(text),
                    None => {
                        let number = decimal_u64(*index as u64);
                        self.tell(concat2("sequential ON for torrent ", number.as_str()));
                    },
                }
            },
            Purpose::Delete => {
                if let Some(text) = outcome_text("delete", "unexpected response to delete", answer) {
                    self.tell(text);
                }
            },
            Purpose::Priority { priority, count } => {
                self.detail_due = true;
                match outcome_text("priority", "unexpected response to batch priority", answer) {
                    Some(text) => self.tell(text),
                    None => {
                        let level = decimal_u64(*priority as u64);
                        let files = decimal_u64(*count as u64);
                        let head = concat4("priority ", level.as_str(), " set on ", files.as_str());
                        self.tell(concat2(head.as_str(), " file(s)"));
                    },
                }
            },
        }
    }

    /// Notes that the torrents are asked for.
    pub fn poll_daemon(&mut self) -> (r: Request)
        requires
            old(self).wf(),
        ensures
            final(self).wf(),
            final(self)@ == (MainView { list_due: false, ..old(self)@ }),
            r == Request::List,
    {
        self.list_due = false;
        Request::List
    }

    /// Takes up the daemon's list of torrents.
    pub fn take_list(&mut self, answer: Result<Response, String>)
        requires
            old(self).wf(),
        ensures
            final(self).wf(),
            final(self)@ == after_list(old(self)@, answer),
    {
        match answer {
            Ok(Response::TorrentList(list)) => {
                self.torrents = list;
                self.daemon_unreachable = false;
                self.error = None;
                let count: usize = self.filters.filtered_indices(&self.torrents).len();
                if self.list.selected.is_some() {
                    self.list.keep_within(count);
                } else if count > 0 {
                    self.list.select(Some(0));
                }
            },
            Ok(Response::Failed(why)) => self.tell(why),
            Ok(_) => self.tell("unexpected response from daemon".to_owned()),
            Err(why) => {
                self.daemon_unreachable = true;
                self.tell(write_trouble("daemon", why.as_str()));
            },
        }
    }

    /// Takes up the daemon's totals.
    pub fn take_stats(&mut self, answer: Result<Response, String>)
        requires
            old(self).wf(),
        ensures
            final(self).wf(),
            final(self)@ == after_stats(old(self)@, answer),
    {
        match answer {
            Ok(Response::Stats(stats)) => {
                self.stats = Some(stats);
            },
            Ok(_) => {},
            Err(_) => {
                self.stats = None;
            },
        }
    }

    /// Takes up the daemon's categories.
    pub fn take_categories(&mut self, answer: &Result<Response, String>)
        requires
            old(self).wf(),
        ensures
            final(self).wf(),
            final(self)@ == after_categories(old(self)@, *answer),
    {
        if let Ok(Response::Categories(list)) = answer {
            let mut names: Vec<String> = Vec::new();
            let mut i: usize = 0;
            while i < list.len()
                invariant
                    i <= list@.len(),
                    names@.len() == i,
                    forall|j: int| 0 <= j < i ==> (#[trigger] names@[j])@ == list@[j].name@,
                decreases list@.len() - i,
            {
                names.push(list[i].name.clone());
                i = i + 1;
            }
            assert(texts(names@) =~= category_names(list@));
            self.sidebar_categories = sort_texts(&names);
        }
    }

    /// Notes that the detail is asked for; tells what is asked of the daemon. With no torrent
    /// selected the detail is forgotten.
    pub fn poll_detail(&mut self) -> (r: Option<Request>)
        requires
            old(self).wf(),
        ensures
            final(self).wf(),
            match selected_torrent(old(self)@) {
                Some(index) => {
                    &&& r == Some(Request::Info { index })
                    &&& final(self)@ == (MainView { detail_due: false, ..old(self)@ })
                },
                None => {
                    &&& r is None
                    &&& final(self)@ == (MainView {
                        detail_due: false,
                        files: FilesView {
                            detail: None,
                            done: Seq::empty(),
                            ..old(self)@.files
                        },
                        ..old(self)@
                    })
                },
            },
    {
        self.detail_due = false;
        match self.selected_torrent_index() {
            Some(index) => Some(Request::Info { index }),
            None => {
                self.files.clear();
                None
            },
        }
    }

    /// Takes up the detail of the selected torrent; `done` is how many bytes of each file are
    /// there.
    pub fn take_detail(&mut self, detail: TorrentDetail, done: Vec<i64>)
        requires
            old(self).wf(),
            done@.len() == detail.files@.len(),
        ensures
            final(self).wf(),
            final(self)@ == (MainView {
                files: FilesView { detail: Some(detail), done: done@, ..old(self)@.files },
                ..old(self)@
            }),
    {
        self.files.load(detail, done);
    }
}

/// Whatever list of torrents arrives, the selection is inside what is shown of it.
pub proof fn law_list_selection_stays_inside(v: MainView, list: Vec<TorrentInfo>)
    ensures
        ({
            let after = after_list(v, Ok(Response::TorrentList(list)));
            let rows = shown(after.filters, after.torrents);
            &&& after.list.selected is None <==> rows.len() == 0
            &&& after.list.selected matches Some(row) ==> row < rows.len()
        }),
{
    let rows = shown(v.filters, list@);
    assert(list@.len() == list.len());
    lemma_shown_fits(v, list@, list@.len() as int);
}

/// What is shown is no longer than the list.
proof fn lemma_shown_fits(v: MainView, torrents: Seq<TorrentInfo>, n: int)
    requires
        0 <= n,
    ensures
        crate::tui::filters::passing(v.filters, torrents, n).len() <= n,
    decreases n,
{
    if n > 0 {
        lemma_shown_fits(v, torrents, n - 1);
    }
}

} // verus!
