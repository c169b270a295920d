//! The page of feeds.

use crate::ipc::{FeedInfo, Request, Response};
use crate::text::{
    concat2, concat3, decimal, decimal_u64, is_empty, join, join_with, opt_text, texts,
};
use crate::tui::keys::{Code, Key};
use crate::tui::selection::{moved, Selection};
use vstd::prelude::*;

verus! {

/// The page of feeds.
#[derive(Clone, Debug, PartialEq, Eq)]
pub struct FeedsState {
    pub feeds: Vec<FeedInfo>,
    pub selection: Selection,
    /// what became of the last action
    pub status: Option<String>,
    /// whether the feeds are to be asked for at once
    pub poll_now: bool,
}

/// The page as plain values.
pub struct FeedsView {
    pub feeds: Seq<FeedInfo>,
    pub selection: Selection,
    pub status: Option<Seq<char>>,
    pub poll_now: bool,
}

impl View for FeedsState {
    type V = FeedsView;

    open spec fn view(&self) -> FeedsView {
        FeedsView {
            feeds: self.feeds@,
            selection: self.selection,
            status: opt_text(self.status),
            poll_now: self.poll_now,
        }
    }
}

/// What a key leads to.
#[derive(Clone, Debug, PartialEq, Eq)]
pub enum FeedsOutcome {
    Stay,
    /// end the program
    Quit,
    /// back to the main view
    Close,
    /// ask for the address of a feed
    AskAddress,
    /// remove a feed
    Remove { index: usize },
    /// fetch all feeds
    Poll,
}

/// The page as it opens.
pub open spec fn feeds_opened() -> FeedsView {
    FeedsView {
        feeds: Seq::empty(),
        selection: Selection { selected: Some(0), offset: 0 },
        status: None,
        poll_now: true,
    }
}

/// The page after moving the selection.
pub open spec fn feeds_moved(v: FeedsView, delta: int) -> FeedsView {
    FeedsView {
        selection: v.selection.with(moved(v.selection.selected, v.feeds.len() as int, delta)),
        ..v
    }
}

/// The page after a key, and what it leads to.
pub open spec fn after_feeds_key(v: FeedsView, key: Key) -> (FeedsView, FeedsOutcome) {
    if key.is_quit() {
        (v, FeedsOutcome::Quit)
    } else if key.code == Code::Esc || key.is('q') {
        (v, FeedsOutcome::Close)
    } else if key.is_down() {
        (feeds_moved(v, 1), FeedsOutcome::Stay)
    } else if key.is_up() {
        (feeds_moved(v, -1), FeedsOutcome::Stay)
    } else if key.code == Code::PageDown {
        (feeds_moved(v, 10), FeedsOutcome::Stay)
    } else if key.code == Code::PageUp {
        (feeds_moved(v, -10), FeedsOutcome::Stay)
    } else if key.is('n') {
        (v, FeedsOutcome::AskAddress)
    } else if key.code == Code::Delete || key.is('x') {
        match v.selection.selected {
            Some(index) => (v, FeedsOutcome::Remove { index }),
            None => (v, FeedsOutcome::Stay),
        }
    } else if key.is('p') {
        (v, FeedsOutcome::Poll)
    } else {
        (v, FeedsOutcome::Stay)
    }
}

/// The page after the daemon has listed its feeds.
pub open spec fn feeds_listed(v: FeedsView, list: Seq<FeedInfo>) -> FeedsView {
    let selected = match v.selection.selected {
        Some(row) => row as int,
        None => 0,
    };
    FeedsView {
        feeds: list,
        selection: v.selection.with(
            if list.len() == 0 {
                None
            } else if selected < list.len() {
                Some(selected as usize)
            } else {
                Some((list.len() - 1) as usize)
            },
        ),
        ..v
    }
}

/// The page after the daemon has answered the removal of a feed.
pub open spec fn feed_removed(v: FeedsView, index: usize, answer: Result<Response, String>) -> FeedsView {
    match answer {
        Ok(Response::Done) => FeedsView {
            poll_now: true,
            status: Some("feed "@ + decimal(index as int) + " removed"@),
            ..v
        },
        Ok(Response::Failed(why)) => FeedsView { status: Some("error: "@ + why@), ..v },
        _ => v,
    }
}

/// The page after the daemon has answered the wish to fetch all feeds.
pub open spec fn feeds_polled(v: FeedsView, answer: Result<Response, String>) -> FeedsView {
    match answer {
        Ok(Response::Done) => FeedsView { status: Some("poll triggered"@), ..v },
        _ => v,
    }
}

impl FeedsOutcome {
    /// What is asked of the daemon.
    pub fn request(&self) -> (r: Option<Request>)
        ensures
            r is Some <==> (self is Remove || self is Poll),
            match *self {
                FeedsOutcome::Remove { index } => r == Some(Request::RemoveFeed { index }),
                FeedsOutcome::Poll => r == Some(Request::PollFeeds),
                _ => true,
            },
    {
        match self {
            FeedsOutcome::Remove { index } => Some(Request::RemoveFeed { index: *index }),
            FeedsOutcome::Poll => Some(Request::PollFeeds),
            _ => None,
        }
    }
}

impl FeedsState {
    /// The page as it opens.
    pub fn new() -> (r: FeedsState)
        ensures
            r@ == feeds_opened(),
    {
        let r = FeedsState {
            feeds: Vec::new(),
            selection: Selection::first(),
            status: None,
            poll_now: true,
        };
        assert(r@.feeds =~= Seq::<FeedInfo>::empty());
        r
    }

    /// The selected row.
    pub fn selected(&self) -> (r: Option<usize>)
        ensures
            r == self@.selection.selected,
    {
        self.selection.selected
    }

    /// Moves the selection.
    pub fn move_selection(&mut self, delta: isize)
        ensures
            final(self)@ == feeds_moved(old(self)@, delta as int),
    {
        let count: usize = self.feeds.len();
        self.selection.move_by(count, delta);
    }

    /// A key on the page.
    pub fn handle_feeds_key(&mut self, key: Key) -> (out: FeedsOutcome)
        ensures
            (final(self)@, out) == after_feeds_key(old(self)@, key),
    {
        if key.quits() {
            return FeedsOutcome::Quit;
        }
        if key.code == Code::Esc || key.plain('q') {
            return FeedsOutcome::Close;
        }
        if key.goes_down() {
            self.move_selection(1);
        } else if key.goes_up() {
            self.move_selection(-1);
        } else if key.code == Code::PageDown {
            self.move_selection(10);
        } else if key.code == Code::PageUp {
            self.move_selection(-10);
        } else if key.plain('n') {
            return FeedsOutcome::AskAddress;
        } else if key.code == Code::Delete || key.plain('x') {
            if let Some(index) = self.selection.selected {
                return FeedsOutcome::Remove { index };
            }
        } else if key.plain('p') {
            return FeedsOutcome::Poll;
        }
        FeedsOutcome::Stay
    }

    /// Notes that the feeds are asked for; tells what is asked of the daemon.
    pub fn poll_feeds_page(&mut self) -> (r: Request)
        ensures
            final(self)@ == (FeedsView { poll_now: false, ..old(self)@ }),
            r == Request::ListFeeds,
    {
        self.poll_now = false;
        Request::ListFeeds
    }

    /// Takes up the daemon's list of feeds; another answer changes nothing.
    pub fn take_feeds(&mut self, answer: Result<Response, String>)
        ensures
            final(self)@ == (match answer {
                Ok(Response::Feeds(list)) => feeds_listed(old(self)@, list@),
                _ => old(self)@,
            }),
    {
        if let Ok(Response::Feeds(list)) = answer {
            let selected: usize = match self.selection.selected {
                Some(row) => row,
                None => 0,
            };
            let count: usize = list.len();
            self.feeds = list;
            if count == 0 {
                self.selection.select(None);
            } else if selected < count {
                self.selection.select(Some(selected));
            } else {
                self.selection.select(Some(count - 1));
            }
        }
    }

    /// Notes what became of the removal of a feed.
    pub fn settle_removal(&mut self, index: usize, answer: &Result<Response, String>)
        ensures
            final(self)@ == feed_removed(old(self)@, index, *answer),
    {
        match answer {
            Ok(Response::Done) => {
                let number = decimal_u64(index as u64);
                self.poll_now = true;
                self.status = Some(concat3("feed ", number.as_str(), " removed"));
            },
            Ok(Response::Failed(why)) => {
                self.status = Some(concat2("error: ", why.as_str()));
            },
            _ => {},
        }
    }

    /// Notes what became of the wish to fetch all feeds.
    pub fn settle_poll(&mut self, answer: &Result<Response, String>)
        ensures
            final(self)@ == feeds_polled(old(self)@, *answer),
    {
        if let Ok(Response::Done) = answer {
            self.status = Some("poll triggered".to_owned());
        }
    }

    /// Notes that a feed was added.
    pub fn feed_added(&mut self)
        ensures
            final(self)@ == (FeedsView {
                poll_now: true,
                status: Some("feed added"@),
                ..old(self)@
            }),
    {
        self.poll_now = true;
        self.status = Some("feed added".to_owned());
    }
}

// ----- what is drawn -----

/// The row of a feed: its number, interval, filter and address.
pub open spec fn feed_cells(f: FeedInfo) -> Seq<Seq<char>> {
    seq![
        decimal(f.index as int),
        decimal(f.poll_interval_minutes as int) + "min"@,
        if f.filter@.len() == 0 {
            "(any)"@
        } else {
            f.filter@
        },
        f.url@,
    ]
}

/// The row of a feed.
pub fn feed_row(feed: &FeedInfo) -> (r: Vec<String>)
    ensures
        texts(r@) == feed_cells(*feed),
{
    let interval = decimal_u64(feed.poll_interval_minutes);
    let mut out: Vec<String> = Vec::new();
    out.push(decimal_u64(feed.index as u64));
    out.push(concat2(interval.as_str(), "min"));
    out.push(
        if is_empty(feed.filter.as_str()) {
            "(any)".to_owned()
        } else {
            feed.filter.clone()
        },
    );
    out.push(feed.url.clone());
    assert(texts(out@) =~= feed_cells(*feed));
    out
}

/// What there is to say of a feed besides its row.
pub open spec fn feed_parts(f: FeedInfo) -> Seq<Seq<char>> {
    (match f.category {
        Some(c) => seq!["category: "@ + c@],
        None => Seq::empty(),
    }) + (match f.save_path {
        Some(p) => seq!["save path: "@ + p@],
        None => Seq::empty(),
    }) + (if f.start_paused {
        seq!["start paused"@]
    } else {
        Seq::empty()
    })
}

/// The line below the list.
pub open spec fn feed_detail(f: FeedInfo) -> Seq<char> {
    if feed_parts(f).len() == 0 {
        Seq::empty()
    } else {
        "  "@ + join(feed_parts(f), "  \u{b7}  "@)
    }
}

/// The line below the list, for the selected feed.
pub open spec fn detail_of(v: FeedsView) -> Seq<char> {
    match v.selection.selected {
        Some(i) if i < v.feeds.len() => feed_detail(v.feeds[i as int]),
        _ => Seq::empty(),
    }
}

impl FeedsState {
    /// The line below the list.
    pub fn detail_line(&self) -> (r: String)
        ensures
            r@ == detail_of(self@),
    {
        let empty = String::new();
        assert(empty@ =~= Seq::<char>::empty());
        let i: usize = match self.selection.selected {
            Some(i) => i,
            None => {
                return empty;
            },
        };
        if i >= self.feeds.len() {
            return empty;
        }
        let feed = &self.feeds[i];
        let mut parts: Vec<String> = Vec::new();
        if let Some(category) = &feed.category {
            parts.push(concat2("category: ", category.as_str()));
        }
        if let Some(path) = &feed.save_path {
            parts.push(concat2("save path: ", path.as_str()));
        }
        if feed.start_paused {
            parts.push("start paused".to_owned());
        }
        assert(texts(parts@) =~= feed_parts(*feed));
        if parts.len() == 0 {
            return empty;
        }
        let all = join_with(&parts, "  \u{b7}  ");
        concat2("  ", all.as_str())
    }
}

/// A list of feeds leaves a row selected that there is, and none where there is no feed.
pub proof fn law_feed_selection_stays_inside(v: FeedsView, list: Seq<FeedInfo>)
    requires
        list.len() <= usize::MAX,
    ensures
        feeds_listed(v, list).selection.selected is None <==> list.len() == 0,
        feeds_listed(v, list).selection.selected matches Some(row) ==> row < list.len(),
{
}

} // verus!
