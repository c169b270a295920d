//! Which torrents the list shows.

use crate::ipc::TorrentInfo;
use crate::listing::is_error;
use crate::names::{lemma_ordered_unique, list_contains, ordered, NameSet};
use crate::text::{
    contains, decimal, decimal_u64, is_empty, lowercase, occurs, occurs_at, opt_text, same, texts,
};
use vstd::prelude::*;

verus! {

/// A kind of torrents by what they are doing.
#[derive(Clone, Copy, Debug, PartialEq, Eq, Structural)]
pub enum StatusFilter {
    All,
    Downloading,
    Seeding,
    Completed,
    Paused,
    Checking,
    Errored,
}

impl StatusFilter {
    /// All kinds, in the order in which they are listed.
    pub open spec fn all() -> Seq<StatusFilter> {
        seq![
            StatusFilter::All,
            StatusFilter::Downloading,
            StatusFilter::Seeding,
            StatusFilter::Completed,
            StatusFilter::Paused,
            StatusFilter::Checking,
            StatusFilter::Errored,
        ]
    }

    /// The label of the kind.
    pub open spec fn label_text(self) -> Seq<char> {
        match self {
            StatusFilter::All => "all"@,
            StatusFilter::Downloading => "downloading"@,
            StatusFilter::Seeding => "seeding"@,
            StatusFilter::Completed => "completed"@,
            StatusFilter::Paused => "paused"@,
            StatusFilter::Checking => "checking"@,
            StatusFilter::Errored => "errored"@,
        }
    }

    /// The label of the kind.
    pub fn label(self) -> (r: &'static str)
        ensures
            r@ == self.label_text(),
    {
        match self {
            StatusFilter::All => "all",
            StatusFilter::Downloading => "downloading",
            StatusFilter::Seeding => "seeding",
            StatusFilter::Completed => "completed",
            StatusFilter::Paused => "paused",
            StatusFilter::Checking => "checking",
            StatusFilter::Errored => "errored",
        }
    }

    /// The torrent is of the kind.
    pub open spec fn admits(self, t: TorrentInfo) -> bool {
        match self {
            StatusFilter::All => true,
            StatusFilter::Downloading => !t.is_paused && t.state@ == "downloading"@,
            StatusFilter::Seeding => !t.is_paused && t.is_seeding,
            StatusFilter::Completed => t.is_finished && !t.is_paused,
            StatusFilter::Paused => t.is_paused,
            StatusFilter::Checking => t.state@ == "checking_files"@ || t.state@
                == "checking_resume_data"@,
            StatusFilter::Errored => is_error(t.error@),
        }
    }

    /// Whether the torrent is of the kind.
    pub fn matches(self, torrent: &TorrentInfo) -> (r: bool)
        ensures
            r == self.admits(*torrent),
    {
        match self {
            StatusFilter::All => true,
            StatusFilter::Downloading => !torrent.is_paused && same(
                torrent.state.as_str(),
                "downloading",
            ),
            StatusFilter::Seeding => !torrent.is_paused && torrent.is_seeding,
            StatusFilter::Completed => torrent.is_finished && !torrent.is_paused,
            StatusFilter::Paused => torrent.is_paused,
            StatusFilter::Checking => same(torrent.state.as_str(), "checking_files") || same(
                torrent.state.as_str(),
                "checking_resume_data",
            ),
            StatusFilter::Errored => !is_empty(torrent.error.as_str()) && !same(
                torrent.error.as_str(),
                "No error",
            ),
        }
    }
}

/// What the list is narrowed to.
#[derive(Clone, Debug, PartialEq, Eq)]
pub struct Filters {
    pub status: StatusFilter,
    /// a category; `Some(None)` stands for torrents without one
    pub category: Option<Option<String>>,
    pub tag: Option<String>,
    /// a part of the name
    pub name: String,
}

/// What the list is narrowed to, as plain values.
pub struct FiltersView {
    pub status: StatusFilter,
    pub category: Option<Option<Seq<char>>>,
    pub tag: Option<Seq<char>>,
    pub name: Seq<char>,
}

impl View for Filters {
    type V = FiltersView;

    open spec fn view(&self) -> FiltersView {
        FiltersView {
            status: self.status,
            category: match self.category {
                Some(inner) => Some(opt_text(inner)),
                None => None,
            },
            tag: opt_text(self.tag),
            name: self.name@,
        }
    }
}

/// The torrent passes all filters.
pub open spec fn passes(f: FiltersView, t: TorrentInfo) -> bool {
    &&& f.status.admits(t)
    &&& f.category matches Some(wanted) ==> opt_text(t.category) == wanted
    &&& f.tag matches Some(tag) ==> t.tags.has(tag)
    &&& lowercase(f.name).len() > 0 ==> occurs(lowercase(t.name@), lowercase(f.name))
}

/// The positions of the torrents that pass, among the first `n`.
pub open spec fn passing(f: FiltersView, torrents: Seq<TorrentInfo>, n: int) -> Seq<usize>
    decreases n,
{
    if n <= 0 {
        Seq::empty()
    } else if passes(f, torrents[n - 1]) {
        passing(f, torrents, n - 1).push((n - 1) as usize)
    } else {
        passing(f, torrents, n - 1)
    }
}

/// The positions of the torrents that the list shows.
pub open spec fn shown(f: FiltersView, torrents: Seq<TorrentInfo>) -> Seq<usize> {
    passing(f, torrents, torrents.len() as int)
}

/// Whether two optional texts are the same.
pub fn same_option(a: &Option<String>, b: &Option<String>) -> (r: bool)
    ensures
        r == (opt_text(*a) == opt_text(*b)),
{
    match (a, b) {
        (Some(x), Some(y)) => same(x.as_str(), y.as_str()),
        (None, None) => true,
        _ => false,
    }
}

impl Filters {
    /// Nothing is filtered.
    pub fn none() -> (r: Filters)
        ensures
            r@ == (FiltersView {
                status: StatusFilter::All,
                category: None,
                tag: None,
                name: Seq::empty(),
            }),
    {
        let r = Filters { status: StatusFilter::All, category: None, tag: None, name: String::new() };
        assert(r@.name =~= Seq::<char>::empty());
        r
    }

    /// The positions of the torrents that the list shows.
    pub fn filtered_indices(&self, torrents: &Vec<TorrentInfo>) -> (r: Vec<usize>)
        ensures
            r@ == shown(self@, torrents@),
            forall|k: int| 0 <= k < r@.len() ==> #[trigger] r@[k] < torrents@.len(),
    {
        let needle = self.name.as_str().to_lowercase();
        let mut out: Vec<usize> = Vec::new();
        let mut i: usize = 0;
        assert(out@ =~= Seq::<usize>::empty());
        while i < torrents.len()
            invariant
                i <= torrents@.len(),
                needle@ == lowercase(self.name@),
                out@ == passing(self@, torrents@, i as int),
                forall|k: int| 0 <= k < out@.len() ==> #[trigger] out@[k] < i,
            decreases torrents@.len() - i,
        {
            let t = &torrents[i];
            let in_category = match &self.category {
                None => true,
                Some(wanted) => same_option(&t.category, wanted),
            };
            let tagged = match &self.tag {
                None => true,
                Some(tag) => list_contains(&t.tags.items, tag.as_str()),
            };
            let named = if is_empty(needle.as_str()) {
                true
            } else {
                let own = t.name.as_str().to_lowercase();
                contains(own.as_str(), needle.as_str())
            };
            if self.status.matches(t) && in_category && tagged && named {
                out.push(i);
            }
            i = i + 1;
        }
        out
    }
}

/// The list shows exactly the torrents that pass, in order.
pub proof fn law_list_shows_what_passes(f: FiltersView, torrents: Seq<TorrentInfo>, n: int, i: int)
    requires
        0 <= i < n <= torrents.len() <= usize::MAX,
    ensures
        passing(f, torrents, n).contains(i as usize) <==> passes(f, torrents[i]),
    decreases n,
{
    let all = passing(f, torrents, n);
    let before = passing(f, torrents, n - 1);
    lemma_passing_below(f, torrents, n - 1);
    if i == n - 1 {
        if passes(f, torrents[i]) {
            assert(all[all.len() - 1] == i as usize);
        } else if all.contains(i as usize) {
            let k = all.index_of(i as usize);
            assert(before[k] < n - 1);
        }
    } else {
        law_list_shows_what_passes(f, torrents, n - 1, i);
        if before.contains(i as usize) {
            assert(all[before.index_of(i as usize)] == i as usize);
        }
        if all.contains(i as usize) {
            let k = all.index_of(i as usize);
            if k < before.len() {
                assert(before[k] == i as usize);
            }
        }
    }
}

/// Positions among the first `n` lie below `n`.
proof fn lemma_passing_below(f: FiltersView, torrents: Seq<TorrentInfo>, n: int)
    requires
        0 <= n <= torrents.len() <= usize::MAX,
    ensures
        forall|k: int| 0 <= k < passing(f, torrents, n).len() ==> #[trigger] passing(f, torrents, n)[k] < n,
    decreases n,
{
    if n > 0 {
        lemma_passing_below(f, torrents, n - 1);
        let before = passing(f, torrents, n - 1);
        let all = passing(f, torrents, n);
        assert forall|k: int| 0 <= k < all.len() implies #[trigger] all[k] < n by {
            if k < before.len() {
                assert(all[k] == before[k]);
            }
        }
    }
}

/// The torrents that a list shows, by their own fields: those of the wanted status, category and
/// tag whose names hold the wanted text, whatever its case. They come in the order of the list.
pub proof fn law_filters_show(f: FiltersView, torrents: Seq<TorrentInfo>, i: int)
    requires
        0 <= i < torrents.len() <= usize::MAX,
    ensures
        shown(f, torrents).contains(i as usize) <==> ({
            let t = torrents[i];
            &&& match f.status {
                StatusFilter::All => true,
                StatusFilter::Downloading => !t.is_paused && t.state@ == "downloading"@,
                StatusFilter::Seeding => !t.is_paused && t.is_seeding,
                StatusFilter::Completed => !t.is_paused && t.is_finished,
                StatusFilter::Paused => t.is_paused,
                StatusFilter::Checking => t.state@ == "checking_files"@ || t.state@
                    == "checking_resume_data"@,
                StatusFilter::Errored => t.error@.len() > 0 && t.error@ != "No error"@,
            }
            &&& match f.category {
                None => true,
                Some(None) => t.category is None,
                Some(Some(name)) => t.category is Some && t.category->0@ == name,
            }
            &&& f.tag is Some ==> t.tags.list().contains(f.tag->0)
            &&& lowercase(f.name).len() == 0 || exists|k: int|
                0 <= k <= lowercase(t.name@).len() - lowercase(f.name).len()
                    && #[trigger] lowercase(t.name@).subrange(
                    k,
                    k + lowercase(f.name).len() as int,
                ) == lowercase(f.name)
        }),
        forall|a: int, b: int|
            0 <= a < b < shown(f, torrents).len() ==> #[trigger] shown(f, torrents)[a]
                < #[trigger] shown(f, torrents)[b],
{
    let n = torrents.len() as int;
    law_list_shows_what_passes(f, torrents, n, i);
    lemma_passing_ascends(f, torrents, n);
    let hay = lowercase(torrents[i].name@);
    let needle = lowercase(f.name);
    if needle.len() > 0 && occurs(hay, needle) {
        let k = choose|k: int| #[trigger] occurs_at(hay, needle, k);
        assert(hay.subrange(k, k + needle.len() as int) == needle);
    }
    if exists|k: int|
        0 <= k <= hay.len() - needle.len() && #[trigger] hay.subrange(
            k,
            k + needle.len() as int,
        ) == needle {
        let k = choose|k: int|
            0 <= k <= hay.len() - needle.len() && #[trigger] hay.subrange(
                k,
                k + needle.len() as int,
            ) == needle;
        assert(occurs_at(hay, needle, k));
    }
}

/// The positions come in order.
proof fn lemma_passing_ascends(f: FiltersView, torrents: Seq<TorrentInfo>, n: int)
    requires
        0 <= n <= torrents.len() <= usize::MAX,
    ensures
        forall|a: int, b: int|
            0 <= a < b < passing(f, torrents, n).len() ==> #[trigger] passing(f, torrents, n)[a]
                < #[trigger] passing(f, torrents, n)[b],
    decreases n,
{
    if n > 0 {
        lemma_passing_ascends(f, torrents, n - 1);
        lemma_passing_below(f, torrents, n - 1);
        let before = passing(f, torrents, n - 1);
        let all = passing(f, torrents, n);
        assert forall|a: int, b: int| 0 <= a < b < all.len() implies #[trigger] all[a]
            < #[trigger] all[b] by {
            assert(all[a] == before[a]);
            if b < before.len() {
                assert(all[b] == before[b]);
            }
        }
    }
}

/// A torrent that is not paused and is downloading is shown as downloading, and never as paused;
/// one that is paused is shown as paused, and never as downloading, seeding or completed.
pub proof fn law_paused_torrents_are_only_paused(
    f: FiltersView,
    torrents: Seq<TorrentInfo>,
    i: int,
)
    requires
        0 <= i < torrents.len() <= usize::MAX,
        shown(f, torrents).contains(i as usize),
    ensures
        f.status == StatusFilter::Paused ==> torrents[i].is_paused,
        torrents[i].is_paused ==> f.status != StatusFilter::Downloading && f.status
            != StatusFilter::Seeding && f.status != StatusFilter::Completed,
{
    law_filters_show(f, torrents, i);
}

// ----- the sidebar -----

/// A row of the sidebar. Headings only separate.
#[derive(Clone, Debug, PartialEq, Eq)]
pub enum SidebarItem {
    StatusHeader,
    Status(StatusFilter),
    CategoryHeader,
    CategoryAll,
    CategoryUncategorized,
    Category(String),
    TagHeader,
    TagAll,
    Tag(String),
}

/// A row of the sidebar as plain values.
pub enum SidebarView {
    StatusHeader,
    Status(StatusFilter),
    CategoryHeader,
    CategoryAll,
    CategoryUncategorized,
    Category(Seq<char>),
    TagHeader,
    TagAll,
    Tag(Seq<char>),
}

impl View for SidebarItem {
    type V = SidebarView;

    open spec fn view(&self) -> SidebarView {
        match *self {
            SidebarItem::StatusHeader => SidebarView::StatusHeader,
            SidebarItem::Status(f) => SidebarView::Status(f),
            SidebarItem::CategoryHeader => SidebarView::CategoryHeader,
            SidebarItem::CategoryAll => SidebarView::CategoryAll,
            SidebarItem::CategoryUncategorized => SidebarView::CategoryUncategorized,
            SidebarItem::Category(name) => SidebarView::Category(name@),
            SidebarItem::TagHeader => SidebarView::TagHeader,
            SidebarItem::TagAll => SidebarView::TagAll,
            SidebarItem::Tag(name) => SidebarView::Tag(name@),
        }
    }
}

/// The rows as plain values.
pub open spec fn item_views(items: Seq<SidebarItem>) -> Seq<SidebarView> {
    items.map_values(|i: SidebarItem| i@)
}

/// One of the first `n` torrents is in no category.
pub open spec fn any_uncategorised(torrents: Seq<TorrentInfo>) -> bool {
    exists|i: int| 0 <= i < torrents.len() && (#[trigger] torrents[i]).category is None
}

/// One of the first `n` torrents has the tag.
pub open spec fn tag_in_use(torrents: Seq<TorrentInfo>, n: int, tag: Seq<char>) -> bool {
    exists|i: int| 0 <= i < n && (#[trigger] torrents[i]).tags.has(tag)
}

/// The tags in use, in order.
pub open spec fn are_tags(torrents: Seq<TorrentInfo>, tags: Seq<Seq<char>>) -> bool {
    &&& ordered(tags)
    &&& forall|t: Seq<char>| #[trigger]
        tags.contains(t) <==> tag_in_use(torrents, torrents.len() as int, t)
}

/// The rows of the sidebar for those categories and tags.
pub open spec fn sidebar_rows(
    categories: Seq<Seq<char>>,
    uncategorised: bool,
    tags: Seq<Seq<char>>,
) -> Seq<SidebarView> {
    seq![SidebarView::StatusHeader] + StatusFilter::all().map_values(
        |f: StatusFilter| SidebarView::Status(f),
    ) + seq![SidebarView::CategoryHeader, SidebarView::CategoryAll] + (if uncategorised {
        seq![SidebarView::CategoryUncategorized]
    } else {
        Seq::empty()
    }) + categories.map_values(|n: Seq<char>| SidebarView::Category(n)) + (if tags.len() > 0 {
        seq![SidebarView::TagHeader, SidebarView::TagAll] + tags.map_values(
            |t: Seq<char>| SidebarView::Tag(t),
        )
    } else {
        Seq::empty()
    })
}

/// The rows of the sidebar.
pub open spec fn is_sidebar(
    rows: Seq<SidebarView>,
    categories: Seq<Seq<char>>,
    torrents: Seq<TorrentInfo>,
) -> bool {
    exists|tags: Seq<Seq<char>>| #[trigger]
        are_tags(torrents, tags) && rows == sidebar_rows(
            categories,
            any_uncategorised(torrents),
            tags,
        )
}

/// The rows of the sidebar, of which there is one list.
pub open spec fn sidebar_of(categories: Seq<Seq<char>>, torrents: Seq<TorrentInfo>) -> Seq<
    SidebarView,
> {
    choose|rows: Seq<SidebarView>| is_sidebar(rows, categories, torrents)
}

/// The categories and torrents have one sidebar.
pub proof fn law_sidebar_is_determined(
    a: Seq<SidebarView>,
    b: Seq<SidebarView>,
    categories: Seq<Seq<char>>,
    torrents: Seq<TorrentInfo>,
)
    requires
        is_sidebar(a, categories, torrents),
        is_sidebar(b, categories, torrents),
    ensures
        a == b,
{
    let any = any_uncategorised(torrents);
    let ta = choose|tags: Seq<Seq<char>>| #[trigger]
        are_tags(torrents, tags) && a == sidebar_rows(categories, any, tags);
    let tb = choose|tags: Seq<Seq<char>>| #[trigger]
        are_tags(torrents, tags) && b == sidebar_rows(categories, any, tags);
    assert forall|k: Seq<char>| #[trigger] ta.contains(k) <==> tb.contains(k) by {
        assert(ta.contains(k) <==> tag_in_use(torrents, torrents.len() as int, k));
        assert(tb.contains(k) <==> tag_in_use(torrents, torrents.len() as int, k));
    }
    lemma_ordered_unique(ta, tb);
}

/// The tags in use.
fn tags_in_use(torrents: &Vec<TorrentInfo>) -> (r: NameSet)
    ensures
        r.wf(),
        are_tags(torrents@, r.list()),
{
    let mut tags = NameSet::new();
    let mut i: usize = 0;
    while i < torrents.len()
        invariant
            i <= torrents@.len(),
            tags.wf(),
            forall|t: Seq<char>| #[trigger] tags.has(t) <==> tag_in_use(torrents@, i as int, t),
        decreases torrents@.len() - i,
    {
        let ghost before = tags;
        tags.extend(&torrents[i].tags);
        proof {
            assert forall|t: Seq<char>| #[trigger]
                tags.has(t) <==> tag_in_use(torrents@, i + 1, t) by {
                assert(before.has(t) == tag_in_use(torrents@, i as int, t));
                if tag_in_use(torrents@, i as int, t) {
                    let k = choose|k: int| 0 <= k < i && (#[trigger] torrents@[k]).tags.has(t);
                    assert(torrents@[k].tags.has(t));
                }
                if torrents@[i as int].tags.has(t) {
                    assert(tag_in_use(torrents@, i + 1, t));
                }
            }
        }
        i = i + 1;
    }
    proof {
        assert forall|t: Seq<char>| #[trigger]
            tags.list().contains(t) <==> tag_in_use(torrents@, torrents@.len() as int, t) by {
            assert(tags.has(t) == tag_in_use(torrents@, torrents@.len() as int, t));
        }
    }
    tags
}

/// Whether a torrent is in no category.
fn some_uncategorised(torrents: &Vec<TorrentInfo>) -> (r: bool)
    ensures
        r == any_uncategorised(torrents@),
{
    let mut i: usize = 0;
    while i < torrents.len()
        invariant
            i <= torrents@.len(),
            forall|j: int| 0 <= j < i ==> (#[trigger] torrents@[j]).category is Some,
        decreases torrents@.len() - i,
    {
        if torrents[i].category.is_none() {
            return true;
        }
        i = i + 1;
    }
    false
}

/// The rows of the sidebar.
pub fn sidebar_items(categories: &Vec<String>, torrents: &Vec<TorrentInfo>) -> (r: Vec<SidebarItem>)
    ensures
        is_sidebar(item_views(r@), texts(categories@), torrents@),
        item_views(r@) == sidebar_of(texts(categories@), torrents@),
{
    let uncategorised = some_uncategorised(torrents);
    let tags = tags_in_use(torrents);
    let ghost names = texts(categories@);
    let ghost used = tags.list();
    let ghost all = sidebar_rows(names, uncategorised, used);
    let mut out: Vec<SidebarItem> = Vec::new();
    out.push(SidebarItem::StatusHeader);
    out.push(SidebarItem::Status(StatusFilter::All));
    out.push(SidebarItem::Status(StatusFilter::Downloading));
    out.push(SidebarItem::Status(StatusFilter::Seeding));
    out.push(SidebarItem::Status(StatusFilter::Completed));
    out.push(SidebarItem::Status(StatusFilter::Paused));
    out.push(SidebarItem::Status(StatusFilter::Checking));
    out.push(SidebarItem::Status(StatusFilter::Errored));
    out.push(SidebarItem::CategoryHeader);
    out.push(SidebarItem::CategoryAll);
    if uncategorised {
        out.push(SidebarItem::CategoryUncategorized);
    }
    let ghost head = item_views(out@);
    let mut i: usize = 0;
    assert(head =~= seq![SidebarView::StatusHeader] + StatusFilter::all().map_values(
        |f: StatusFilter| SidebarView::Status(f),
    ) + seq![SidebarView::CategoryHeader, SidebarView::CategoryAll] + (if uncategorised {
        seq![SidebarView::CategoryUncategorized]
    } else {
        Seq::empty()
    }));
    let ghost cats = names.map_values(|n: Seq<char>| SidebarView::Category(n));
    assert(item_views(out@) =~= head + cats.take(0));
    while i < categories.len()
        invariant
            i <= categories@.len(),
            names == texts(categories@),
            cats == names.map_values(|n: Seq<char>| SidebarView::Category(n)),
            item_views(out@) == head + cats.take(i as int),
        decreases categories@.len() - i,
    {
        let ghost before = out@;
        out.push(SidebarItem::Category(categories[i].clone()));
        proof {
            assert(item_views(out@) =~= item_views(before).push(cats[i as int]));
            assert(item_views(out@) =~= head + cats.take(i as int + 1));
        }
        i = i + 1;
    }
    assert(cats.take(cats.len() as int) =~= cats);
    if tags.items.len() > 0 {
        out.push(SidebarItem::TagHeader);
        out.push(SidebarItem::TagAll);
        let ghost marks = used.map_values(|t: Seq<char>| SidebarView::Tag(t));
        let ghost upto = item_views(out@);
        assert(upto =~= head + cats + seq![SidebarView::TagHeader, SidebarView::TagAll]);
        let mut k: usize = 0;
        assert(item_views(out@) =~= upto + marks.take(0));
        while k < tags.items.len()
            invariant
                k <= tags.items@.len(),
                used == texts(tags.items@),
                marks == used.map_values(|t: Seq<char>| SidebarView::Tag(t)),
                item_views(out@) == upto + marks.take(k as int),
            decreases tags.items@.len() - k,
        {
            let ghost before = out@;
            out.push(SidebarItem::Tag(tags.items[k].clone()));
            proof {
                assert(item_views(out@) =~= item_views(before).push(marks[k as int]));
                assert(item_views(out@) =~= upto + marks.take(k as int + 1));
            }
            k = k + 1;
        }
        assert(marks.take(marks.len() as int) =~= marks);
        assert(item_views(out@) =~= all);
    } else {
        assert(item_views(out@) =~= all);
    }
    assert(are_tags(torrents@, used));
    assert(is_sidebar(item_views(out@), names, torrents@));
    proof {
        law_sidebar_is_determined(item_views(out@), sidebar_of(names, torrents@), names, torrents@);
    }
    out
}

/// The filters after a row of the sidebar was chosen, and whether they have changed.
pub open spec fn after_choice(f: FiltersView, item: SidebarView) -> (FiltersView, bool) {
    match item {
        SidebarView::Status(status) => if status != f.status || f.category is Some {
            (FiltersView { status, category: None, ..f }, true)
        } else {
            (f, false)
        },
        SidebarView::CategoryAll => if f.category is Some {
            (FiltersView { category: None, ..f }, true)
        } else {
            (f, false)
        },
        SidebarView::CategoryUncategorized => if f.category != Some(None::<Seq<char>>) {
            (FiltersView { category: Some(None), ..f }, true)
        } else {
            (f, false)
        },
        SidebarView::Category(name) => if f.category != Some(Some(name)) {
            (FiltersView { category: Some(Some(name)), ..f }, true)
        } else {
            (f, false)
        },
        SidebarView::TagAll => if f.tag is Some {
            (FiltersView { tag: None, ..f }, true)
        } else {
            (f, false)
        },
        SidebarView::Tag(tag) => if f.tag != Some(tag) {
            (FiltersView { tag: Some(tag), ..f }, true)
        } else {
            (f, false)
        },
        _ => (f, false),
    }
}

impl Filters {
    /// The category is the one of that name.
    fn has_category(&self, name: &str) -> (r: bool)
        ensures
            r == (self@.category == Some(Some(name@))),
    {
        match &self.category {
            Some(Some(own)) => same(own.as_str(), name),
            _ => false,
        }
    }

    /// The tag is the one of that name.
    fn has_tag(&self, name: &str) -> (r: bool)
        ensures
            r == (self@.tag == Some(name@)),
    {
        match &self.tag {
            Some(own) => same(own.as_str(), name),
            None => false,
        }
    }

    /// The torrents without a category are wanted.
    fn wants_uncategorised(&self) -> (r: bool)
        ensures
            r == (self@.category == Some(None::<Seq<char>>)),
    {
        match &self.category {
            Some(None) => true,
            _ => false,
        }
    }

    /// Chooses a row of the sidebar; tells whether the filters have changed.
    pub fn choose_item(&mut self, item: &SidebarItem) -> (r: bool)
        ensures
            (final(self)@, r) == after_choice(old(self)@, item@),
    {
        match item {
            SidebarItem::Status(status) => {
                if *status != self.status || self.category.is_some() {
                    self.status = *status;
                    self.category = None;
                    return true;
                }
            },
            SidebarItem::CategoryAll => {
                if self.category.is_some() {
                    self.category = None;
                    return true;
                }
            },
            SidebarItem::CategoryUncategorized => {
                if !self.wants_uncategorised() {
                    self.category = Some(None);
                    return true;
                }
            },
            SidebarItem::Category(name) => {
                if !self.has_category(name.as_str()) {
                    self.category = Some(Some(name.clone()));
                    return true;
                }
            },
            SidebarItem::TagAll => {
                if self.tag.is_some() {
                    self.tag = None;
                    return true;
                }
            },
            SidebarItem::Tag(tag) => {
                if !self.has_tag(tag.as_str()) {
                    self.tag = Some(tag.clone());
                    return true;
                }
            },
            _ => {},
        }
        false
    }
}

/// Choosing a row of the sidebar narrows the list to what the row names and leaves the other
/// filters alone, but that a status is shown for all categories. Headings change nothing.
pub proof fn law_choosing_narrows_to_the_row(f: FiltersView, item: SidebarView)
    ensures
        ({
            let (g, changed) = after_choice(f, item);
            &&& g.name == f.name
            &&& changed == (g.status != f.status || g.category != f.category || g.tag != f.tag)
            &&& match item {
                SidebarView::Status(status) => g.status == status && g.category is None && g.tag
                    == f.tag,
                SidebarView::CategoryAll => g.category is None && g.status == f.status && g.tag
                    == f.tag,
                SidebarView::CategoryUncategorized => g.category is Some && g.category->0 is None
                    && g.status == f.status && g.tag == f.tag,
                SidebarView::Category(name) => g.category is Some && g.category->0 == Some(name)
                    && g.status == f.status && g.tag == f.tag,
                SidebarView::TagAll => g.tag is None && g.status == f.status && g.category
                    == f.category,
                SidebarView::Tag(tag) => g.tag == Some(tag) && g.status == f.status && g.category
                    == f.category,
                _ => !changed,
            }
        }),
{
}

/// The number beside a status, category or tag is the number of torrents that the list shows
/// when only that is wanted.
pub proof fn law_counts_are_what_the_list_shows(
    torrents: Seq<TorrentInfo>,
    status: StatusFilter,
    category: Option<Seq<char>>,
    tag: Seq<char>,
    n: int,
)
    requires
        0 <= n <= torrents.len(),
    ensures
        ({
            let all = FiltersView {
                status: StatusFilter::All,
                category: None,
                tag: None,
                name: Seq::empty(),
            };
            lowercase(Seq::<char>::empty()).len() == 0 ==> {
                &&& count_status(torrents, status, n) == passing(
                    FiltersView { status, ..all },
                    torrents,
                    n,
                ).len()
                &&& count_category(torrents, category, n) == passing(
                    FiltersView { category: Some(category), ..all },
                    torrents,
                    n,
                ).len()
                &&& count_tag(torrents, tag, n) == passing(
                    FiltersView { tag: Some(tag), ..all },
                    torrents,
                    n,
                ).len()
            }
        }),
    decreases n,
{
    if n > 0 {
        law_counts_are_what_the_list_shows(torrents, status, category, tag, n - 1);
    }
}

/// Choosing a row twice is choosing it once.
pub proof fn law_choosing_twice_changes_nothing_more(f: FiltersView, item: SidebarView)
    ensures
        after_choice(after_choice(f, item).0, item) == (after_choice(f, item).0, false),
{
}

// ----- how the sidebar is drawn -----

/// A row of the sidebar as it is drawn.
#[derive(Clone, Debug, PartialEq, Eq)]
pub struct SidebarLine {
    /// whether it is a heading
    pub heading: bool,
    /// whether it is marked as the active one
    pub active: bool,
    pub label: String,
    /// whether the label is drawn faint
    pub faint: bool,
    /// how many torrents it stands for, where that is shown
    pub count: Option<usize>,
}

/// How many of the first `n` torrents are of the kind.
pub open spec fn count_status(torrents: Seq<TorrentInfo>, status: StatusFilter, n: int) -> nat
    decreases n,
{
    if n <= 0 {
        0
    } else {
        count_status(torrents, status, n - 1) + (if status.admits(torrents[n - 1]) {
            1nat
        } else {
            0nat
        })
    }
}

/// How many of the first `n` torrents are in the category.
pub open spec fn count_category(torrents: Seq<TorrentInfo>, category: Option<Seq<char>>, n: int) -> nat
    decreases n,
{
    if n <= 0 {
        0
    } else {
        count_category(torrents, category, n - 1) + (if opt_text(torrents[n - 1].category)
            == category {
            1nat
        } else {
            0nat
        })
    }
}

/// How many of the first `n` torrents have the tag.
pub open spec fn count_tag(torrents: Seq<TorrentInfo>, tag: Seq<char>, n: int) -> nat
    decreases n,
{
    if n <= 0 {
        0
    } else {
        count_tag(torrents, tag, n - 1) + (if torrents[n - 1].tags.has(tag) {
            1nat
        } else {
            0nat
        })
    }
}

/// A heading of the sidebar as it is drawn.
pub open spec fn is_heading(line: SidebarLine, label: Seq<char>) -> bool {
    line.heading && !line.active && line.faint && line.label@ == label && line.count is None
}

/// A row of the sidebar as it is drawn.
pub open spec fn is_line(
    line: SidebarLine,
    item: SidebarView,
    f: FiltersView,
    torrents: Seq<TorrentInfo>,
) -> bool {
    let n = torrents.len() as int;
    match item {
        SidebarView::StatusHeader => is_heading(line, "  STATUS"@),
        SidebarView::CategoryHeader => is_heading(line, "  CATEGORIES"@),
        SidebarView::TagHeader => is_heading(line, "  TAGS"@),
        SidebarView::Status(status) => {
            &&& !line.heading && !line.faint
            &&& line.active == (status == f.status && f.category is None)
            &&& line.label@ == status.label_text()
            &&& line.count matches Some(c) && c == count_status(torrents, status, n)
        },
        SidebarView::CategoryAll => {
            &&& !line.heading && !line.faint
            &&& line.active == (f.category is None)
            &&& line.label@ == "all"@
            &&& line.count matches Some(c) && c == n
        },
        SidebarView::CategoryUncategorized => {
            &&& !line.heading && line.faint
            &&& line.active == (f.category == Some(None::<Seq<char>>))
            &&& line.label@ == "(none)"@
            &&& line.count matches Some(c) && c == count_category(torrents, None, n)
        },
        SidebarView::Category(name) => {
            &&& !line.heading && !line.faint
            &&& line.active == (f.category == Some(Some(name)))
            &&& line.label@ == name
            &&& line.count matches Some(c) && c == count_category(torrents, Some(name), n)
        },
        SidebarView::TagAll => {
            &&& !line.heading && !line.faint
            &&& line.active == (f.tag is None)
            &&& line.label@ == "all"@
            &&& line.count is None
        },
        SidebarView::Tag(tag) => {
            &&& !line.heading && !line.faint
            &&& line.active == (f.tag == Some(tag))
            &&& line.label@ == tag
            &&& line.count matches Some(c) && c == count_tag(torrents, tag, n)
        },
    }
}

/// How many torrents are of the kind.
fn number_of_status(torrents: &Vec<TorrentInfo>, status: StatusFilter) -> (r: usize)
    ensures
        r == count_status(torrents@, status, torrents@.len() as int),
{
    let mut count: usize = 0;
    let mut i: usize = 0;
    while i < torrents.len()
        invariant
            i <= torrents@.len(),
            count == count_status(torrents@, status, i as int),
            count <= i,
        decreases torrents@.len() - i,
    {
        if status.matches(&torrents[i]) {
            count = count + 1;
        }
        i = i + 1;
    }
    count
}

/// How many torrents are in the category.
fn number_of_category(torrents: &Vec<TorrentInfo>, category: &Option<String>) -> (r: usize)
    ensures
        r == count_category(torrents@, opt_text(*category), torrents@.len() as int),
{
    let mut count: usize = 0;
    let mut i: usize = 0;
    while i < torrents.len()
        invariant
            i <= torrents@.len(),
            count == count_category(torrents@, opt_text(*category), i as int),
            count <= i,
        decreases torrents@.len() - i,
    {
        if same_option(&torrents[i].category, category) {
            count = count + 1;
        }
        i = i + 1;
    }
    count
}

/// How many torrents have the tag.
fn number_of_tag(torrents: &Vec<TorrentInfo>, tag: &str) -> (r: usize)
    ensures
        r == count_tag(torrents@, tag@, torrents@.len() as int),
{
    let mut count: usize = 0;
    let mut i: usize = 0;
    while i < torrents.len()
        invariant
            i <= torrents@.len(),
            count == count_tag(torrents@, tag@, i as int),
            count <= i,
        decreases torrents@.len() - i,
    {
        if list_contains(&torrents[i].tags.items, tag) {
            count = count + 1;
        }
        i = i + 1;
    }
    count
}

/// A heading of the sidebar.
fn heading(label: &str) -> (r: SidebarLine)
    ensures
        is_heading(r, label@),
{
    SidebarLine { heading: true, active: false, label: label.to_owned(), faint: true, count: None }
}

/// A row of the sidebar as it is drawn.
pub fn sidebar_line(item: &SidebarItem, filters: &Filters, torrents: &Vec<TorrentInfo>) -> (r:
    SidebarLine)
    ensures
        is_line(r, item@, filters@, torrents@),
{
    match item {
        SidebarItem::StatusHeader => heading("  STATUS"),
        SidebarItem::CategoryHeader => heading("  CATEGORIES"),
        SidebarItem::TagHeader => heading("  TAGS"),
        SidebarItem::Status(status) => SidebarLine {
            heading: false,
            active: *status == filters.status && filters.category.is_none(),
            label: status.label().to_owned(),
            faint: false,
            count: Some(number_of_status(torrents, *status)),
        },
        SidebarItem::CategoryAll => SidebarLine {
            heading: false,
            active: filters.category.is_none(),
            label: "all".to_owned(),
            faint: false,
            count: Some(torrents.len()),
        },
        SidebarItem::CategoryUncategorized => SidebarLine {
            heading: false,
            active: filters.wants_uncategorised(),
            label: "(none)".to_owned(),
            faint: true,
            count: Some(number_of_category(torrents, &None)),
        },
        SidebarItem::Category(name) => SidebarLine {
            heading: false,
            active: filters.has_category(name.as_str()),
            label: name.clone(),
            faint: false,
            count: Some(number_of_category(torrents, &Some(name.clone()))),
        },
        SidebarItem::TagAll => SidebarLine {
            heading: false,
            active: filters.tag.is_none(),
            label: "all".to_owned(),
            faint: false,
            count: None,
        },
        SidebarItem::Tag(tag) => SidebarLine {
            heading: false,
            active: filters.has_tag(tag.as_str()),
            label: tag.clone(),
            faint: false,
            count: Some(number_of_tag(torrents, tag.as_str())),
        },
    }
}

/// The sidebar as it is drawn.
pub fn sidebar_lines(items: &Vec<SidebarItem>, filters: &Filters, torrents: &Vec<TorrentInfo>) -> (r:
    Vec<SidebarLine>)
    ensures
        r@.len() == items@.len(),
        forall|i: int|
            0 <= i < items@.len() ==> is_line(
                #[trigger] r@[i],
                items@[i]@,
                filters@,
                torrents@,
            ),
{
    let mut out: Vec<SidebarLine> = Vec::new();
    let mut i: usize = 0;
    while i < items.len()
        invariant
            i <= items@.len(),
            out@.len() == i,
            forall|j: int|
                0 <= j < i ==> is_line(#[trigger] out@[j], items@[j]@, filters@, torrents@),
        decreases items@.len() - i,
    {
        out.push(sidebar_line(&items[i], filters, torrents));
        i = i + 1;
    }
    out
}

// ----- the title of the list -----

/// What the list is narrowed to, in a word.
pub open spec fn filter_label(f: FiltersView) -> Seq<char> {
    match f.category {
        Some(None) => "(uncategorized)"@,
        Some(Some(name)) => name,
        None => f.status.label_text(),
    }
}

/// The title of the list of torrents.
pub open spec fn list_title_text(f: FiltersView, shown: int, unreachable_daemon: bool) -> Seq<char> {
    " torrents \u{2014} "@ + filter_label(f) + (if unreachable_daemon {
        " (daemon unreachable) "@
    } else if shown == 0 {
        " (none) "@
    } else {
        " ("@ + decimal(shown) + ") "@
    })
}

/// The title of the list of torrents.
pub fn list_title(filters: &Filters, shown: usize, daemon_unreachable: bool) -> (r: String)
    ensures
        r@ == list_title_text(filters@, shown as int, daemon_unreachable),
{
    let label = match &filters.category {
        Some(None) => "(uncategorized)",
        Some(Some(name)) => name.as_str(),
        None => filters.status.label(),
    };
    let number = decimal_u64(shown as u64);
    let count = crate::text::concat3(" (", number.as_str(), ") ");
    let tail = if daemon_unreachable {
        " (daemon unreachable) "
    } else if shown == 0 {
        " (none) "
    } else {
        count.as_str()
    };
    crate::text::concat3(" torrents \u{2014} ", label, tail)
}

} // verus!
