//! What the sidebar, the titles, the settings page and the lists of choices show.

use crate::cli::{interface_table, pairs_sorted};
use crate::display::{padded, rate_text};
use crate::ipc::{CategoryInfo, Response, StatsInfo, TorrentInfo};
use crate::order::{in_sequence, law_sorting_orders};
use crate::text::{decimal, has_prefix, has_suffix, lowercase};
use crate::tui::add_form::{form_title, FormView};
use crate::tui::app_state::{settings_stale, AppView, TopicView};
use crate::tui::cells::{
    bytes_fitting, dialog_name, limits_shown, limits_text, stats_text, status_text, text_bytes,
};
use crate::tui::feeds::{detail_of, feed_detail, FeedsView};
use crate::tui::filters::{
    after_choice, filter_label, is_line, list_title_text, shown, FiltersView, SidebarLine,
    SidebarView, StatusFilter,
};
use crate::tui::main_view::{selected_torrent, MainView};
use crate::tui::priority::{bar_of, onward_text, place_text, BarView, StepView};
use crate::tui::prompt::{add_prompt, body_rows, looks_like_source, ActionView};
use crate::tui::replies::{after_categories, category_names};
use crate::tui::schema::{is_list, key_text, kind_of, label_text, needs_restart, value_text};
use crate::tui::settings::{picker_items, picker_row, SettingsState, SettingsView};
use crate::tui::settings_lines::{
    bar_texts, count_text, entry_lines, hints_of, page_lines, setting_lines, shown_value, Hints,
    LineView,
};
use vstd::prelude::*;

verus! {

/// The text holds the other one.
pub open spec fn holds(text: Seq<char>, part: Seq<char>) -> bool {
    exists|a: Seq<char>, b: Seq<char>| text == #[trigger] (a + part + b)
}

/// What stands between two texts is held by the whole.
proof fn lemma_holds(text: Seq<char>, a: Seq<char>, part: Seq<char>, b: Seq<char>)
    requires
        text =~= a + part + b,
    ensures
        holds(text, part),
{
}

/// What a text holds it still holds with more behind it.
proof fn lemma_holds_on(text: Seq<char>, part: Seq<char>, more: Seq<char>)
    requires
        holds(text, part),
    ensures
        holds(text + more, part),
{
    let (a, b) = choose|a: Seq<char>, b: Seq<char>| text == #[trigger] (a + part + b);
    lemma_holds(text + more, a, part, b + more);
}

// ----- the sidebar and the title of the list -----

/// The row that was chosen is marked, and of the rows of a kind no other one is.
pub proof fn law_chosen_row_is_marked(
    line: SidebarLine,
    other_line: SidebarLine,
    item: SidebarView,
    other: SidebarView,
    f: FiltersView,
    torrents: Seq<TorrentInfo>,
)
    requires
        is_line(line, item, after_choice(f, item).0, torrents),
        is_line(other_line, other, after_choice(f, item).0, torrents),
        item != other,
    ensures
        item is StatusHeader || item is CategoryHeader || item is TagHeader ==> line.heading
            && !line.active,
        item is Status ==> line.active && (other is Status ==> !other_line.active),
        item is Category || item is CategoryAll || item is CategoryUncategorized ==> line.active
            && (other is Category || other is CategoryAll || other is CategoryUncategorized
            ==> !other_line.active),
        item is Tag || item is TagAll ==> line.active && (other is Tag || other is TagAll
            ==> !other_line.active),
{
}

/// A row of the sidebar tells how many torrents the list shows once it is chosen, where nothing
/// else narrows the list.
pub proof fn law_sidebar_counts_what_is_shown(
    line: SidebarLine,
    item: SidebarView,
    f: FiltersView,
    torrents: Seq<TorrentInfo>,
)
    requires
        is_line(line, item, f, torrents),
        torrents.len() <= usize::MAX,
        f.name.len() == 0 && lowercase(f.name).len() == 0,
    ensures
        item is Status && f.tag is None ==> (line.count matches Some(c) && c
            == shown(after_choice(f, item).0, torrents).len()),
        (item is Category || item is CategoryUncategorized) && f.tag is None && f.status
            == StatusFilter::All ==> (line.count matches Some(c) && c
            == shown(after_choice(f, item).0, torrents).len()),
        item is Tag && f.category is None && f.status == StatusFilter::All ==> (line.count matches Some(c) && c
            == shown(after_choice(f, item).0, torrents).len()),
{
    let status = if let SidebarView::Status(s) = item {
        s
    } else {
        StatusFilter::All
    };
    let category = if let SidebarView::Category(name) = item {
        Some(name)
    } else {
        None
    };
    let tag = if let SidebarView::Tag(t) = item {
        t
    } else {
        Seq::empty()
    };
    crate::tui::filters::law_counts_are_what_the_list_shows(torrents, status, category, tag, torrents.len() as int);
    assert(f.name =~= Seq::<char>::empty());
}

/// The title of the list names the category where one is chosen and the kind otherwise, and
/// tells how many torrents there are, that there are none, or that the daemon cannot be asked.
pub proof fn law_title_names_the_filter(f: FiltersView, n: int, name: Seq<char>)
    requires
        n > 0,
    ensures
        f.category is None ==> holds(list_title_text(f, n, false), f.status.label_text()),
        f.category == Some(Some(name)) ==> holds(list_title_text(f, n, false), name),
        f.category == Some(None::<Seq<char>>) ==> holds(
            list_title_text(f, n, false),
            "(uncategorized)"@,
        ),
        has_suffix(list_title_text(f, n, false), " ("@ + decimal(n) + ") "@),
        has_suffix(list_title_text(f, 0, false), " (none) "@),
        has_suffix(list_title_text(f, n, true), " (daemon unreachable) "@),
        has_suffix(list_title_text(f, 0, true), " (daemon unreachable) "@),
{
    let head = " torrents \u{2014} "@;
    let label = filter_label(f);
    let end = " ("@ + decimal(n) + ") "@;
    lemma_holds(list_title_text(f, n, false), head, label, end);
    lemma_ends(head + label, end);
    lemma_ends(head + label, " (none) "@);
    lemma_ends(head + label, " (daemon unreachable) "@);
}

/// A text that something is put behind ends with it.
proof fn lemma_ends(a: Seq<char>, b: Seq<char>)
    ensures
        has_suffix(a + b, b),
{
    let s = a + b;
    assert(s.subrange(s.len() - b.len(), s.len() as int) =~= b);
}

/// The line at the bottom tells each of the daemon's numbers by its name; without numbers it
/// tells what is wrong.
pub proof fn law_totals_are_shown_by_name(v: MainView, s: StatsInfo)
    ensures
        holds(stats_text(s), decimal(s.num_torrents as int) + " torrents"@),
        holds(stats_text(s), decimal(s.active_torrents as int) + " active"@),
        holds(stats_text(s), decimal(s.paused_torrents as int) + " paused"@),
        holds(stats_text(s), "dht "@ + decimal(s.total_dht_nodes as int)),
        holds(stats_text(s), "peers "@ + decimal(s.num_peers as int)),
        v.stats == Some(s) ==> status_text(v) == stats_text(s),
        v.stats is None && v.error is Some ==> holds(status_text(v), v.error->0),
        v.stats is None && v.error is None ==> status_text(v).len() == 0,
{
    let t = decimal(s.num_torrents as int);
    let a = decimal(s.active_torrents as int);
    let p = decimal(s.paused_torrents as int);
    let d = decimal(s.total_dht_nodes as int);
    let n = decimal(s.num_peers as int);
    let down = rate_text(s.download_rate);
    let up = rate_text(s.upload_rate);
    let s1 = " "@ + t + " torrents  "@;
    let s2 = s1 + a + " active  "@;
    let s3 = s2 + p + " paused  \u{2193} "@;
    let s4 = s3 + down + "  \u{2191} "@ + up + "  dht "@ + d;
    let s5 = s4 + "  peers "@ + n + " "@;
    assert(s5 == stats_text(s));
    assert(holds(s1, t + " torrents"@)) by {
        reveal_strlit(" torrents  ");
        reveal_strlit(" torrents");
        reveal_strlit("  ");
        assert(" torrents  "@ =~= " torrents"@ + "  "@);
        lemma_holds(s1, " "@, t + " torrents"@, "  "@);
    }
    assert(holds(s2, a + " active"@)) by {
        reveal_strlit(" active  ");
        reveal_strlit(" active");
        reveal_strlit("  ");
        assert(" active  "@ =~= " active"@ + "  "@);
        lemma_holds(s2, s1, a + " active"@, "  "@);
    }
    assert(holds(s3, p + " paused"@)) by {
        reveal_strlit(" paused  \u{2193} ");
        reveal_strlit(" paused");
        reveal_strlit("  \u{2193} ");
        assert(" paused  \u{2193} "@ =~= " paused"@ + "  \u{2193} "@);
        lemma_holds(s3, s2, p + " paused"@, "  \u{2193} "@);
    }
    assert(holds(s4, "dht "@ + d)) by {
        reveal_strlit("  dht ");
        reveal_strlit("dht ");
        reveal_strlit("  ");
        assert("  dht "@ =~= "  "@ + "dht "@);
        let before = s3 + down + "  \u{2191} "@ + up;
        lemma_holds(s4, before + "  "@, "dht "@ + d, Seq::empty());
    }
    assert(holds(s5, "peers "@ + n)) by {
        reveal_strlit("  peers ");
        reveal_strlit("peers ");
        reveal_strlit("  ");
        assert("  peers "@ =~= "  "@ + "peers "@);
        lemma_holds(s5, s4 + "  "@, "peers "@ + n, " "@);
    }
    let e3 = down + "  \u{2191} "@ + up + "  dht "@ + d;
    let e4 = "  peers "@ + n + " "@;
    assert(s2 =~= s1 + (a + " active  "@));
    assert(s3 =~= s2 + (p + " paused  \u{2193} "@));
    assert(s4 =~= s3 + e3);
    assert(s5 =~= s4 + e4);
    lemma_holds_on(s1, t + " torrents"@, a + " active  "@);
    lemma_holds_on(s2, t + " torrents"@, p + " paused  \u{2193} "@);
    lemma_holds_on(s2, a + " active"@, p + " paused  \u{2193} "@);
    lemma_holds_on(s3, t + " torrents"@, e3);
    lemma_holds_on(s3, a + " active"@, e3);
    lemma_holds_on(s3, p + " paused"@, e3);
    lemma_holds_on(s4, t + " torrents"@, e4);
    lemma_holds_on(s4, a + " active"@, e4);
    lemma_holds_on(s4, p + " paused"@, e4);
    lemma_holds_on(s4, "dht "@ + d, e4);
    if v.stats is None && v.error is Some {
        lemma_holds(status_text(v), " "@, v.error->0, " "@);
    }
}

/// The limits that are shown are those of the selected torrent.
pub proof fn law_limits_of_the_selected_are_shown(v: MainView, i: usize)
    ensures
        selected_torrent(v) == Some(i) ==> limits_shown(v) == limits_text(
            v.torrents[i as int].download_limit,
            v.torrents[i as int].upload_limit,
        ),
        selected_torrent(v) is None ==> limits_shown(v) is None,
{
}

/// The feed that is described is the selected one.
pub proof fn law_selected_feed_is_described(v: FeedsView, i: usize)
    ensures
        v.selection.selected == Some(i) && i < v.feeds.len() ==> detail_of(v) == feed_detail(
            v.feeds[i as int],
        ),
        v.selection.selected == Some(i) && i >= v.feeds.len() ==> detail_of(v).len() == 0,
        v.selection.selected is None ==> detail_of(v).len() == 0,
{
}

// ----- names in dialogs -----

/// A name in a dialog stays as it is where it fits; otherwise it begins as it did and no more of
/// it would fit before the dots.
pub proof fn law_long_names_are_cut(name: Seq<char>, width: int)
    requires
        width >= 3,
    ensures
        text_bytes(name) <= width - 2 ==> dialog_name(name, width) == name,
        text_bytes(name) > width - 2 ==> exists|n: int|
            0 <= n < name.len() && dialog_name(name, width) == #[trigger] name.take(n)
                + "\u{2026}"@ && text_bytes(name.take(n)) <= width - 3 && text_bytes(
                name.take(n + 1),
            ) > width - 3,
{
    if text_bytes(name) > width - 2 {
        let n = bytes_fitting(name, width - 3, name.len() as int);
        assert(name.take(name.len() as int) =~= name);
        lemma_bytes_fitting(name, width - 3, name.len() as int);
        assert(dialog_name(name, width) == name.take(n) + "\u{2026}"@);
    }
}

/// As much of a text as fits, and no more.
proof fn lemma_bytes_fitting(s: Seq<char>, budget: int, n: int)
    requires
        0 <= n <= s.len(),
        0 <= budget,
        text_bytes(s.take(n)) > budget,
    ensures
        ({
            let k = bytes_fitting(s, budget, n);
            &&& 0 <= k < n
            &&& text_bytes(s.take(k)) <= budget
            &&& text_bytes(s.take(k + 1)) > budget
        }),
    decreases n,
{
    assert(s.take(0) =~= Seq::<char>::empty());
    if n > 0 {
        if text_bytes(s.take(n - 1)) > budget {
            lemma_bytes_fitting(s, budget, n - 1);
        } else {
            assert(bytes_fitting(s, budget, n - 1) == n - 1) by {
                if n - 1 <= 0 {
                    assert(n - 1 == 0);
                }
            }
        }
    }
}

/// Texts need as much room together as each by itself; letters of English need a byte each.
pub proof fn law_bytes_add_up(a: Seq<char>, b: Seq<char>)
    ensures
        text_bytes(a + b) == text_bytes(a) + text_bytes(b),
        (forall|i: int| 0 <= i < b.len() ==> (#[trigger] b[i] as u32) < 128) ==> text_bytes(b)
            == b.len(),
        text_bytes(b) >= b.len(),
    decreases b.len(),
{
    if b.len() == 0 {
        assert(a + b =~= a);
    } else {
        let init = b.drop_last();
        law_bytes_add_up(a, init);
        assert((a + b).drop_last() =~= a + init);
        assert((a + b).last() == b.last());
        if forall|i: int| 0 <= i < b.len() ==> (#[trigger] b[i] as u32) < 128 {
            assert forall|i: int| 0 <= i < init.len() implies (#[trigger] init[i] as u32) < 128 by {
                assert(b[i] == init[i]);
            }
            assert((b[b.len() - 1] as u32) < 128);
        }
    }
}

// ----- adding torrents -----

/// The question for sources starts with the text it is given; what looks like a source begins
/// with a scheme or ends like a torrent file.
pub proof fn law_sources_are_recognised(rest: Seq<char>, text: Seq<char>)
    ensures
        looks_like_source("magnet:"@ + rest),
        looks_like_source("http://"@ + rest),
        looks_like_source("https://"@ + rest),
        looks_like_source(rest + ".torrent"@),
        looks_like_source(text) ==> has_prefix(text, "magnet:"@) || has_prefix(text, "http://"@)
            || has_prefix(text, "https://"@) || has_suffix(text, ".torrent"@),
        add_prompt(text).lines == seq![text] && add_prompt(text).action == ActionView::Add
            && add_prompt(text).multiline,
{
    lemma_begins("magnet:"@, rest);
    lemma_begins("http://"@, rest);
    lemma_begins("https://"@, rest);
    lemma_ends(rest, ".torrent"@);
}

/// A text that something is put behind begins as it did.
proof fn lemma_begins(a: Seq<char>, b: Seq<char>)
    ensures
        has_prefix(a + b, a),
{
    assert((a + b).subrange(0, a.len() as int) =~= a);
}

/// The question shows every line, but a dozen at most and one at least.
pub proof fn law_question_shows_its_lines(lines: int)
    ensures
        1 <= lines <= 12 ==> body_rows(lines) == lines,
        lines > 12 ==> body_rows(lines) == 12,
        lines < 1 ==> body_rows(lines) == 1,
{
}

/// The form and the list of files tell which of the torrents it is about.
pub proof fn law_places_are_counted_from_one(form: FormView, step: StepView)
    ensures
        holds(
            form_title(form),
            decimal(form.current + 1) + "/"@ + decimal(form.entries.len() as int),
        ),
        has_suffix(
            place_text(step),
            decimal(step.current + 1) + "/"@ + decimal(step.entries.len() as int),
        ),
        step.entries.len() > 1 <==> onward_text(step) == "next torrent  "@,
{
    lemma_holds(
        form_title(form),
        " add options  ("@,
        decimal(form.current + 1) + "/"@ + decimal(form.entries.len() as int),
        ") "@,
    );
    let end = decimal(step.current + 1) + "/"@ + decimal(step.entries.len() as int);
    lemma_ends("torrent "@, end);
    assert(place_text(step) =~= "torrent "@ + end);
    reveal_strlit("next torrent  ");
    reveal_strlit("done  ");
    assert("next torrent  "@.len() == 14 && "done  "@.len() == 6);
}

/// The bar shows the name while it is typed, then the filter while it is typed or in use.
pub proof fn law_bar_shows_what_is_typed(v: StepView, name: Seq<char>)
    ensures
        v.rename == Some(name) ==> bar_of(v) == BarView::Rename(name),
        v.rename is None && v.filter_active ==> bar_of(v) == BarView::Filter(v.files.filter),
        v.rename is None && !v.filter_active && v.files.filter.len() > 0 ==> bar_of(v)
            == BarView::Filtered(v.files.filter),
        v.rename is None && !v.filter_active && v.files.filter.len() == 0 ==> bar_of(v) is Hint,
{
}

// ----- categories and interfaces -----

/// The categories that came in are those that are shown, in order; what is no list of categories
/// changes nothing.
pub proof fn law_categories_are_taken_up(v: MainView, list: Vec<CategoryInfo>, why: String)
    ensures
        ({
            let after = after_categories(v, Ok(Response::Categories(list)));
            &&& after.categories.to_multiset() == Seq::new(
                list@.len(),
                |i: int| list@[i].name@,
            ).to_multiset()
            &&& in_sequence(after.categories)
            &&& after == (MainView { categories: after.categories, ..v })
            &&& after_categories(v, Err(why)) == v
        }),
{
    law_sorting_orders(category_names(list@));
    assert(category_names(list@) =~= Seq::new(list@.len(), |i: int| list@[i].name@));
}

/// The table of interfaces has a heading, a rule and a line for each interface.
pub proof fn law_interfaces_have_their_lines(entries: Seq<(Seq<char>, Seq<char>)>, i: int)
    requires
        0 <= i < entries.len(),
    ensures
        interface_table(entries).len() == entries.len() + 2,
        interface_table(entries).contains(
            padded(entries[i].0, 16) + " "@ + entries[i].1,
        ),
        interface_table(Seq::empty()).len() == 1,
{
    lemma_pairs_sorted(entries, i);
    let k = pairs_sorted(entries).index_of(entries[i]);
    assert(interface_table(entries)[k + 2] == padded(entries[i].0, 16) + " "@ + entries[i].1);
}

/// What is put among pairs is there, and they all stay.
proof fn lemma_pair_put(
    list: Seq<(Seq<char>, Seq<char>)>,
    p: (Seq<char>, Seq<char>),
    q: (Seq<char>, Seq<char>),
)
    ensures
        crate::cli::pair_inserted(list, p).len() == list.len() + 1,
        crate::cli::pair_inserted(list, p).contains(p),
        list.contains(q) ==> crate::cli::pair_inserted(list, p).contains(q),
    decreases list.len(),
{
    let all = crate::cli::pair_inserted(list, p);
    if list.len() == 0 || !crate::cli::pair_before(p, list.last()) {
        assert(all[list.len() as int] == p);
        if list.contains(q) {
            assert(all[list.index_of(q)] == q);
        }
    } else {
        let fewer = crate::cli::pair_inserted(list.drop_last(), p);
        lemma_pair_put(list.drop_last(), p, q);
        assert(all[fewer.index_of(p)] == p);
        if list.contains(q) {
            let k = list.index_of(q);
            if k == list.len() - 1 {
                assert(all[fewer.len() as int] == q);
            } else {
                assert(list.drop_last()[k] == q);
                assert(all[fewer.index_of(q)] == q);
            }
        }
    }
}

/// Sorting keeps every pair.
proof fn lemma_pairs_sorted(list: Seq<(Seq<char>, Seq<char>)>, i: int)
    requires
        0 <= i < list.len(),
    ensures
        pairs_sorted(list).len() == list.len(),
        pairs_sorted(list).contains(list[i]),
    decreases list.len(),
{
    let init = list.drop_last();
    if init.len() > 0 {
        let k = if i < init.len() {
            i
        } else {
            0
        };
        lemma_pairs_sorted(init, k);
        assert(init[k] == list[k]);
    }
    lemma_pair_put(pairs_sorted(init), list.last(), list[i]);
}

/// The list of interfaces starts on the one that is configured; without one it starts on any.
pub proof fn law_list_starts_on_what_is_configured(interfaces: Seq<(Seq<char>, Seq<char>)>, k: int)
    requires
        0 <= k < interfaces.len(),
        interfaces[k].0.len() > 0,
        forall|j: int| 0 <= j < k ==> (#[trigger] interfaces[j]).0 != interfaces[k].0,
    ensures
        picker_row(picker_items(interfaces), interfaces[k].0, 0) == k + 1,
        picker_row(picker_items(interfaces), Seq::empty(), 0) == 0,
        picker_items(interfaces)[k + 1].1 == interfaces[k].0,
        picker_items(interfaces).len() == interfaces.len() + 2,
{
    let items = picker_items(interfaces);
    assert(items[0].1 == Seq::<char>::empty());
    assert(items[k + 1].1 == interfaces[k].0);
    assert forall|j: int| 0 <= j < k + 1 implies (#[trigger] items[j]).1 != interfaces[k].0 by {
        if j > 0 {
            assert(items[j].1 == interfaces[j - 1].0);
        }
    }
    lemma_picker_row(items, interfaces[k].0, 0, k + 1);
    lemma_picker_row(items, Seq::empty(), 0, 0);
}

/// The first row with the value.
proof fn lemma_picker_row(items: Seq<(Seq<char>, Seq<char>)>, value: Seq<char>, from: int, k: int)
    requires
        0 <= from <= k < items.len(),
        items[k].1 == value,
        forall|j: int| from <= j < k ==> (#[trigger] items[j]).1 != value,
    ensures
        picker_row(items, value, from) == k,
    decreases k - from,
{
    if from < k {
        assert(items[from].1 != value);
        lemma_picker_row(items, value, from + 1, k);
    }
}

// ----- the settings page -----

/// The bar names the page before and the page behind the one that is shown.
pub proof fn law_bar_names_the_neighbours(tab: int)
    requires
        0 <= tab < 6,
    ensures
        ({
            let next = if tab < 5 {
                tab + 1
            } else {
                0
            };
            &&& bar_texts(tab)[1] == " "@ + bar_texts(next)[0] + " "@
            &&& bar_texts(next)[1] == " "@ + bar_texts(tab)[2] + " "@
            &&& bar_texts(tab)[3] == "["@ + decimal(tab + 1) + "/"@ + decimal(6) + "]"@
        }),
{
}

/// Where no list of folders is among the settings, each has a line of its own: marked where it
/// is the selected one, with its value, or with what is typed in its place.
pub proof fn law_settings_have_their_lines(
    s: SettingsState,
    from: int,
    n: int,
    i: int,
    interfaces: Seq<(Seq<char>, Seq<char>)>,
    literal: bool,
)
    requires
        0 <= from <= i < n,
        forall|j: int| from <= j < n ==> !#[trigger] is_list(j),
    ensures
        ({
            let lines = page_lines(s, from, n, interfaces, literal);
            let typed = i == s@.selected && s@.edit is Some;
            let value = value_text(s.config, key_text(i), s.ratio_text@, s.autostart);
            &&& lines.len() == n - from
            &&& lines[i - from] == LineView::Setting(
                i == s@.selected,
                typed,
                padded(label_text(i), 32),
                if typed {
                    "[ "@ + s@.edit->0 + "_ ]"@
                } else {
                    shown_value(kind_of(i), value, interfaces, literal)
                },
                needs_restart(i),
            )
        }),
    decreases n,
{
    assert(!is_list(n - 1));
    if i < n - 1 {
        law_settings_have_their_lines(s, from, n - 1, i, interfaces, literal);
    } else if from < n - 1 {
        assert(from <= n - 2);
        assert forall|j: int| from <= j < n - 1 implies !#[trigger] is_list(j) by {}
        law_settings_have_their_lines(s, from, n - 1, n - 2, interfaces, literal);
    } else {
        assert(page_lines(s, from, n - 1, interfaces, literal) =~= Seq::empty());
    }
}

/// The list of folders tells how many there are, and shows them while it is selected: the chosen
/// one with a mark, or as it is typed.
pub proof fn law_folders_have_their_lines(
    v: SettingsView,
    at: int,
    i: int,
    value: Seq<char>,
    interfaces: Seq<(Seq<char>, Seq<char>)>,
    literal: bool,
)
    requires
        is_list(at),
        0 <= i < v.dirs.len(),
    ensures
        ({
            let lines = setting_lines(v, at, value, interfaces, literal);
            let typed = i == v.dir_selected && v.dir_editing;
            &&& lines[0] == LineView::Setting(
                at == v.selected,
                false,
                padded(label_text(at), 32),
                count_text(v.dirs.len() as int),
                false,
            )
            &&& v.selected != at ==> lines.len() == 1
            &&& v.selected == at && !(v.dir_editing && v.dir_selected >= v.dirs.len())
                ==> lines.len() == v.dirs.len() + 1
            &&& v.selected == at && v.dir_editing && v.dir_selected >= v.dirs.len()
                ==> lines.len() == v.dirs.len() + 2 && lines.last() == LineView::Entry(
                true,
                true,
                "[ "@ + v.dir_buffer + "_ ]"@,
            )
            &&& v.selected == at ==> lines[i + 1] == LineView::Entry(
                i == v.dir_selected,
                typed,
                if typed {
                    "[ "@ + v.dir_buffer + "_ ]"@
                } else if i == v.dir_selected {
                    "\u{25b8} "@ + v.dirs[i]
                } else {
                    "  "@ + v.dirs[i]
                },
            )
        }),
{
    let lines = setting_lines(v, at, value, interfaces, literal);
    if v.selected == at {
        assert(lines[i + 1] == entry_lines(v)[i]);
    }
}

/// Folders are counted: none, one, or their number.
pub proof fn law_folders_are_counted(n: int)
    requires
        n > 1,
    ensures
        count_text(0) == "(none)"@,
        count_text(1) == decimal(1) + " entry"@,
        count_text(n) == decimal(n) + " entries"@,
{
    reveal_strlit("1 entry");
    reveal_strlit(" entry");
    assert(decimal(1) =~= seq!['1']);
    assert("1 entry"@ =~= decimal(1) + " entry"@);
}

/// The hints are those for what is typed or selected.
pub proof fn law_hints_fit_what_is_done(v: SettingsView)
    ensures
        v.dir_editing <==> hints_of(v) == Hints::Folder,
        !v.dir_editing ==> (is_list(v.selected) <==> hints_of(v) == Hints::List),
        !v.dir_editing && !is_list(v.selected) ==> (v.edit is Some <==> hints_of(v)
            == Hints::Value),
{
}

/// The page is read again once a change of a setting was taken, and not where it was refused or
/// another page is shown.
pub proof fn law_page_is_read_again_after_changes(v: AppView, topic: TopicView, why: String)
    ensures
        v.mode is Settings && (topic is Setting || topic is Folders) ==> settings_stale(
            v,
            topic,
            Ok(Response::Done),
        ),
        !settings_stale(v, topic, Err(why)),
        !settings_stale(v, topic, Ok(Response::Failed(why))),
        !(v.mode is Settings) ==> !settings_stale(v, topic, Ok(Response::Done)),
{
}

} // verus!
