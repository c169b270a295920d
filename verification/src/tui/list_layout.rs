//! Where the parts of the list of torrents are drawn.

use crate::display::{cells, display_width, truncate_to_width, truncated};
use crate::names::NameMap;
use crate::text::texts;
use crate::tui::columns::{
    boundaries_of, column_boundaries, column_widths, compute_column_widths, lemma_widths_bound,
    width_values, Column,
};
use crate::tui::mouse::Area;
use vstd::prelude::*;

verus! {

/// Where the parts of the list are drawn.
#[derive(Clone, Debug, PartialEq, Eq)]
pub struct ListLayout {
    /// the widths of the columns
    pub widths: Vec<u16>,
    /// where the dividers between them stand
    pub boundaries: Vec<u16>,
    /// the dividers that are marked on the upper border: those beside the title
    pub marks: Vec<u16>,
    /// the labels of the columns, cut to their widths
    pub labels: Vec<String>,
    /// the row of the line below the labels, where there is room for it
    pub divider_y: Option<u16>,
    /// the rows of the torrents, where there is room for them
    pub data: Option<Area>,
}

/// The divider is not under the title, which begins one cell behind the corner.
pub open spec fn beside_title(x: int, area: Area, title: Seq<char>) -> bool {
    x < area.x + 1 || x >= area.x + 1 + cells(title)
}

/// The dividers that are not under the title.
pub open spec fn marked(boundaries: Seq<int>, area: Area, title: Seq<char>) -> Seq<int>
    decreases boundaries.len(),
{
    if boundaries.len() == 0 {
        Seq::empty()
    } else {
        let before = marked(boundaries.drop_last(), area, title);
        if beside_title(boundaries.last(), area, title) {
            before.push(boundaries.last())
        } else {
            before
        }
    }
}

/// The labels cut to the widths.
pub open spec fn cut_labels(columns: Seq<Column>, widths: Seq<int>) -> Seq<Seq<char>> {
    Seq::new(columns.len(), |i: int| truncated(columns[i].label_text(), widths[i]))
}

/// The lower border of the list.
pub open spec fn bottom(area: Area) -> int {
    area.y + area.height - 1
}

/// The layout is the one for the space. `inner` is the space inside the borders of `area`.
pub open spec fn is_layout(
    r: ListLayout,
    area: Area,
    inner: Area,
    columns: Seq<Column>,
    overrides: NameMap<u16>,
    title: Seq<char>,
) -> bool {
    let widths = column_widths(columns, overrides, inner.width as int);
    let boundaries = boundaries_of(widths, inner.x as int);
    &&& width_values(r.widths@) == widths
    &&& width_values(r.boundaries@) == boundaries
    &&& width_values(r.marks@) == marked(boundaries, area, title)
    &&& texts(r.labels@) == cut_labels(columns, widths)
    &&& r.divider_y == (if inner.y + 1 < bottom(area) {
        Some((inner.y + 1) as u16)
    } else {
        None
    })
    &&& r.data == (if inner.y + 2 < bottom(area) {
        Some(
            Area {
                x: inner.x,
                y: (inner.y + 2) as u16,
                width: inner.width,
                height: (bottom(area) - (inner.y + 2)) as u16,
            },
        )
    } else {
        None
    })
}

/// There is room for the list at all.
pub open spec fn has_room(inner: Area) -> bool {
    inner.width >= 4 && inner.height >= 3
}

/// The dividers that are not under the title.
fn choose_marks(boundaries: &Vec<u16>, area: Area, title: &str) -> (r: Vec<u16>)
    ensures
        width_values(r@) == marked(width_values(boundaries@), area, title@),
{
    let ghost all = width_values(boundaries@);
    let width: usize = display_width(title);
    let start: u32 = area.x as u32 + 1;
    let mut out: Vec<u16> = Vec::new();
    let mut i: usize = 0;
    assert(all.take(0) =~= Seq::<int>::empty());
    assert(width_values(out@) =~= Seq::<int>::empty());
    while i < boundaries.len()
        invariant
            i <= boundaries@.len(),
            all == width_values(boundaries@),
            start == area.x + 1,
            width == (if cells(title@) <= usize::MAX {
                cells(title@)
            } else {
                usize::MAX as int
            }),
            width_values(out@) == marked(all.take(i as int), area, title@),
        decreases boundaries@.len() - i,
    {
        let x: u32 = boundaries[i] as u32;
        assert(all.take(i as int + 1).drop_last() =~= all.take(i as int));
        assert(all[i as int] == boundaries@[i as int]);
        if x < start || (x - start) as usize >= width {
            let ghost before = out@;
            out.push(boundaries[i]);
            assert(width_values(out@) =~= width_values(before).push(x as int));
        }
        i = i + 1;
    }
    assert(all.take(boundaries@.len() as int) =~= all);
    out
}

/// The layout for a space; nothing is drawn where it is too small.
pub fn list_layout(
    area: Area,
    inner: Area,
    columns: &Vec<Column>,
    overrides: &NameMap<u16>,
    title: &str,
) -> (r: Option<ListLayout>)
    requires
        overrides.wf(),
        inner.x + inner.width + columns@.len() <= u16::MAX,
        inner.y + 2 <= u16::MAX,
        1 <= area.y + area.height <= u16::MAX,
    ensures
        r is Some <==> has_room(inner),
        r matches Some(layout) ==> is_layout(layout, area, inner, columns@, *overrides, title@),
{
    if inner.width < 4 || inner.height < 3 {
        return None;
    }
    let widths = compute_column_widths(columns.as_slice(), overrides, inner.width);
    proof {
        lemma_widths_bound(columns@, *overrides, inner.width as int);
    }
    let boundaries = column_boundaries(&widths, inner.x);
    let marks = choose_marks(&boundaries, area, title);
    let ghost sizes = width_values(widths@);
    let mut labels: Vec<String> = Vec::new();
    let mut i: usize = 0;
    while i < columns.len()
        invariant
            i <= columns@.len(),
            widths@.len() == columns@.len(),
            sizes == width_values(widths@),
            labels@.len() == i,
            forall|j: int|
                0 <= j < i ==> (#[trigger] labels@[j])@ == truncated(
                    columns@[j].label_text(),
                    sizes[j],
                ),
        decreases columns@.len() - i,
    {
        assert(sizes[i as int] == widths@[i as int]);
        labels.push(truncate_to_width(columns[i].label(), widths[i] as usize));
        i = i + 1;
    }
    assert(texts(labels@) =~= cut_labels(columns@, sizes));
    let end: u16 = area.y + area.height - 1;
    let divider_y: Option<u16> = if inner.y + 1 < end { Some(inner.y + 1) } else { None };
    let data: Option<Area> = if inner.y + 2 < end {
        Some(
            Area {
                x: inner.x,
                y: inner.y + 2,
                width: inner.width,
                height: end - (inner.y + 2),
            },
        )
    } else {
        None
    };
    Some(ListLayout { widths, boundaries, marks, labels, divider_y, data })
}

/// No divider is marked inside the title.
pub proof fn law_title_is_not_cut(boundaries: Seq<int>, area: Area, title: Seq<char>, x: int)
    requires
        marked(boundaries, area, title).contains(x),
    ensures
        beside_title(x, area, title),
        boundaries.contains(x),
    decreases boundaries.len(),
{
    if boundaries.len() > 0 {
        let init = boundaries.drop_last();
        let before = marked(init, area, title);
        let all = marked(boundaries, area, title);
        let k = all.index_of(x);
        if k < before.len() {
            assert(before[k] == x);
            law_title_is_not_cut(init, area, title, x);
            let j = init.index_of(x);
            assert(boundaries[j] == x);
        } else {
            assert(boundaries[boundaries.len() - 1] == x);
        }
    }
}

/// Every divider that stands beside the title is marked in the frame.
pub proof fn law_dividers_are_marked(boundaries: Seq<int>, area: Area, title: Seq<char>, k: int)
    requires
        0 <= k < boundaries.len(),
        boundaries[k] <= area.x || boundaries[k] > area.x + cells(title),
    ensures
        marked(boundaries, area, title).contains(boundaries[k]),
    decreases boundaries.len(),
{
    let before = marked(boundaries.drop_last(), area, title);
    let all = marked(boundaries, area, title);
    if k == boundaries.len() - 1 {
        assert(all[before.len() as int] == boundaries[k]);
    } else {
        law_dividers_are_marked(boundaries.drop_last(), area, title, k);
        assert(all[before.index_of(boundaries[k])] == boundaries[k]);
    }
}

/// Inside a frame the rows begin below the heading and the line under it, fill the width, and
/// end above the frame's last line.
pub proof fn law_rows_lie_inside_the_frame(
    r: ListLayout,
    area: Area,
    inner: Area,
    columns: Seq<Column>,
    overrides: NameMap<u16>,
    title: Seq<char>,
)
    requires
        is_layout(r, area, inner, columns, overrides, title),
        inner.y == area.y + 1,
        area.y + area.height <= u16::MAX,
    ensures
        area.height >= 5 ==> r.divider_y == Some((area.y + 2) as u16),
        area.height >= 5 ==> (r.data matches Some(rows) && rows.y == area.y + 3 && rows.y
            + rows.height == area.y + area.height - 1 && rows.x == inner.x && rows.width
            == inner.width),
        area.height <= 4 ==> r.data is None,
        r.labels@.len() == columns.len(),
        columns.len() > 0 && r.widths@.len() == columns.len() ==> r.boundaries@.len()
            == columns.len() - 1,
{
    let widths = column_widths(columns, overrides, inner.width as int);
    assert(texts(r.labels@).len() == r.labels@.len());
    assert(width_values(r.widths@).len() == r.widths@.len());
    assert(width_values(r.boundaries@).len() == r.boundaries@.len());
}

} // verus!
