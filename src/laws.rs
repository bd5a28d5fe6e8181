//! Properties that relate the operations of the library, proved from their
//! specifications.

use vstd::prelude::*;
use crate::geometry::{Color, Position};
use crate::pixel::{FrameGeometry, PixelLayout, gray_of, pixel_bytes, pixel_offset, write_bytes};
use crate::display::pixel_lands;
use crate::cell::ScreenChar;
use crate::dirty::{col_of, labels_regions, row_of};
use crate::geometry::Region;
use crate::segments::{
    all_runs, covers, draws_run, lemma_row_runs_tile, lemma_tiles_cover_once, region_runs, row_runs, runs_from, tiles,
};
use crate::dirty::{bounds_component, group_connected, group_seed};
use crate::geometry::Size;
use crate::text_driver::segments_of;
use crate::text::{in_region, region_fits};
use crate::text::{
    BUFFER_CELLS, BUFFER_HEIGHT, BUFFER_WIDTH, ScrollDirection, TermState, blank_cell, cell_index,
    on_grid, uniform,
};

verus! {

/// Writing a printable character at an on-grid cursor into a clean grid
/// leaves exactly one dirty cell: the one under the cursor.
pub proof fn lemma_write_marks_one_cell(s: TermState, c: char)
    requires
        s.sized(),
        on_grid(s.cursor),
        s.dirty == uniform(false),
        c != '\n' && c != '\r' && c != '\t',
    ensures
        forall|i: int| 0 <= i < BUFFER_CELLS ==> (s.step(c).dirty[i] <==> i == cell_index(s.cursor.y as int, s.cursor.x as int)),
        s.step(c).cells[cell_index(s.cursor.y as int, s.cursor.x as int)] == s.styled(c),
{
}

/// Scrolling up by `n` (0 < n < height) moves row `r + n` to row `r` and
/// blanks the bottom `n` rows in the current background.
pub proof fn lemma_scroll_up_rows(s: TermState, n: int)
    requires
        s.sized(),
        0 < n < BUFFER_HEIGHT,
    ensures
        forall|r: int, col: int| 0 <= r < BUFFER_HEIGHT - n && 0 <= col < BUFFER_WIDTH ==>
            s.scrolled(n, ScrollDirection::Up).cells[cell_index(r, col)] == s.cells[cell_index(r + n, col)],
        forall|r: int, col: int| BUFFER_HEIGHT - n <= r < BUFFER_HEIGHT && 0 <= col < BUFFER_WIDTH ==>
            s.scrolled(n, ScrollDirection::Up).cells[cell_index(r, col)] == blank_cell(s.background_color),
{
    assert forall|r: int, col: int| 0 <= r < BUFFER_HEIGHT - n && 0 <= col < BUFFER_WIDTH implies
        s.scrolled(n, ScrollDirection::Up).cells[cell_index(r, col)] == s.cells[cell_index(r + n, col)] by {
        assert(cell_index(r, col) + n * 80 == cell_index(r + n, col));
    }
    assert forall|r: int, col: int| BUFFER_HEIGHT - n <= r < BUFFER_HEIGHT && 0 <= col < BUFFER_WIDTH implies
        s.scrolled(n, ScrollDirection::Up).cells[cell_index(r, col)] == blank_cell(s.background_color) by {
        assert(cell_index(r, col) + n * 80 >= 2000);
    }
}

/// Scrolling down by `n` (0 < n < height) moves row `r - n` to row `r` and
/// blanks the top `n` rows in the current background.
pub proof fn lemma_scroll_down_rows(s: TermState, n: int)
    requires
        s.sized(),
        0 < n < BUFFER_HEIGHT,
    ensures
        forall|r: int, col: int| n <= r < BUFFER_HEIGHT && 0 <= col < BUFFER_WIDTH ==>
            s.scrolled(n, ScrollDirection::Down).cells[cell_index(r, col)] == s.cells[cell_index(r - n, col)],
        forall|r: int, col: int| 0 <= r < n && 0 <= col < BUFFER_WIDTH ==>
            s.scrolled(n, ScrollDirection::Down).cells[cell_index(r, col)] == blank_cell(s.background_color),
{
    assert forall|r: int, col: int| n <= r < BUFFER_HEIGHT && 0 <= col < BUFFER_WIDTH implies
        s.scrolled(n, ScrollDirection::Down).cells[cell_index(r, col)] == s.cells[cell_index(r - n, col)] by {
        assert(cell_index(r, col) - n * 80 == cell_index(r - n, col));
    }
    assert forall|r: int, col: int| 0 <= r < n && 0 <= col < BUFFER_WIDTH implies
        s.scrolled(n, ScrollDirection::Down).cells[cell_index(r, col)] == blank_cell(s.background_color) by {
        assert(cell_index(r, col) < n * 80);
    }
}

/// Scrolling by the grid's height or more, either way, is clearing it.
pub proof fn lemma_scroll_past_height_clears(s: TermState, n: int, direction: ScrollDirection)
    requires
        n >= BUFFER_HEIGHT,
    ensures
        s.scrolled(n, direction) == s.cleared(),
{
}

/// A pixel written with `set_pixel` reads back, at its offset, as the bytes
/// of its layout: red, green, blue for RGB; blue, green, red for BGR; the
/// sum of the thirds of the channels for gray.
pub proof fn lemma_pixel_round_trip(target: Seq<u8>, info: FrameGeometry, p: Position, c: Color)
    requires
        pixel_lands(info, p, target.len() as int),
    ensures
        ({
            let w = write_bytes(target, pixel_offset(info, p), pixel_bytes(info.pixel_format, c));
            let o = pixel_offset(info, p);
            &&& info.pixel_format == PixelLayout::Rgb ==> w.subrange(o, o + 3) == seq![c.red, c.green, c.blue]
            &&& info.pixel_format == PixelLayout::Bgr ==> w.subrange(o, o + 3) == seq![c.blue, c.green, c.red]
            &&& info.pixel_format == PixelLayout::U8 ==> w.subrange(o, o + 1) == seq![gray_of(c)]
            &&& gray_of(c) == c.red / 3 + c.green / 3 + c.blue / 3
        }),
{
    let w = write_bytes(target, pixel_offset(info, p), pixel_bytes(info.pixel_format, c));
    let o = pixel_offset(info, p);
    if info.pixel_format == PixelLayout::Rgb {
        assert(w.subrange(o, o + 3) =~= seq![c.red, c.green, c.blue]);
    }
    if info.pixel_format == PixelLayout::Bgr {
        assert(w.subrange(o, o + 3) =~= seq![c.blue, c.green, c.red]);
    }
    if info.pixel_format == PixelLayout::U8 {
        assert(w.subrange(o, o + 1) =~= seq![gray_of(c)]);
    }
}

/// Every dirty cell lies in one of the dirty regions, and in each region
/// that holds it, the runs of its row tile the region's span, so that
/// exactly one run, and so one segment, draws it.
pub proof fn lemma_segments_cover_dirty_cells(
    cells: Seq<ScreenChar>,
    dirty: Seq<bool>,
    label: Seq<int>,
    regions: Seq<Region>,
    i: int,
)
    requires
        labels_regions(dirty, label, regions),
        0 <= i < BUFFER_CELLS,
        dirty[i],
    ensures
        exists|k: int| 0 <= k < regions.len() && in_region(#[trigger] regions[k], i),
        forall|k: int| 0 <= k < regions.len() && in_region(#[trigger] regions[k], i) ==> {
            let r = regions[k];
            let runs = row_runs(cells, row_of(i), r.position.x as int, r.position.x + r.size.width);
            &&& tiles(runs, row_of(i), r.position.x as int, r.position.x + r.size.width)
            &&& exists|j: int| 0 <= j < runs.len() && covers(#[trigger] runs[j], row_of(i), col_of(i))
            &&& forall|j1: int, j2: int| 0 <= j1 < runs.len() && 0 <= j2 < runs.len()
                && covers(#[trigger] runs[j1], row_of(i), col_of(i)) && covers(#[trigger] runs[j2], row_of(i), col_of(i)) ==> j1 == j2
        },
{
    let k0 = label[i];
    assert(0 <= k0 < regions.len());
    assert(in_region(regions[k0], i));
    assert forall|k: int| 0 <= k < regions.len() && in_region(#[trigger] regions[k], i) implies {
        let r = regions[k];
        let runs = row_runs(cells, row_of(i), r.position.x as int, r.position.x + r.size.width);
        &&& tiles(runs, row_of(i), r.position.x as int, r.position.x + r.size.width)
        &&& exists|j: int| 0 <= j < runs.len() && covers(#[trigger] runs[j], row_of(i), col_of(i))
        &&& forall|j1: int, j2: int| 0 <= j1 < runs.len() && 0 <= j2 < runs.len()
            && covers(#[trigger] runs[j1], row_of(i), col_of(i)) && covers(#[trigger] runs[j2], row_of(i), col_of(i)) ==> j1 == j2
    } by {
        let r = regions[k];
        lemma_row_runs_tile(cells, row_of(i), r.position.x as int, r.position.x + r.size.width);
        lemma_tiles_cover_once(
            row_runs(cells, row_of(i), r.position.x as int, r.position.x + r.size.width),
            row_of(i),
            r.position.x as int,
            r.position.x + r.size.width,
            col_of(i),
        );
    }
}

/// After a printable character is written at an on-grid cursor into a
/// clean grid, the render pass finds one dirty region, the cell under the
/// cursor, and draws it with one segment: that cell's character at the
/// cursor, in its style. (The pass then leaves every cell clean; see
/// `TextDisplayDriver::draw_all`.)
pub proof fn lemma_write_then_render_draws_one_cell(
    s: TermState,
    c: char,
    regions: Seq<Region>,
    segs: Seq<crate::segments::TextSegment>,
)
    requires
        s.sized(),
        on_grid(s.cursor),
        s.dirty == uniform(false),
        c != '\n' && c != '\r' && c != '\t',
        segments_of(s.step(c), regions, segs),
    ensures
        regions == seq![Region { position: s.cursor, size: Size { width: 1, height: 1 } }],
        segs.len() == 1,
        draws_run(s.step(c).cells, segs[0], (s.cursor.y as int, s.cursor.x as int, s.cursor.x + 1)),
{
    let t = s.step(c);
    let x = s.cursor.x as int;
    let y = s.cursor.y as int;
    let p = cell_index(y, x);
    lemma_write_marks_one_cell(s, c);
    let label = choose|label: Seq<int>| labels_regions(t.dirty, label, regions);
    assert(0 <= label[p] < regions.len());
    assert forall|k: int| 0 <= k < regions.len() implies #[trigger] group_connected(t.dirty, label, k) && k == label[p] by {
        assert(group_connected(t.dirty, label, k));
        let q = choose|q: int| #[trigger] group_seed(t.dirty, label, k, q);
        assert(0 <= label[q] < regions.len());
        assert(q == p);
    }
    if regions.len() >= 2 {
        assert(group_connected(t.dirty, label, 0));
        assert(group_connected(t.dirty, label, 1));
    }
    assert(regions.len() == 1);
    let r = regions[0];
    assert(region_fits(r) && bounds_component(label, 0, r));
    let w0 = choose|i: int| 0 <= i < BUFFER_CELLS && label[i] == 0 && row_of(i) == r.position.y;
    assert(0 <= label[w0] < regions.len());
    let w1 = choose|i: int| 0 <= i < BUFFER_CELLS && label[i] == 0 && row_of(i) == r.position.y + r.size.height - 1;
    assert(0 <= label[w1] < regions.len());
    let w2 = choose|i: int| 0 <= i < BUFFER_CELLS && label[i] == 0 && col_of(i) == r.position.x;
    assert(0 <= label[w2] < regions.len());
    let w3 = choose|i: int| 0 <= i < BUFFER_CELLS && label[i] == 0 && col_of(i) == r.position.x + r.size.width - 1;
    assert(0 <= label[w3] < regions.len());
    assert(row_of(p) == y && col_of(p) == x);
    assert(r == Region { position: s.cursor, size: Size { width: 1, height: 1 } });
    assert(regions =~= seq![r]);
    assert(regions.drop_last() =~= Seq::<Region>::empty());
    assert(all_runs(t.cells, regions.drop_last()) =~= Seq::<(int, int, int)>::empty());
    assert(region_runs(t.cells, r, 0) =~= Seq::<(int, int, int)>::empty());
    assert(runs_from(t.cells, y, x + 1, x + 1, x) == seq![(y, x, x + 1)]);
    assert(row_runs(t.cells, y, x, x + 1) == seq![(y, x, x + 1)]);
    assert(region_runs(t.cells, r, 1) =~= seq![(y, x, x + 1)]);
    assert(all_runs(t.cells, regions) =~= seq![(y, x, x + 1)]);
}

} // verus!


