//! Coalescing the cells of dirty regions into text segments: runs of cells
//! drawn with one call each.

use vstd::prelude::*;
use crate::cell::{ScreenChar, TextColor};
use crate::geometry::{Position, Region};
use crate::text::{BUFFER_CELLS, BUFFER_WIDTH, region_fits};

verus! {

/// Relies on `String::push`, which appends one character to the string.
pub assume_specification[ String::push ](s: &mut String, ch: char)
    ensures
        final(s)@ == old(s)@.push(ch),
;

/// A run of text drawn in one style at a cell position.
#[derive(Debug, Clone, PartialEq, Eq)]
pub struct TextSegment {
    pub text: String,
    pub text_position: Position,
    pub text_color: TextColor,
    pub background_color: TextColor,
    pub underline: bool,
    pub strikethrough: bool,
}

impl TextSegment {
    pub fn new(
        text: String,
        text_position: Position,
        text_color: TextColor,
        background_color: TextColor,
        underline: bool,
        strikethrough: bool,
    ) -> (r: Self)
        ensures
            r.text@ == text@,
            r.text_position == text_position,
            r.text_color == text_color,
            r.background_color == background_color,
            r.underline == underline,
            r.strikethrough == strikethrough,
    {
        Self { text, text_position, text_color, background_color, underline, strikethrough }
    }
}

/// The style of a cell: foreground, background, underline, strikethrough.
pub open spec fn style_of(sc: ScreenChar) -> (TextColor, TextColor, bool, bool) {
    (sc.color_code().fg(), sc.color_code().bg(), sc.attrs().is_underline(), sc.attrs().is_strikethrough())
}

/// Whether a style is the blank marker: black on black.
pub open spec fn is_blank_style(st: (TextColor, TextColor, bool, bool)) -> bool {
    st.0 == TextColor::Black && st.1 == TextColor::Black
}

/// Whether the cell at `x` of row `y` starts a new run after a run that
/// started at `start`: only a run in the blank style is broken by a change
/// of style; any other run absorbs the cells that differ.
pub open spec fn breaks(cells: Seq<ScreenChar>, y: int, start: int, x: int) -> bool {
    let a = style_of(cells[y * 80 + start]);
    a != style_of(cells[y * 80 + x]) && is_blank_style(a)
}

/// The runs, as (row, first column, end column), of row `y` from column `x`
/// to `x1`, when the current run started at `start`.
pub open spec fn runs_from(cells: Seq<ScreenChar>, y: int, x: int, x1: int, start: int) -> Seq<(int, int, int)>
    decreases x1 - x,
{
    if x >= x1 {
        seq![(y, start, x1)]
    } else if breaks(cells, y, start, x) {
        seq![(y, start, x)] + runs_from(cells, y, x + 1, x1, x)
    } else {
        runs_from(cells, y, x + 1, x1, start)
    }
}

/// The runs of row `y` between columns `x0` and `x1`.
pub open spec fn row_runs(cells: Seq<ScreenChar>, y: int, x0: int, x1: int) -> Seq<(int, int, int)> {
    if x0 >= x1 {
        Seq::empty()
    } else {
        runs_from(cells, y, x0 + 1, x1, x0)
    }
}

/// The runs of the first `n` rows of region `r`.
pub open spec fn region_runs(cells: Seq<ScreenChar>, r: Region, n: int) -> Seq<(int, int, int)>
    decreases n,
{
    if n <= 0 {
        Seq::empty()
    } else {
        region_runs(cells, r, n - 1) + row_runs(
            cells,
            r.position.y + n - 1,
            r.position.x as int,
            r.position.x + r.size.width,
        )
    }
}

/// The runs of all `regions`, region by region, row by row.
pub open spec fn all_runs(cells: Seq<ScreenChar>, regions: Seq<Region>) -> Seq<(int, int, int)>
    decreases regions.len(),
{
    if regions.len() == 0 {
        Seq::empty()
    } else {
        all_runs(cells, regions.drop_last()) + region_runs(cells, regions.last(), regions.last().size.height as int)
    }
}

/// Whether `seg` draws the run (`y`, `a`, `b`): the characters of cells `a`
/// up to `b` of row `y`, at (`a`, `y`), in the style of cell `a`.
pub open spec fn draws_run(cells: Seq<ScreenChar>, seg: TextSegment, run: (int, int, int)) -> bool {
    let (y, a, b) = run;
    &&& seg.text_position == (Position { x: a as usize, y: y as usize })
    &&& seg.text@.len() == b - a
    &&& forall|t: int| 0 <= t < b - a ==> (#[trigger] seg.text@[t]) as u32 == cells[y * 80 + a + t].code()
    &&& (seg.text_color, seg.background_color, seg.underline, seg.strikethrough) == style_of(cells[y * 80 + a])
}

/// Whether `segs` draws exactly `runs`, in order.
pub open spec fn draws_runs(cells: Seq<ScreenChar>, segs: Seq<TextSegment>, runs: Seq<(int, int, int)>) -> bool {
    &&& segs.len() == runs.len()
    &&& forall|n: int| 0 <= n < segs.len() ==> draws_run(cells, #[trigger] segs[n], runs[n])
}

proof fn lemma_draws_push(cells: Seq<ScreenChar>, segs: Seq<TextSegment>, runs: Seq<(int, int, int)>, seg: TextSegment, run: (int, int, int))
    requires
        draws_runs(cells, segs, runs),
        draws_run(cells, seg, run),
    ensures
        draws_runs(cells, segs.push(seg), runs.push(run)),
{
    assert forall|n: int| 0 <= n < segs.len() + 1 implies draws_run(cells, #[trigger] segs.push(seg)[n], runs.push(run)[n]) by {
        if n < segs.len() {
            assert(segs.push(seg)[n] == segs[n]);
            assert(runs.push(run)[n] == runs[n]);
        }
    }
}

/// The segments of `regions`: each row of each region is scanned left to
/// right and split into runs, where a change of style ends a run only when
/// that run is in the blank style (black on black); every row ends its run.
pub fn text_segments(cells: &Vec<ScreenChar>, regions: &Vec<Region>) -> (r: Vec<TextSegment>)
    requires
        cells@.len() == BUFFER_CELLS,
        forall|k: int| 0 <= k < regions@.len() ==> region_fits(#[trigger] regions@[k]),
    ensures
        draws_runs(cells@, r@, all_runs(cells@, regions@)),
{
    let mut segments: Vec<TextSegment> = Vec::new();
    let mut k: usize = 0;
    while k < regions.len()
        invariant
            cells@.len() == BUFFER_CELLS,
            forall|q: int| 0 <= q < regions@.len() ==> region_fits(#[trigger] regions@[q]),
            k <= regions@.len(),
            draws_runs(cells@, segments@, all_runs(cells@, regions@.take(k as int))),
        decreases regions@.len() - k,
    {
        let region = regions[k];
        assert(region_fits(regions@[k as int]));
        let start_x = region.position.x;
        let start_y = region.position.y;
        let end_x = start_x + region.size.width;
        let end_y = start_y + region.size.height;
        let ghost prefix = all_runs(cells@, regions@.take(k as int));
        let mut y: usize = start_y;
        while y < end_y
            invariant
                cells@.len() == BUFFER_CELLS,
                region_fits(region),
                start_x == region.position.x,
                start_y == region.position.y,
                end_x == start_x + region.size.width,
                end_y == start_y + region.size.height,
                start_y <= y <= end_y,
                draws_runs(cells@, segments@, prefix + region_runs(cells@, region, y - start_y)),
            decreases end_y - y,
        {
            let ghost before_row = segments@;
            let ghost runs_before = prefix + region_runs(cells@, region, y - start_y);
            if start_x < end_x {
                let first = cells[y * BUFFER_WIDTH + start_x];
                let mut current_text = String::new();
                current_text.push(first.character());
                let mut current_position = Position::new(start_x, y);
                let first_color = first.color();
                let first_attributes = first.attributes();
                let mut current_text_color = first_color.foreground();
                let mut current_background_color = first_color.background();
                let mut current_underline = first_attributes.underline();
                let mut current_strikethrough = first_attributes.strikethrough();
                let ghost mut done: Seq<(int, int, int)> = Seq::empty();
                let mut x: usize = start_x + 1;
                while x < end_x
                    invariant
                        cells@.len() == BUFFER_CELLS,
                        region_fits(region),
                        start_x == region.position.x,
                        start_y == region.position.y,
                        end_x == start_x + region.size.width,
                        start_y <= y < end_y,
                        end_y == start_y + region.size.height,
                        start_x < end_x,
                        start_x <= current_position.x < x <= end_x,
                        current_position.y == y,
                        current_text@.len() == x - current_position.x,
                        forall|t: int| 0 <= t < x - current_position.x ==> (#[trigger] current_text@[t]) as u32 == cells@[y * 80 + current_position.x + t].code(),
                        (current_text_color, current_background_color, current_underline, current_strikethrough) == style_of(cells@[y * 80 + current_position.x]),
                        draws_runs(cells@, segments@, runs_before + done),
                        done + runs_from(cells@, y as int, x as int, end_x as int, current_position.x as int) == row_runs(cells@, y as int, start_x as int, end_x as int),
                    decreases end_x - x,
                {
                    let index = y * BUFFER_WIDTH + x;
                    let screen_char = cells[index];
                    let char_color = screen_char.color();
                    let char_attributes = screen_char.attributes();
                    let fg = char_color.foreground();
                    let bg = char_color.background();
                    let ul = char_attributes.underline();
                    let st = char_attributes.strikethrough();
                    let differs = current_text_color != fg || current_background_color != bg || current_underline != ul
                        || current_strikethrough != st;
                    let blank = current_text_color == TextColor::Black && current_background_color == TextColor::Black;
                    if differs && blank {
                        let ghost run = (y as int, current_position.x as int, x as int);
                        let segment = TextSegment::new(
                            current_text,
                            current_position,
                            current_text_color,
                            current_background_color,
                            current_underline,
                            current_strikethrough,
                        );
                        proof {
                            lemma_draws_push(cells@, segments@, runs_before + done, segment, run);
                            assert((runs_before + done).push(run) =~= runs_before + done.push(run));
                            assert(done.push(run) + runs_from(cells@, y as int, x + 1, end_x as int, x as int) =~= done + (seq![run] + runs_from(cells@, y as int, x + 1, end_x as int, x as int)));
                            done = done.push(run);
                        }
                        segments.push(segment);
                        current_text = String::new();
                        current_text.push(screen_char.character());
                        current_position = Position::new(x, y);
                        current_text_color = fg;
                        current_background_color = bg;
                        current_underline = ul;
                        current_strikethrough = st;
                    } else {
                        let ghost old_text = current_text@;
                        current_text.push(screen_char.character());
                        assert forall|t: int| 0 <= t < x + 1 - current_position.x implies (#[trigger] current_text@[t]) as u32 == cells@[y * 80 + current_position.x + t].code() by {
                            if t < x - current_position.x {
                                assert(current_text@[t] == old_text[t]);
                            }
                        }
                    }
                    x = x + 1;
                }
                let ghost run = (y as int, current_position.x as int, end_x as int);
                let segment = TextSegment::new(
                    current_text,
                    current_position,
                    current_text_color,
                    current_background_color,
                    current_underline,
                    current_strikethrough,
                );
                proof {
                    lemma_draws_push(cells@, segments@, runs_before + done, segment, run);
                    assert((runs_before + done).push(run) =~= runs_before + row_runs(cells@, y as int, start_x as int, end_x as int));
                }
                segments.push(segment);
            } else {
                assert(row_runs(cells@, y as int, start_x as int, end_x as int) =~= Seq::empty());
                assert(runs_before + row_runs(cells@, y as int, start_x as int, end_x as int) =~= runs_before);
            }
            proof {
                assert(prefix + region_runs(cells@, region, y + 1 - start_y) =~= runs_before + row_runs(cells@, y as int, start_x as int, end_x as int));
            }
            y = y + 1;
        }
        proof {
            let t = regions@.take(k as int + 1);
            assert(t.drop_last() =~= regions@.take(k as int));
            assert(t.last() == region);
        }
        k = k + 1;
    }
    assert(regions@.take(regions@.len() as int) =~= regions@);
    segments
}

/// Whether `runs` tile columns `x0` up to `x1` of row `y`: non-empty runs of
/// that row, each starting where the last ended, from `x0` to `x1`.
pub open spec fn tiles(runs: Seq<(int, int, int)>, y: int, x0: int, x1: int) -> bool {
    &&& runs.len() >= 1
    &&& runs[0].1 == x0
    &&& runs.last().2 == x1
    &&& forall|k: int| 0 <= k < runs.len() ==> (#[trigger] runs[k]).0 == y && runs[k].1 < runs[k].2
    &&& forall|k: int| 0 <= k < runs.len() - 1 ==> (#[trigger] runs[k]).2 == runs[k + 1].1
}

/// Whether run `run` holds column `c` of row `y`.
pub open spec fn covers(run: (int, int, int), y: int, c: int) -> bool {
    run.0 == y && run.1 <= c < run.2
}

proof fn lemma_runs_from_tile(cells: Seq<ScreenChar>, y: int, x: int, x1: int, start: int)
    requires
        start < x <= x1,
    ensures
        tiles(runs_from(cells, y, x, x1, start), y, start, x1),
    decreases x1 - x,
{
    let r = runs_from(cells, y, x, x1, start);
    if x >= x1 {
    } else if breaks(cells, y, start, x) {
        let rest = runs_from(cells, y, x + 1, x1, x);
        lemma_runs_from_tile(cells, y, x + 1, x1, x);
        assert(r == seq![(y, start, x)] + rest);
        assert forall|k: int| 0 <= k < r.len() implies (#[trigger] r[k]).0 == y && r[k].1 < r[k].2 by {
            if k > 0 {
                assert(r[k] == rest[k - 1]);
            }
        }
        assert forall|k: int| 0 <= k < r.len() - 1 implies (#[trigger] r[k]).2 == r[k + 1].1 by {
            if k > 0 {
                assert(r[k] == rest[k - 1]);
                assert(r[k + 1] == rest[k]);
            }
        }
    } else {
        lemma_runs_from_tile(cells, y, x + 1, x1, start);
    }
}

/// The runs of a non-empty row span tile it.
pub proof fn lemma_row_runs_tile(cells: Seq<ScreenChar>, y: int, x0: int, x1: int)
    requires
        x0 < x1,
    ensures
        tiles(row_runs(cells, y, x0, x1), y, x0, x1),
{
    lemma_runs_from_tile(cells, y, x0 + 1, x1, x0);
}

proof fn lemma_tiles_ordered(runs: Seq<(int, int, int)>, y: int, x0: int, x1: int, k1: int, k2: int)
    requires
        tiles(runs, y, x0, x1),
        0 <= k1 < k2 < runs.len(),
    ensures
        runs[k1].2 <= runs[k2].1,
    decreases k2 - k1,
{
    assert(runs[k1].2 == runs[k1 + 1].1);
    if k1 + 1 < k2 {
        lemma_tiles_ordered(runs, y, x0, x1, k1 + 1, k2);
        assert(runs[k1 + 1].1 < runs[k1 + 1].2);
    }
}

proof fn lemma_tiles_reach(runs: Seq<(int, int, int)>, y: int, x0: int, x1: int, c: int, k: int)
    requires
        tiles(runs, y, x0, x1),
        0 <= k < runs.len(),
        runs[k].1 <= c < x1,
    ensures
        exists|j: int| 0 <= j < runs.len() && covers(#[trigger] runs[j], y, c),
    decreases runs.len() - k,
{
    if c < runs[k].2 {
        assert(covers(runs[k], y, c));
    } else {
        assert(k < runs.len() - 1);
        assert(runs[k].2 == runs[k + 1].1);
        lemma_tiles_reach(runs, y, x0, x1, c, k + 1);
    }
}

/// Every column of a tiled span lies in exactly one run.
pub proof fn lemma_tiles_cover_once(runs: Seq<(int, int, int)>, y: int, x0: int, x1: int, c: int)
    requires
        tiles(runs, y, x0, x1),
        x0 <= c < x1,
    ensures
        exists|j: int| 0 <= j < runs.len() && covers(#[trigger] runs[j], y, c),
        forall|j1: int, j2: int| 0 <= j1 < runs.len() && 0 <= j2 < runs.len() && covers(#[trigger] runs[j1], y, c) && covers(#[trigger] runs[j2], y, c) ==> j1 == j2,
{
    lemma_tiles_reach(runs, y, x0, x1, c, 0);
    assert forall|j1: int, j2: int| 0 <= j1 < runs.len() && 0 <= j2 < runs.len() && covers(#[trigger] runs[j1], y, c) && covers(#[trigger] runs[j2], y, c) implies j1 == j2 by {
        if j1 < j2 {
            lemma_tiles_ordered(runs, y, x0, x1, j1, j2);
        }
        if j2 < j1 {
            lemma_tiles_ordered(runs, y, x0, x1, j2, j1);
        }
    }
}

} // verus!

