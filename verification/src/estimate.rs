//! Estimates over a whole document: the rectangle of the main text column
//! and the height of a line of body text.

use crate::geometry::{in_range, rect, Coordinate, COORD_LIMIT};
use crate::layout::{lemma_page_extents, lines_in_range, lines_of, Block, Line, Page};
use crate::stats::{lemma_median_within, median_value, median_with_count, pairs_fit};
use vstd::prelude::*;

verus! {

/// Every page is well-formed.
pub open spec fn document_wf(pages: Seq<Page>) -> bool {
    forall|i: int| 0 <= i < pages.len() ==> (#[trigger] pages[i]).wf()
}

/// Every page holds at least one line.
pub open spec fn pages_have_lines(pages: Seq<Page>) -> bool {
    forall|i: int| 0 <= i < pages.len() ==> (#[trigger] pages[i]).spec_lines().len() > 0
}

/// The top of each page's text.
pub open spec fn page_tops(pages: Seq<Page>) -> Seq<i64> {
    Seq::new(pages.len(), |i: int| pages[i].spec_top())
}

/// The bottom of each page's text.
pub open spec fn page_bottoms(pages: Seq<Page>) -> Seq<i64> {
    Seq::new(pages.len(), |i: int| pages[i].spec_bottom())
}

/// The left of each page's text.
pub open spec fn page_lefts(pages: Seq<Page>) -> Seq<i64> {
    Seq::new(pages.len(), |i: int| pages[i].spec_left())
}

/// The right of each page's text.
pub open spec fn page_rights(pages: Seq<Page>) -> Seq<i64> {
    Seq::new(pages.len(), |i: int| pages[i].spec_right())
}

/// The main text column: on each side the median, over the pages, of the
/// page's extent on that side. The four medians are taken independently.
pub open spec fn spec_text_area(pages: Seq<Page>) -> Coordinate {
    rect(
        median_value(page_lefts(pages)),
        median_value(page_tops(pages)),
        median_value(page_rights(pages)),
        median_value(page_bottoms(pages)),
    )
}

/// All lines of the document, page by page.
pub open spec fn document_lines(pages: Seq<Page>) -> Seq<Line>
    decreases pages.len(),
{
    if pages.len() == 0 {
        Seq::empty()
    } else {
        document_lines(pages.drop_last()) + pages.last().spec_lines()
    }
}

/// The line's height where the line lies mostly inside `area`: where its
/// box overlaps the area and has more than nine tenths of its own surface
/// in it.
pub open spec fn body_height(line: Line, area: Coordinate) -> Option<i64> {
    if area.spec_mostly_contains(line.spec_box()) {
        Some(line.height)
    } else {
        None
    }
}

/// The heights of the lines that lie mostly inside `area`, in the order of
/// the lines.
pub open spec fn body_heights(lines: Seq<Line>, area: Coordinate) -> Seq<i64> {
    lines.filter_map(|line: Line| body_height(line, area))
}

/// The height of a line of body text: the median height of the lines that
/// lie mostly inside the main text column.
pub open spec fn spec_font_size(pages: Seq<Page>) -> int {
    median_value(body_heights(document_lines(pages), spec_text_area(pages)))
}

/// Every value lies within the coordinate limit.
pub open spec fn all_in_range(values: Seq<i64>) -> bool {
    forall|i: int| 0 <= i < values.len() ==> in_range(#[trigger] values[i] as int)
}

/// The main text column of the document.
///
/// For each side the extents of all pages are gathered and their median is
/// taken; with an even number of pages that is the mean of the two middle
/// extents, rounded toward zero.
pub fn get_text_area(pages: &Vec<Page>) -> (r: Coordinate)
    requires
        pages@.len() > 0,
        document_wf(pages@),
        pages_have_lines(pages@),
    ensures
        r == spec_text_area(pages@),
        r.wf(),
{
    let mut left_values: Vec<i64> = Vec::new();
    let mut right_values: Vec<i64> = Vec::new();
    let mut top_values: Vec<i64> = Vec::new();
    let mut bottom_values: Vec<i64> = Vec::new();
    let mut i: usize = 0;
    while i < pages.len()
        invariant
            i <= pages@.len(),
            document_wf(pages@),
            pages_have_lines(pages@),
            left_values@ == page_lefts(pages@.take(i as int)),
            right_values@ == page_rights(pages@.take(i as int)),
            top_values@ == page_tops(pages@.take(i as int)),
            bottom_values@ == page_bottoms(pages@.take(i as int)),
            all_in_range(left_values@),
            all_in_range(right_values@),
            all_in_range(top_values@),
            all_in_range(bottom_values@),
        decreases pages@.len() - i,
    {
        let page: &Page = &pages[i];
        proof {
            lemma_page_lines_in_range(*page);
            lemma_extents_in_range(*page);
        }
        left_values.push(page.left());
        right_values.push(page.right());
        top_values.push(page.top());
        bottom_values.push(page.bottom());
        i += 1;
        proof {
            assert(left_values@ =~= page_lefts(pages@.take(i as int)));
            assert(right_values@ =~= page_rights(pages@.take(i as int)));
            assert(top_values@ =~= page_tops(pages@.take(i as int)));
            assert(bottom_values@ =~= page_bottoms(pages@.take(i as int)));
        }
    }
    proof {
        assert(pages@.take(i as int) =~= pages@);
        lemma_median_within(left_values@, -COORD_LIMIT as int, COORD_LIMIT as int);
        lemma_median_within(right_values@, -COORD_LIMIT as int, COORD_LIMIT as int);
        lemma_median_within(top_values@, -COORD_LIMIT as int, COORD_LIMIT as int);
        lemma_median_within(bottom_values@, -COORD_LIMIT as int, COORD_LIMIT as int);
    }
    let left: i64 = median_with_count(&left_values).0;
    let right: i64 = median_with_count(&right_values).0;
    let top: i64 = median_with_count(&top_values).0;
    let bottom: i64 = median_with_count(&bottom_values).0;
    Coordinate::from_rect(left, top, right, bottom)
}

/// The heights of the lines that lie mostly inside `text_area`: those whose
/// box overlaps it and has more than nine tenths of its own area in it.
pub fn body_line_heights(pages: &Vec<Page>, text_area: &Coordinate) -> (r: Vec<i64>)
    requires
        document_wf(pages@),
        text_area.wf(),
    ensures
        r@ == body_heights(document_lines(pages@), *text_area),
        forall|i: int| 0 <= i < r@.len() ==> -2 * COORD_LIMIT <= #[trigger] r@[i] <= 2 * COORD_LIMIT,
{
    let mut font_sizes: Vec<i64> = Vec::new();
    let mut p: usize = 0;
    while p < pages.len()
        invariant
            p <= pages@.len(),
            document_wf(pages@),
            text_area.wf(),
            font_sizes@ == body_heights(document_lines(pages@.take(p as int)), *text_area),
            forall|i: int|
                0 <= i < font_sizes@.len() ==> -2 * COORD_LIMIT <= #[trigger] font_sizes@[i] <= 2
                    * COORD_LIMIT,
        decreases pages@.len() - p,
    {
        let lines: Vec<&Line> = pages[p].lines();
        let ghost before = document_lines(pages@.take(p as int));
        let ghost here = pages@[p as int].spec_lines();
        proof {
            lemma_page_lines_in_range(pages@[p as int]);
            assert(before + here.take(0) =~= before);
        }
        let mut k: usize = 0;
        while k < lines.len()
            invariant
                k <= lines@.len(),
                lines@.len() == here.len(),
                forall|n: int| 0 <= n < lines@.len() ==> *(#[trigger] lines@[n]) == here[n],
                lines_in_range(here),
                text_area.wf(),
                font_sizes@ == body_heights(before + here.take(k as int), *text_area),
                forall|i: int|
                    0 <= i < font_sizes@.len() ==> -2 * COORD_LIMIT <= #[trigger] font_sizes@[i]
                        <= 2 * COORD_LIMIT,
            decreases lines@.len() - k,
        {
            let line: &Line = lines[k];
            proof {
                assert(here[k as int].wf());
                assert((before + here.take(k + 1)).drop_last() =~= before + here.take(k as int));
                assert((before + here.take(k + 1)).last() == *line);
            }
            let line_coord: Coordinate = Coordinate::from_object(
                line.x,
                line.y,
                line.width,
                line.height,
            );
            if text_area.mostly_contains(&line_coord) {
                font_sizes.push(line.height);
            }
            k += 1;
        }
        proof {
            assert(here.take(k as int) =~= here);
            assert(pages@.take(p + 1).drop_last() =~= pages@.take(p as int));
            assert(pages@.take(p + 1).last() == pages@[p as int]);
        }
        p += 1;
    }
    assert(pages@.take(p as int) =~= pages@);
    font_sizes
}

/// The height of a line of body text in the document: the median height of
/// the lines that lie mostly inside the main text column.
pub fn get_font_sizes(pages: &Vec<Page>) -> (r: i64)
    requires
        pages@.len() > 0,
        document_wf(pages@),
        pages_have_lines(pages@),
        body_heights(document_lines(pages@), spec_text_area(pages@)).len() > 0,
    ensures
        r == spec_font_size(pages@),
{
    let text_area: Coordinate = get_text_area(pages);
    let font_sizes: Vec<i64> = body_line_heights(pages, &text_area);
    normal_font_size(&font_sizes)
}

/// The median of the heights of the body lines.
pub fn normal_font_size(heights: &Vec<i64>) -> (r: i64)
    requires
        heights@.len() > 0,
        forall|i: int|
            0 <= i < heights@.len() ==> -2 * COORD_LIMIT <= #[trigger] heights@[i] <= 2
                * COORD_LIMIT,
    ensures
        r == median_value(heights@),
        -2 * COORD_LIMIT <= r <= 2 * COORD_LIMIT,
{
    proof {
        lemma_median_within(heights@, -2 * COORD_LIMIT, 2 * COORD_LIMIT);
    }
    median_with_count(heights).0
}

/// On a well-formed page the box of every line lies within the coordinate
/// limit.
pub proof fn lemma_page_lines_in_range(page: Page)
    requires
        page.wf(),
    ensures
        lines_in_range(page.spec_lines()),
{
    lemma_blocks_lines_in_range(page.blocks@);
}

/// The lines of well-formed blocks lie within the coordinate limit.
pub proof fn lemma_blocks_lines_in_range(blocks: Seq<Block>)
    requires
        forall|i: int| 0 <= i < blocks.len() ==> (#[trigger] blocks[i]).wf(),
    ensures
        lines_in_range(lines_of(blocks)),
    decreases blocks.len(),
{
    if blocks.len() > 0 {
        let front = blocks.drop_last();
        assert forall|i: int| 0 <= i < front.len() implies (#[trigger] front[i]).wf() by {
            assert(front[i] == blocks[i]);
        }
        lemma_blocks_lines_in_range(front);
        assert(blocks.last().wf());
        let all = lines_of(blocks);
        assert forall|i: int| 0 <= i < all.len() implies (#[trigger] all[i]).wf() by {
            if i < lines_of(front).len() {
                assert(all[i] == lines_of(front)[i]);
            } else {
                assert(all[i] == blocks.last().lines@[i - lines_of(front).len()]);
            }
        }
    }
}

/// On a well-formed page that holds a line, the four extents lie within
/// the coordinate limit.
pub proof fn lemma_extents_in_range(page: Page)
    requires
        page.wf(),
        page.spec_lines().len() > 0,
    ensures
        in_range(page.spec_top() as int),
        in_range(page.spec_bottom() as int),
        in_range(page.spec_left() as int),
        in_range(page.spec_right() as int),
{
    let lines = page.spec_lines();
    lemma_page_lines_in_range(page);
    lemma_page_extents(page);
    let t = choose|i: int| 0 <= i < lines.len() && (#[trigger] lines[i]).y == page.spec_top();
    assert(lines[t].wf());
    let b = choose|i: int|
        0 <= i < lines.len() && (#[trigger] lines[i]).y + lines[i].height == page.spec_bottom();
    assert(lines[b].wf());
    let l = choose|i: int| 0 <= i < lines.len() && (#[trigger] lines[i]).x == page.spec_left();
    assert(lines[l].wf());
    let r = choose|i: int|
        0 <= i < lines.len() && (#[trigger] lines[i]).x + lines[i].width == page.spec_right();
    assert(lines[r].wf());
}

/// A line whose box does not overlap the area is no body line, whatever
/// its size.
pub proof fn lemma_line_outside_is_no_body_line(line: Line, area: Coordinate)
    requires
        !area.spec_is_intercept(line.spec_box()),
    ensures
        body_height(line, area) is None,
{
}

/// The body heights of a list of lines with one more line: the further
/// line's height is added where that line lies mostly inside the area, and
/// nothing is added where it does not.
pub proof fn lemma_body_heights_push(lines: Seq<Line>, line: Line, area: Coordinate)
    ensures
        body_heights(lines.push(line), area) == if area.spec_mostly_contains(line.spec_box()) {
            body_heights(lines, area).push(line.height)
        } else {
            body_heights(lines, area)
        },
{
    assert(lines.push(line).drop_last() =~= lines);
    assert(body_heights(lines, area) + seq![line.height] =~= body_heights(lines, area).push(
        line.height,
    ));
}

} // verus!
