//! The decision, block by block, between title, text and neither.

use crate::geometry::Coordinate;
use crate::layout::{box_in_range, Block, BlockAttr, Line, Page};
use vstd::prelude::*;

verus! {

/// The sum of the lines' heights.
pub open spec fn heights_sum(lines: Seq<Line>) -> int
    decreases lines.len(),
{
    if lines.len() == 0 {
        0
    } else {
        heights_sum(lines.drop_last()) + lines.last().height
    }
}

/// The block's own font size, the mean of its lines' heights, is above
/// `font_size`. The block has lines; the quotient is compared by cross
/// multiplication.
pub open spec fn font_exceeds(block: Block, font_size: i64) -> bool {
    heights_sum(block.lines@) > font_size * block.lines@.len()
}

/// What a block is taken for, given the document's normal font size and
/// main text column. The first rule that matches decides:
/// a block that lies mostly inside the column, has exactly one line and a
/// font size above the normal one is a title; a block that lies mostly
/// inside the column and has more than one line is text; any other block
/// is neither.
pub open spec fn spec_block_attr(block: Block, font_size: i64, text_area: Coordinate) -> BlockAttr {
    let inside = text_area.spec_mostly_contains(block.spec_box());
    if inside && block.lines@.len() == 1 && font_exceeds(block, font_size) {
        BlockAttr::Title
    } else if inside && block.lines@.len() > 1 {
        BlockAttr::Text
    } else {
        BlockAttr::Else
    }
}

/// `after` is `before` with its attribute set by the rules, and nothing
/// else changed.
pub open spec fn block_classified(
    before: Block,
    after: Block,
    font_size: i64,
    text_area: Coordinate,
) -> bool {
    &&& after.lines == before.lines
    &&& after.x == before.x
    &&& after.y == before.y
    &&& after.width == before.width
    &&& after.height == before.height
    &&& after.attr == spec_block_attr(before, font_size, text_area)
}

/// `after` is `before` with every block's attribute set by the rules, and
/// nothing else changed.
pub open spec fn page_classified(
    before: Page,
    after: Page,
    font_size: i64,
    text_area: Coordinate,
) -> bool {
    &&& after.width == before.width
    &&& after.height == before.height
    &&& after.blocks@.len() == before.blocks@.len()
    &&& forall|j: int|
        0 <= j < before.blocks@.len() ==> block_classified(
            before.blocks@[j],
            #[trigger] after.blocks@[j],
            font_size,
            text_area,
        )
}

/// `after` is the document `before` with every block's attribute set by the
/// rules, and nothing else changed.
pub open spec fn document_classified(
    before: Seq<Page>,
    after: Seq<Page>,
    font_size: i64,
    text_area: Coordinate,
) -> bool {
    &&& after.len() == before.len()
    &&& forall|i: int|
        0 <= i < before.len() ==> page_classified(
            before[i],
            #[trigger] after[i],
            font_size,
            text_area,
        )
}

/// The box of every block lies within the coordinate limit.
pub open spec fn blocks_in_range(pages: Seq<Page>) -> bool {
    forall|i: int, j: int|
        0 <= i < pages.len() && 0 <= j < pages[i].blocks@.len() ==> box_in_range(
            (#[trigger] pages[i].blocks@[j]).x,
            pages[i].blocks@[j].y,
            pages[i].blocks@[j].width,
            pages[i].blocks@[j].height,
        )
}

/// What the block is taken for, given the document's normal font size and
/// main text column.
pub fn get_block_attr(block: &Block, font_size: i64, text_area: &Coordinate) -> (r: BlockAttr)
    requires
        box_in_range(block.x, block.y, block.width, block.height),
        text_area.wf(),
    ensures
        r == spec_block_attr(*block, font_size, *text_area),
{
    let num_lines: usize = block.lines.len();
    let mut total: i128 = 0;
    let mut i: usize = 0;
    while i < num_lines
        invariant
            i <= num_lines,
            num_lines == block.lines@.len(),
            total == heights_sum(block.lines@.take(i as int)),
            -(i * 0x8000_0000_0000_0000) <= total <= i * 0x8000_0000_0000_0000,
        decreases num_lines - i,
    {
        proof {
            assert(block.lines@.take(i + 1).drop_last() =~= block.lines@.take(i as int));
            assert((i + 1) * 0x8000_0000_0000_0000 == i * 0x8000_0000_0000_0000
                + 0x8000_0000_0000_0000) by (nonlinear_arith);
            assert(i * 0x8000_0000_0000_0000 <= 0xffff_ffff_ffff_ffff * 0x8000_0000_0000_0000)
                by (nonlinear_arith)
                requires
                    0 <= i <= 0xffff_ffff_ffff_ffff,
            ;
        }
        total = total + block.lines[i].height as i128;
        i += 1;
    }
    proof {
        assert(block.lines@.take(i as int) =~= block.lines@);
        assert(-(0xffff_ffff_ffff_ffff * 0x8000_0000_0000_0000) <= font_size * num_lines
            <= 0xffff_ffff_ffff_ffff * 0x8000_0000_0000_0000) by (nonlinear_arith)
            requires
                0 <= num_lines <= 0xffff_ffff_ffff_ffff,
                -0x8000_0000_0000_0000 <= font_size <= 0x8000_0000_0000_0000,
        ;
    }
    let block_coord: Coordinate = Coordinate::from_object(
        block.x,
        block.y,
        block.width,
        block.height,
    );
    let is_in_text_area: bool = text_area.mostly_contains(&block_coord);
    let is_large: bool = total > (font_size as i128) * (num_lines as i128);
    if is_in_text_area && num_lines == 1 && is_large {
        BlockAttr::Title
    } else if is_in_text_area && num_lines > 1 {
        BlockAttr::Text
    } else {
        BlockAttr::Else
    }
}

/// Sets the attribute of every block of the page by the rules.
pub fn classify_page(page: &mut Page, font_size: i64, text_area: &Coordinate)
    requires
        forall|j: int|
            0 <= j < old(page).blocks@.len() ==> box_in_range(
                (#[trigger] old(page).blocks@[j]).x,
                old(page).blocks@[j].y,
                old(page).blocks@[j].width,
                old(page).blocks@[j].height,
            ),
        text_area.wf(),
    ensures
        page_classified(*old(page), *final(page), font_size, *text_area),
{
    let mut j: usize = 0;
    while j < page.blocks.len()
        invariant
            j <= page.blocks@.len(),
            text_area.wf(),
            page.width == old(page).width,
            page.height == old(page).height,
            page.blocks@.len() == old(page).blocks@.len(),
            forall|k: int|
                0 <= k < j ==> block_classified(
                    old(page).blocks@[k],
                    #[trigger] page.blocks@[k],
                    font_size,
                    *text_area,
                ),
            forall|k: int| j <= k < page.blocks@.len() ==> page.blocks@[k] == old(page).blocks@[k],
            forall|k: int|
                0 <= k < old(page).blocks@.len() ==> box_in_range(
                    (#[trigger] old(page).blocks@[k]).x,
                    old(page).blocks@[k].y,
                    old(page).blocks@[k].width,
                    old(page).blocks@[k].height,
                ),
        decreases page.blocks@.len() - j,
    {
        let attr: BlockAttr = get_block_attr(&page.blocks[j], font_size, text_area);
        page.blocks[j].attr = attr;
        j += 1;
    }
}

/// Sets the attribute of every block of the document by the rules.
pub fn classify_blocks(pages: &mut Vec<Page>, font_size: i64, text_area: &Coordinate)
    requires
        blocks_in_range(old(pages)@),
        text_area.wf(),
    ensures
        document_classified(old(pages)@, final(pages)@, font_size, *text_area),
{
    let mut i: usize = 0;
    while i < pages.len()
        invariant
            i <= pages@.len(),
            text_area.wf(),
            blocks_in_range(old(pages)@),
            pages@.len() == old(pages)@.len(),
            forall|k: int|
                0 <= k < i ==> page_classified(
                    old(pages)@[k],
                    #[trigger] pages@[k],
                    font_size,
                    *text_area,
                ),
            forall|k: int| i <= k < pages@.len() ==> pages@[k] == old(pages)@[k],
        decreases pages@.len() - i,
    {
        classify_page(&mut pages[i], font_size, text_area);
        i += 1;
    }
}

/// What a block is taken for depends on its box and its lines alone, not
/// on what it was taken for before.
pub proof fn lemma_attr_from_box_and_lines(
    a: Block,
    b: Block,
    font_size: i64,
    text_area: Coordinate,
)
    requires
        a.lines == b.lines,
        a.x == b.x,
        a.y == b.y,
        a.width == b.width,
        a.height == b.height,
    ensures
        spec_block_attr(a, font_size, text_area) == spec_block_attr(b, font_size, text_area),
{
}

/// Classifying a document that was classified with the same font size and
/// text column changes no attribute.
pub proof fn lemma_classification_idempotent(
    before: Seq<Page>,
    once: Seq<Page>,
    twice: Seq<Page>,
    font_size: i64,
    text_area: Coordinate,
)
    requires
        document_classified(before, once, font_size, text_area),
        document_classified(once, twice, font_size, text_area),
    ensures
        twice.len() == once.len(),
        forall|i: int, j: int|
            0 <= i < once.len() && 0 <= j < once[i].blocks@.len() ==> (
            #[trigger] twice[i].blocks@[j]).attr == once[i].blocks@[j].attr,
{
    assert forall|i: int, j: int|
        0 <= i < once.len() && 0 <= j < once[i].blocks@.len() implies (
    #[trigger] twice[i].blocks@[j]).attr == once[i].blocks@[j].attr by {
        assert(page_classified(before[i], once[i], font_size, text_area));
        assert(page_classified(once[i], twice[i], font_size, text_area));
        assert(block_classified(
            before[i].blocks@[j],
            once[i].blocks@[j],
            font_size,
            text_area,
        ));
        assert(block_classified(once[i].blocks@[j], twice[i].blocks@[j], font_size, text_area));
        lemma_attr_from_box_and_lines(
            before[i].blocks@[j],
            once[i].blocks@[j],
            font_size,
            text_area,
        );
    }
}

/// A block that does not lie mostly inside the text column is neither
/// title nor text, however many lines it has.
pub proof fn lemma_outside_block_is_else(block: Block, font_size: i64, text_area: Coordinate)
    requires
        !text_area.spec_mostly_contains(block.spec_box()),
    ensures
        spec_block_attr(block, font_size, text_area) == BlockAttr::Else,
{
}

/// A block of one line that lies mostly inside the text column is a title
/// where the line is higher than the normal font size, and neither title
/// nor text where it is not.
pub proof fn lemma_single_line_block(block: Block, font_size: i64, text_area: Coordinate)
    requires
        text_area.spec_mostly_contains(block.spec_box()),
        block.lines@.len() == 1,
    ensures
        spec_block_attr(block, font_size, text_area) == if block.lines@[0].height > font_size {
            BlockAttr::Title
        } else {
            BlockAttr::Else
        },
{
    assert(block.lines@.drop_last().len() == 0);
    assert(heights_sum(block.lines@) == block.lines@[0].height) by {
        reveal_with_fuel(heights_sum, 2);
    }
}

/// A block of more than one line that lies mostly inside the text column
/// is text, whatever the height of its lines.
pub proof fn lemma_many_lines_are_text(block: Block, font_size: i64, text_area: Coordinate)
    requires
        text_area.spec_mostly_contains(block.spec_box()),
        block.lines@.len() > 1,
    ensures
        spec_block_attr(block, font_size, text_area) == BlockAttr::Text,
{
}

} // verus!
