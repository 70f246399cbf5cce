//! The document model: pages hold blocks, blocks hold lines, lines hold
//! words. Every level carries its own box as it was given; none is computed
//! from the level below.

use crate::geometry::{in_range, rect, Coordinate};
use crate::text::{trim_text, trimmed};
use vstd::prelude::*;

verus! {

/// What a block is taken for.
#[derive(Debug, Clone, Copy, PartialEq, Eq, Structural)]
pub enum BlockAttr {
    /// A heading.
    Title,
    /// Body text.
    Text,
    /// Neither of the two.
    Else,
}

/// A word: its text, and its box by top-left corner and extent.
#[derive(Debug, Clone, PartialEq)]
pub struct Word {
    pub text: String,
    pub x: i64,
    pub y: i64,
    pub width: i64,
    pub height: i64,
}

/// A line: its words in reading order, and its box.
#[derive(Debug, Clone, PartialEq)]
pub struct Line {
    pub words: Vec<Word>,
    pub x: i64,
    pub y: i64,
    pub width: i64,
    pub height: i64,
}

/// A block: its lines in reading order, its box, and what it is taken for.
#[derive(Debug, Clone, PartialEq)]
pub struct Block {
    pub lines: Vec<Line>,
    pub x: i64,
    pub y: i64,
    pub width: i64,
    pub height: i64,
    pub attr: BlockAttr,
}

/// A page: its blocks in reading order, and its size.
#[derive(Debug, Clone, PartialEq)]
pub struct Page {
    pub blocks: Vec<Block>,
    pub width: i64,
    pub height: i64,
}

/// The box with top-left corner `(x, y)` and the given extent has both
/// corners within the coordinate limit.
pub open spec fn box_in_range(x: i64, y: i64, width: i64, height: i64) -> bool {
    &&& in_range(x as int)
    &&& in_range(y as int)
    &&& in_range(x + width)
    &&& in_range(y + height)
}

/// The least of the values; of no values, arbitrary.
pub open spec fn least(values: Seq<i64>) -> i64
    decreases values.len(),
{
    if values.len() <= 1 {
        values[0]
    } else {
        let rest = least(values.drop_last());
        if values.last() < rest {
            values.last()
        } else {
            rest
        }
    }
}

/// The greatest of the values; of no values, arbitrary.
pub open spec fn greatest(values: Seq<i64>) -> i64
    decreases values.len(),
{
    if values.len() <= 1 {
        values[0]
    } else {
        let rest = greatest(values.drop_last());
        if values.last() > rest {
            values.last()
        } else {
            rest
        }
    }
}

/// The words' texts with one space between neighbours.
pub open spec fn joined_words(words: Seq<Word>) -> Seq<char>
    decreases words.len(),
{
    if words.len() == 0 {
        Seq::empty()
    } else if words.len() == 1 {
        words[0].text@
    } else {
        joined_words(words.drop_last()) + seq![' '] + words.last().text@
    }
}

/// The lines' texts, each followed by a line feed.
pub open spec fn stacked_lines(lines: Seq<Line>) -> Seq<char>
    decreases lines.len(),
{
    if lines.len() == 0 {
        Seq::empty()
    } else {
        stacked_lines(lines.drop_last()) + lines.last().spec_text() + seq!['\n']
    }
}

/// The blocks' texts, each followed by two line feeds.
pub open spec fn stacked_blocks(blocks: Seq<Block>) -> Seq<char>
    decreases blocks.len(),
{
    if blocks.len() == 0 {
        Seq::empty()
    } else {
        stacked_blocks(blocks.drop_last()) + blocks.last().spec_text() + seq!['\n', '\n']
    }
}

/// The lines of all the blocks, in order.
pub open spec fn lines_of(blocks: Seq<Block>) -> Seq<Line>
    decreases blocks.len(),
{
    if blocks.len() == 0 {
        Seq::empty()
    } else {
        lines_of(blocks.drop_last()) + blocks.last().lines@
    }
}

/// The y of each line's top edge.
pub open spec fn line_tops(lines: Seq<Line>) -> Seq<i64> {
    Seq::new(lines.len(), |i: int| lines[i].y)
}

/// The y of each line's bottom edge.
pub open spec fn line_bottoms(lines: Seq<Line>) -> Seq<i64> {
    Seq::new(lines.len(), |i: int| (lines[i].y + lines[i].height) as i64)
}

/// The x of each line's left edge.
pub open spec fn line_lefts(lines: Seq<Line>) -> Seq<i64> {
    Seq::new(lines.len(), |i: int| lines[i].x)
}

/// The x of each line's right edge.
pub open spec fn line_rights(lines: Seq<Line>) -> Seq<i64> {
    Seq::new(lines.len(), |i: int| (lines[i].x + lines[i].width) as i64)
}

/// Every line's box has both corners within the coordinate limit.
pub open spec fn lines_in_range(lines: Seq<Line>) -> bool {
    forall|i: int| 0 <= i < lines.len() ==> (#[trigger] lines[i]).wf()
}

impl Word {
    /// The word's height.
    pub fn font_size(&self) -> (r: i64)
        ensures
            r == self.height,
    {
        self.height
    }
}

impl Line {
    /// Both corners of the line's box lie within the coordinate limit.
    pub open spec fn wf(self) -> bool {
        box_in_range(self.x, self.y, self.width, self.height)
    }

    /// The line's box as a rectangle.
    pub open spec fn spec_box(self) -> Coordinate {
        rect(self.x as int, self.y as int, self.x + self.width, self.y + self.height)
    }

    pub open spec fn spec_text(self) -> Seq<char> {
        joined_words(self.words@)
    }

    /// A line without words.
    pub fn new(x: i64, y: i64, width: i64, height: i64) -> (r: Line)
        ensures
            r.words@.len() == 0,
            r.x == x,
            r.y == y,
            r.width == width,
            r.height == height,
    {
        Line { words: Vec::new(), x: x, y: y, width: width, height: height }
    }

    /// Appends a word. Its text is kept without leading and trailing white
    /// space.
    pub fn add_word(&mut self, text: String, x: i64, y: i64, width: i64, height: i64)
        ensures
            final(self).words@.len() == old(self).words@.len() + 1,
            final(self).words@.drop_last() == old(self).words@,
            final(self).words@.last().text@ == trimmed(text@),
            final(self).words@.last().x == x,
            final(self).words@.last().y == y,
            final(self).words@.last().width == width,
            final(self).words@.last().height == height,
            final(self).x == old(self).x,
            final(self).y == old(self).y,
            final(self).width == old(self).width,
            final(self).height == old(self).height,
    {
        let kept: String = trim_text(text.as_str()).to_owned();
        self.words.push(Word { text: kept, x: x, y: y, width: width, height: height });
        assert(self.words@.drop_last() =~= old(self).words@);
    }

    /// The words' texts, joined by single spaces.
    pub fn get_text(&self) -> (r: String)
        ensures
            r@ == self.spec_text(),
    {
        let mut text: String = String::new();
        let mut i: usize = 0;
        while i < self.words.len()
            invariant
                i <= self.words@.len(),
                text@ == joined_words(self.words@.take(i as int)),
            decreases self.words@.len() - i,
        {
            proof {
                reveal_strlit(" ");
                assert(self.words@.take(i + 1).drop_last() =~= self.words@.take(i as int));
                assert(" "@ =~= seq![' ']);
            }
            if i > 0 {
                text.append(" ");
            }
            text.append(self.words[i].text.as_str());
            i += 1;
        }
        assert(self.words@.take(i as int) =~= self.words@);
        text
    }
}

impl Block {
    /// Both corners of the block's box, and of the box of each of its
    /// lines, lie within the coordinate limit.
    pub open spec fn wf(self) -> bool {
        &&& box_in_range(self.x, self.y, self.width, self.height)
        &&& lines_in_range(self.lines@)
    }

    /// The block's box as a rectangle.
    pub open spec fn spec_box(self) -> Coordinate {
        rect(self.x as int, self.y as int, self.x + self.width, self.y + self.height)
    }

    pub open spec fn spec_text(self) -> Seq<char> {
        stacked_lines(self.lines@)
    }

    /// A block without lines, taken for neither title nor text.
    pub fn new(x: i64, y: i64, width: i64, height: i64) -> (r: Block)
        ensures
            r.lines@.len() == 0,
            r.x == x,
            r.y == y,
            r.width == width,
            r.height == height,
            r.attr == BlockAttr::Else,
    {
        Block {
            lines: Vec::new(),
            x: x,
            y: y,
            width: width,
            height: height,
            attr: BlockAttr::Else,
        }
    }

    /// Appends a line without words.
    pub fn add_line(&mut self, x: i64, y: i64, width: i64, height: i64)
        ensures
            final(self).lines@.len() == old(self).lines@.len() + 1,
            final(self).lines@.drop_last() == old(self).lines@,
            final(self).lines@.last().words@.len() == 0,
            final(self).lines@.last().x == x,
            final(self).lines@.last().y == y,
            final(self).lines@.last().width == width,
            final(self).lines@.last().height == height,
            final(self).x == old(self).x,
            final(self).y == old(self).y,
            final(self).width == old(self).width,
            final(self).height == old(self).height,
            final(self).attr == old(self).attr,
    {
        self.lines.push(Line::new(x, y, width, height));
        assert(self.lines@.drop_last() =~= old(self).lines@);
    }

    /// The lines' texts, each followed by a line feed.
    pub fn get_text(&self) -> (r: String)
        ensures
            r@ == self.spec_text(),
    {
        let mut text: String = String::new();
        let mut i: usize = 0;
        while i < self.lines.len()
            invariant
                i <= self.lines@.len(),
                text@ == stacked_lines(self.lines@.take(i as int)),
            decreases self.lines@.len() - i,
        {
            proof {
                reveal_strlit("\n");
                assert(self.lines@.take(i + 1).drop_last() =~= self.lines@.take(i as int));
                assert("\n"@ =~= seq!['\n']);
            }
            let line_text: String = self.lines[i].get_text();
            text.append(line_text.as_str());
            text.append("\n");
            i += 1;
        }
        assert(self.lines@.take(i as int) =~= self.lines@);
        text
    }
}

impl Page {
    /// Every block of the page is well-formed.
    pub open spec fn wf(self) -> bool {
        forall|i: int| 0 <= i < self.blocks@.len() ==> (#[trigger] self.blocks@[i]).wf()
    }

    /// All lines on the page, block by block.
    pub open spec fn spec_lines(self) -> Seq<Line> {
        lines_of(self.blocks@)
    }

    pub open spec fn spec_text(self) -> Seq<char> {
        stacked_blocks(self.blocks@)
    }

    /// The least y of a line's top edge.
    pub open spec fn spec_top(self) -> i64 {
        least(line_tops(self.spec_lines()))
    }

    /// The greatest y of a line's bottom edge.
    pub open spec fn spec_bottom(self) -> i64 {
        greatest(line_bottoms(self.spec_lines()))
    }

    /// The least x of a line's left edge.
    pub open spec fn spec_left(self) -> i64 {
        least(line_lefts(self.spec_lines()))
    }

    /// The greatest x of a line's right edge.
    pub open spec fn spec_right(self) -> i64 {
        greatest(line_rights(self.spec_lines()))
    }

    /// A page without blocks.
    pub fn new(width: i64, height: i64) -> (r: Page)
        ensures
            r.blocks@.len() == 0,
            r.width == width,
            r.height == height,
    {
        Page { blocks: Vec::new(), width: width, height: height }
    }

    /// Appends a block without lines.
    pub fn add_block(&mut self, x: i64, y: i64, width: i64, height: i64)
        ensures
            final(self).blocks@.len() == old(self).blocks@.len() + 1,
            final(self).blocks@.drop_last() == old(self).blocks@,
            final(self).blocks@.last().lines@.len() == 0,
            final(self).blocks@.last().x == x,
            final(self).blocks@.last().y == y,
            final(self).blocks@.last().width == width,
            final(self).blocks@.last().height == height,
            final(self).blocks@.last().attr == BlockAttr::Else,
            final(self).width == old(self).width,
            final(self).height == old(self).height,
    {
        self.blocks.push(Block::new(x, y, width, height));
        assert(self.blocks@.drop_last() =~= old(self).blocks@);
    }

    /// The blocks' texts, each followed by two line feeds.
    pub fn get_text(&self) -> (r: String)
        ensures
            r@ == self.spec_text(),
    {
        let mut text: String = String::new();
        let mut i: usize = 0;
        while i < self.blocks.len()
            invariant
                i <= self.blocks@.len(),
                text@ == stacked_blocks(self.blocks@.take(i as int)),
            decreases self.blocks@.len() - i,
        {
            proof {
                reveal_strlit("\n\n");
                assert(self.blocks@.take(i + 1).drop_last() =~= self.blocks@.take(i as int));
                assert("\n\n"@ =~= seq!['\n', '\n']);
            }
            let block_text: String = self.blocks[i].get_text();
            text.append(block_text.as_str());
            text.append("\n\n");
            i += 1;
        }
        assert(self.blocks@.take(i as int) =~= self.blocks@);
        text
    }

    /// Whether the page holds any line.
    pub fn has_lines(&self) -> (r: bool)
        ensures
            r == (self.spec_lines().len() > 0),
    {
        let mut i: usize = 0;
        while i < self.blocks.len()
            invariant
                i <= self.blocks@.len(),
                lines_of(self.blocks@.take(i as int)).len() == 0,
            decreases self.blocks@.len() - i,
        {
            proof {
                assert(self.blocks@.take(i + 1).drop_last() =~= self.blocks@.take(i as int));
                assert(self.blocks@.take(i + 1).last() == self.blocks@[i as int]);
                if self.blocks@[i as int].lines@.len() > 0 {
                    lemma_lines_of_concat(
                        self.blocks@.take(i + 1),
                        self.blocks@.skip(i + 1),
                    );
                    assert(self.blocks@.take(i + 1) + self.blocks@.skip(i + 1) =~= self.blocks@);
                }
            }
            if self.blocks[i].lines.len() > 0 {
                return true;
            }
            i += 1;
        }
        assert(self.blocks@.take(i as int) =~= self.blocks@);
        false
    }

    /// All lines on the page, block by block.
    pub fn lines(&self) -> (r: Vec<&Line>)
        ensures
            r@.len() == self.spec_lines().len(),
            forall|k: int| 0 <= k < r@.len() ==> *(#[trigger] r@[k]) == self.spec_lines()[k],
    {
        let mut found: Vec<&Line> = Vec::new();
        let mut i: usize = 0;
        while i < self.blocks.len()
            invariant
                i <= self.blocks@.len(),
                found@.len() == lines_of(self.blocks@.take(i as int)).len(),
                forall|k: int|
                    0 <= k < found@.len() ==> *(#[trigger] found@[k]) == lines_of(
                        self.blocks@.take(i as int),
                    )[k],
            decreases self.blocks@.len() - i,
        {
            let block: &Block = &self.blocks[i];
            let ghost before = lines_of(self.blocks@.take(i as int));
            let mut j: usize = 0;
            while j < block.lines.len()
                invariant
                    j <= block.lines@.len(),
                    found@.len() == before.len() + j,
                    forall|k: int| 0 <= k < before.len() ==> *(#[trigger] found@[k]) == before[k],
                    forall|k: int|
                        before.len() <= k < found@.len() ==> *(#[trigger] found@[k])
                            == block.lines@[k - before.len()],
                decreases block.lines@.len() - j,
            {
                found.push(&block.lines[j]);
                j += 1;
            }
            proof {
                assert(self.blocks@.take(i + 1).drop_last() =~= self.blocks@.take(i as int));
                assert(self.blocks@.take(i + 1).last() == *block);
            }
            i += 1;
        }
        assert(self.blocks@.take(i as int) =~= self.blocks@);
        found
    }

    /// The top of the page's text: the least y of any line's top edge.
    pub fn top(&self) -> (r: i64)
        requires
            self.spec_lines().len() > 0,
        ensures
            r == self.spec_top(),
    {
        let lines: Vec<&Line> = self.lines();
        let ghost all = self.spec_lines();
        let mut best: i64 = lines[0].y;
        let mut k: usize = 1;
        assert(line_tops(all.take(1)) =~= seq![all[0].y]);
        while k < lines.len()
            invariant
                1 <= k <= lines@.len(),
                lines@.len() == all.len(),
                forall|n: int| 0 <= n < lines@.len() ==> *(#[trigger] lines@[n]) == all[n],
                best == least(line_tops(all.take(k as int))),
            decreases lines@.len() - k,
        {
            proof {
                assert(line_tops(all.take(k + 1)).drop_last() =~= line_tops(all.take(k as int)));
            }
            if lines[k].y < best {
                best = lines[k].y;
            }
            k += 1;
        }
        assert(all.take(k as int) =~= all);
        best
    }

    /// The bottom of the page's text: the greatest y of any line's bottom
    /// edge.
    pub fn bottom(&self) -> (r: i64)
        requires
            self.spec_lines().len() > 0,
            lines_in_range(self.spec_lines()),
        ensures
            r == self.spec_bottom(),
    {
        let lines: Vec<&Line> = self.lines();
        let ghost all = self.spec_lines();
        assert(all[0].wf());
        let mut best: i64 = lines[0].y + lines[0].height;
        let mut k: usize = 1;
        assert(line_bottoms(all.take(1)) =~= seq![(all[0].y + all[0].height) as i64]);
        while k < lines.len()
            invariant
                1 <= k <= lines@.len(),
                lines@.len() == all.len(),
                lines_in_range(all),
                forall|n: int| 0 <= n < lines@.len() ==> *(#[trigger] lines@[n]) == all[n],
                best == greatest(line_bottoms(all.take(k as int))),
            decreases lines@.len() - k,
        {
            proof {
                assert(line_bottoms(all.take(k + 1)).drop_last() =~= line_bottoms(
                    all.take(k as int),
                ));
                assert(all[k as int].wf());
            }
            let edge: i64 = lines[k].y + lines[k].height;
            if edge > best {
                best = edge;
            }
            k += 1;
        }
        assert(all.take(k as int) =~= all);
        best
    }

    /// The left of the page's text: the least x of any line's left edge.
    pub fn left(&self) -> (r: i64)
        requires
            self.spec_lines().len() > 0,
        ensures
            r == self.spec_left(),
    {
        let lines: Vec<&Line> = self.lines();
        let ghost all = self.spec_lines();
        let mut best: i64 = lines[0].x;
        let mut k: usize = 1;
        assert(line_lefts(all.take(1)) =~= seq![all[0].x]);
        while k < lines.len()
            invariant
                1 <= k <= lines@.len(),
                lines@.len() == all.len(),
                forall|n: int| 0 <= n < lines@.len() ==> *(#[trigger] lines@[n]) == all[n],
                best == least(line_lefts(all.take(k as int))),
            decreases lines@.len() - k,
        {
            proof {
                assert(line_lefts(all.take(k + 1)).drop_last() =~= line_lefts(all.take(k as int)));
            }
            if lines[k].x < best {
                best = lines[k].x;
            }
            k += 1;
        }
        assert(all.take(k as int) =~= all);
        best
    }

    /// The right of the page's text: the greatest x of any line's right
    /// edge.
    pub fn right(&self) -> (r: i64)
        requires
            self.spec_lines().len() > 0,
            lines_in_range(self.spec_lines()),
        ensures
            r == self.spec_right(),
    {
        let lines: Vec<&Line> = self.lines();
        let ghost all = self.spec_lines();
        assert(all[0].wf());
        let mut best: i64 = lines[0].x + lines[0].width;
        let mut k: usize = 1;
        assert(line_rights(all.take(1)) =~= seq![(all[0].x + all[0].width) as i64]);
        while k < lines.len()
            invariant
                1 <= k <= lines@.len(),
                lines@.len() == all.len(),
                lines_in_range(all),
                forall|n: int| 0 <= n < lines@.len() ==> *(#[trigger] lines@[n]) == all[n],
                best == greatest(line_rights(all.take(k as int))),
            decreases lines@.len() - k,
        {
            proof {
                assert(line_rights(all.take(k + 1)).drop_last() =~= line_rights(
                    all.take(k as int),
                ));
                assert(all[k as int].wf());
            }
            let edge: i64 = lines[k].x + lines[k].width;
            if edge > best {
                best = edge;
            }
            k += 1;
        }
        assert(all.take(k as int) =~= all);
        best
    }
}

/// The least of a list that is not empty is one of its values, and no value
/// is below it.
pub proof fn lemma_least(values: Seq<i64>)
    requires
        values.len() > 0,
    ensures
        values.contains(least(values)),
        forall|i: int| 0 <= i < values.len() ==> least(values) <= #[trigger] values[i],
    decreases values.len(),
{
    if values.len() > 1 {
        let front = values.drop_last();
        lemma_least(front);
        let k = choose|k: int| 0 <= k < front.len() && front[k] == least(front);
        assert(values[k] == least(front));
        assert forall|i: int| 0 <= i < values.len() implies least(values) <= #[trigger] values[i] by {
            if i < front.len() {
                assert(front[i] == values[i]);
            }
        }
        assert(values[values.len() - 1] == values.last());
    } else {
        assert(values[0] == least(values));
    }
}

/// The greatest of a list that is not empty is one of its values, and no
/// value is above it.
pub proof fn lemma_greatest(values: Seq<i64>)
    requires
        values.len() > 0,
    ensures
        values.contains(greatest(values)),
        forall|i: int| 0 <= i < values.len() ==> greatest(values) >= #[trigger] values[i],
    decreases values.len(),
{
    if values.len() > 1 {
        let front = values.drop_last();
        lemma_greatest(front);
        let k = choose|k: int| 0 <= k < front.len() && front[k] == greatest(front);
        assert(values[k] == greatest(front));
        assert forall|i: int| 0 <= i < values.len() implies greatest(values)
            >= #[trigger] values[i] by {
            if i < front.len() {
                assert(front[i] == values[i]);
            }
        }
        assert(values[values.len() - 1] == values.last());
    } else {
        assert(values[0] == greatest(values));
    }
}

/// A page's extents are the outermost edges of its lines: no line reaches
/// beyond them, and each is the edge of some line.
pub proof fn lemma_page_extents(page: Page)
    requires
        page.spec_lines().len() > 0,
        lines_in_range(page.spec_lines()),
    ensures
        forall|i: int|
            0 <= i < page.spec_lines().len() ==> {
                let line = #[trigger] page.spec_lines()[i];
                &&& page.spec_top() <= line.y
                &&& line.y + line.height <= page.spec_bottom()
                &&& page.spec_left() <= line.x
                &&& line.x + line.width <= page.spec_right()
            },
        exists|i: int|
            0 <= i < page.spec_lines().len() && (#[trigger] page.spec_lines()[i]).y
                == page.spec_top(),
        exists|i: int|
            0 <= i < page.spec_lines().len() && (#[trigger] page.spec_lines()[i]).y
                + page.spec_lines()[i].height == page.spec_bottom(),
        exists|i: int|
            0 <= i < page.spec_lines().len() && (#[trigger] page.spec_lines()[i]).x
                == page.spec_left(),
        exists|i: int|
            0 <= i < page.spec_lines().len() && (#[trigger] page.spec_lines()[i]).x
                + page.spec_lines()[i].width == page.spec_right(),
{
    let lines = page.spec_lines();
    lemma_least(line_tops(lines));
    lemma_least(line_lefts(lines));
    lemma_greatest(line_bottoms(lines));
    lemma_greatest(line_rights(lines));
    assert forall|i: int| 0 <= i < lines.len() implies {
        let line = #[trigger] lines[i];
        &&& page.spec_top() <= line.y
        &&& line.y + line.height <= page.spec_bottom()
        &&& page.spec_left() <= line.x
        &&& line.x + line.width <= page.spec_right()
    } by {
        assert(lines[i].wf());
        assert(line_tops(lines)[i] == lines[i].y);
        assert(line_lefts(lines)[i] == lines[i].x);
        assert(line_bottoms(lines)[i] == lines[i].y + lines[i].height);
        assert(line_rights(lines)[i] == lines[i].x + lines[i].width);
    }
    let t = choose|i: int| 0 <= i < lines.len() && line_tops(lines)[i] == least(line_tops(lines));
    assert(lines[t].y == page.spec_top());
    let l = choose|i: int|
        0 <= i < lines.len() && line_lefts(lines)[i] == least(line_lefts(lines));
    assert(lines[l].x == page.spec_left());
    let b = choose|i: int|
        0 <= i < lines.len() && line_bottoms(lines)[i] == greatest(line_bottoms(lines));
    assert(lines[b].wf());
    assert(lines[b].y + lines[b].height == page.spec_bottom());
    let r = choose|i: int|
        0 <= i < lines.len() && line_rights(lines)[i] == greatest(line_rights(lines));
    assert(lines[r].wf());
    assert(lines[r].x + lines[r].width == page.spec_right());
}

/// The lines of a list of blocks are those of its front part followed by
/// those of its back part.
pub proof fn lemma_lines_of_concat(front: Seq<Block>, back: Seq<Block>)
    ensures
        lines_of(front + back) == lines_of(front) + lines_of(back),
    decreases back.len(),
{
    if back.len() == 0 {
        assert(front + back =~= front);
        assert(lines_of(front) + lines_of(back) =~= lines_of(front));
    } else {
        lemma_lines_of_concat(front, back.drop_last());
        assert((front + back).drop_last() =~= front + back.drop_last());
        assert((front + back).last() == back.last());
        assert(lines_of(front + back) =~= lines_of(front) + lines_of(back));
    }
}

} // verus!
