//! The raw records that a layout extractor hands over, and the building of
//! the document model from them.
//!
//! A record carries the attributes of one page, block, line or word as the
//! extractor wrote them: text, or nothing where the attribute is missing.

use crate::geometry::in_range;
use crate::layout::{Block, BlockAttr, Line, Page, Word};
use crate::number::{coordinate_value, parse_coordinate};
use crate::text::trimmed;
use vstd::prelude::*;

verus! {

/// Why no document came out.
#[derive(Debug, Clone, Copy, PartialEq, Eq, Structural)]
pub enum ParseError {
    /// A numeric attribute of some record is missing or is no coordinate.
    MalformedInput,
    /// The document has no page, a page has no line, or no line lies in
    /// the main text column, so nothing can be estimated.
    EmptyCollection,
}

/// The four edges of a box, each as the extractor wrote it.
#[derive(Debug, Clone, PartialEq)]
pub struct BoxRecord {
    pub xmin: Option<String>,
    pub ymin: Option<String>,
    pub xmax: Option<String>,
    pub ymax: Option<String>,
}

/// A word as the extractor wrote it.
#[derive(Debug, Clone, PartialEq)]
pub struct WordRecord {
    pub bounds: BoxRecord,
    pub text: String,
}

/// A line as the extractor wrote it.
#[derive(Debug, Clone, PartialEq)]
pub struct LineRecord {
    pub bounds: BoxRecord,
    pub words: Vec<WordRecord>,
}

/// A block as the extractor wrote it.
#[derive(Debug, Clone, PartialEq)]
pub struct BlockRecord {
    pub bounds: BoxRecord,
    pub lines: Vec<LineRecord>,
}

/// A page as the extractor wrote it.
#[derive(Debug, Clone, PartialEq)]
pub struct PageRecord {
    pub width: Option<String>,
    pub height: Option<String>,
    pub blocks: Vec<BlockRecord>,
}

/// The coordinate that an attribute writes; none where the attribute is
/// missing or is no coordinate.
pub open spec fn field_value(field: Option<String>) -> Option<i64> {
    match field {
        Some(text) => coordinate_value(text@),
        None => None,
    }
}

impl BoxRecord {
    /// All four edges are there and are coordinates.
    pub open spec fn is_valid(self) -> bool {
        &&& field_value(self.xmin) is Some
        &&& field_value(self.ymin) is Some
        &&& field_value(self.xmax) is Some
        &&& field_value(self.ymax) is Some
    }

    /// The box that the record writes is the one with top-left corner
    /// `(x, y)` and the given extent.
    pub open spec fn describes(self, x: i64, y: i64, width: i64, height: i64) -> bool {
        &&& self.is_valid()
        &&& x == field_value(self.xmin)->0
        &&& y == field_value(self.ymin)->0
        &&& width == field_value(self.xmax)->0 - field_value(self.xmin)->0
        &&& height == field_value(self.ymax)->0 - field_value(self.ymin)->0
    }
}

pub open spec fn word_valid(record: WordRecord) -> bool {
    record.bounds.is_valid()
}

pub open spec fn line_valid(record: LineRecord) -> bool {
    &&& record.bounds.is_valid()
    &&& forall|k: int| 0 <= k < record.words@.len() ==> word_valid(#[trigger] record.words@[k])
}

pub open spec fn block_valid(record: BlockRecord) -> bool {
    &&& record.bounds.is_valid()
    &&& forall|k: int| 0 <= k < record.lines@.len() ==> line_valid(#[trigger] record.lines@[k])
}

pub open spec fn page_valid(record: PageRecord) -> bool {
    &&& field_value(record.width) is Some
    &&& field_value(record.height) is Some
    &&& forall|k: int| 0 <= k < record.blocks@.len() ==> block_valid(#[trigger] record.blocks@[k])
}

/// Every numeric attribute of every record is there and is a coordinate.
pub open spec fn records_valid(records: Seq<PageRecord>) -> bool {
    forall|k: int| 0 <= k < records.len() ==> page_valid(#[trigger] records[k])
}

/// `word` is what the record writes: its box, and its text without leading
/// and trailing white space.
pub open spec fn word_built(record: WordRecord, word: Word) -> bool {
    &&& record.bounds.describes(word.x, word.y, word.width, word.height)
    &&& word.text@ == trimmed(record.text@)
}

/// `line` is what the record writes: its box, and its words in order.
pub open spec fn line_built(record: LineRecord, line: Line) -> bool {
    &&& record.bounds.describes(line.x, line.y, line.width, line.height)
    &&& line.words@.len() == record.words@.len()
    &&& forall|k: int|
        0 <= k < record.words@.len() ==> word_built(record.words@[k], #[trigger] line.words@[k])
}

/// `block` is what the record writes: its box, its lines in order, and no
/// decision yet on what it is taken for.
pub open spec fn block_built(record: BlockRecord, block: Block) -> bool {
    &&& record.bounds.describes(block.x, block.y, block.width, block.height)
    &&& block.attr == BlockAttr::Else
    &&& block.lines@.len() == record.lines@.len()
    &&& forall|k: int|
        0 <= k < record.lines@.len() ==> line_built(record.lines@[k], #[trigger] block.lines@[k])
}

/// `page` is what the record writes: its size, and its blocks in order.
pub open spec fn page_built(record: PageRecord, page: Page) -> bool {
    &&& field_value(record.width) == Some(page.width)
    &&& field_value(record.height) == Some(page.height)
    &&& page.blocks@.len() == record.blocks@.len()
    &&& forall|k: int|
        0 <= k < record.blocks@.len() ==> block_built(
            record.blocks@[k],
            #[trigger] page.blocks@[k],
        )
}

/// `pages` is the document that the records write, page by page.
pub open spec fn document_built(records: Seq<PageRecord>, pages: Seq<Page>) -> bool {
    &&& pages.len() == records.len()
    &&& forall|k: int| 0 <= k < records.len() ==> page_built(records[k], #[trigger] pages[k])
}

/// Reads one numeric attribute.
pub fn read_field(field: &Option<String>) -> (r: Result<i64, ParseError>)
    ensures
        r is Ok <==> field_value(*field) is Some,
        r is Ok ==> Some(r->Ok_0) == field_value(*field) && in_range(r->Ok_0 as int),
        r is Err ==> r == Err::<i64, ParseError>(ParseError::MalformedInput),
{
    match field {
        Some(text) => match parse_coordinate(text.as_str()) {
            Some(value) => Ok(value),
            None => Err(ParseError::MalformedInput),
        },
        None => Err(ParseError::MalformedInput),
    }
}

/// A box by its top-left corner and its extent.
pub struct Extent {
    pub x: i64,
    pub y: i64,
    pub width: i64,
    pub height: i64,
}

/// Reads the four edges of a box; the width is `xmax - xmin`, the height
/// `ymax - ymin`.
pub fn read_box(bounds: &BoxRecord) -> (r: Result<Extent, ParseError>)
    ensures
        r is Ok <==> bounds.is_valid(),
        r is Ok ==> {
            let e = r->Ok_0;
            &&& bounds.describes(e.x, e.y, e.width, e.height)
            &&& crate::layout::box_in_range(e.x, e.y, e.width, e.height)
        },
        r is Err ==> r->Err_0 == ParseError::MalformedInput,
{
    let xmin: i64 = match read_field(&bounds.xmin) {
        Ok(v) => v,
        Err(e) => {
            return Err(e);
        },
    };
    let ymin: i64 = match read_field(&bounds.ymin) {
        Ok(v) => v,
        Err(e) => {
            return Err(e);
        },
    };
    let xmax: i64 = match read_field(&bounds.xmax) {
        Ok(v) => v,
        Err(e) => {
            return Err(e);
        },
    };
    let ymax: i64 = match read_field(&bounds.ymax) {
        Ok(v) => v,
        Err(e) => {
            return Err(e);
        },
    };
    Ok(Extent { x: xmin, y: ymin, width: xmax - xmin, height: ymax - ymin })
}

/// Builds a line with its words.
pub fn build_line(record: &LineRecord) -> (r: Result<Line, ParseError>)
    ensures
        r is Ok <==> line_valid(*record),
        r is Ok ==> line_built(*record, r->Ok_0) && r->Ok_0.wf(),
        r is Err ==> r->Err_0 == ParseError::MalformedInput,
{
    let e: Extent = match read_box(&record.bounds) {
        Ok(e) => e,
        Err(err) => {
            return Err(err);
        },
    };
    let mut line: Line = Line::new(e.x, e.y, e.width, e.height);
    let mut k: usize = 0;
    while k < record.words.len()
        invariant
            k <= record.words@.len(),
            line.words@.len() == k,
            line.x == e.x,
            line.y == e.y,
            line.width == e.width,
            line.height == e.height,
            forall|j: int| 0 <= j < k ==> word_valid(#[trigger] record.words@[j]),
            forall|j: int|
                0 <= j < k ==> word_built(record.words@[j], #[trigger] line.words@[j]),
        decreases record.words@.len() - k,
    {
        let word: &WordRecord = &record.words[k];
        let w: Extent = match read_box(&word.bounds) {
            Ok(w) => w,
            Err(err) => {
                return Err(err);
            },
        };
        let ghost before = line.words@;
        line.add_word(word.text.clone(), w.x, w.y, w.width, w.height);
        proof {
            assert forall|j: int| 0 <= j < k + 1 implies word_built(
                record.words@[j],
                #[trigger] line.words@[j],
            ) by {
                if j < k {
                    assert(line.words@[j] == line.words@.drop_last()[j]);
                } else {
                    assert(line.words@[j] == line.words@.last());
                }
            }
        }
        k += 1;
    }
    Ok(line)
}

/// Builds a block with its lines.
pub fn build_block(record: &BlockRecord) -> (r: Result<Block, ParseError>)
    ensures
        r is Ok <==> block_valid(*record),
        r is Ok ==> block_built(*record, r->Ok_0) && r->Ok_0.wf(),
        r is Err ==> r->Err_0 == ParseError::MalformedInput,
{
    let e: Extent = match read_box(&record.bounds) {
        Ok(e) => e,
        Err(err) => {
            return Err(err);
        },
    };
    let mut block: Block = Block::new(e.x, e.y, e.width, e.height);
    let mut k: usize = 0;
    while k < record.lines.len()
        invariant
            k <= record.lines@.len(),
            block.lines@.len() == k,
            block.x == e.x,
            block.y == e.y,
            block.width == e.width,
            block.height == e.height,
            block.attr == BlockAttr::Else,
            forall|j: int| 0 <= j < k ==> line_valid(#[trigger] record.lines@[j]),
            forall|j: int|
                0 <= j < k ==> line_built(record.lines@[j], #[trigger] block.lines@[j]),
            forall|j: int| 0 <= j < k ==> (#[trigger] block.lines@[j]).wf(),
        decreases record.lines@.len() - k,
    {
        let line: Line = match build_line(&record.lines[k]) {
            Ok(line) => line,
            Err(err) => {
                return Err(err);
            },
        };
        block.lines.push(line);
        k += 1;
    }
    Ok(block)
}

/// Builds a page with its blocks.
pub fn build_page(record: &PageRecord) -> (r: Result<Page, ParseError>)
    ensures
        r is Ok <==> page_valid(*record),
        r is Ok ==> page_built(*record, r->Ok_0) && r->Ok_0.wf(),
        r is Err ==> r->Err_0 == ParseError::MalformedInput,
{
    let width: i64 = match read_field(&record.width) {
        Ok(v) => v,
        Err(err) => {
            return Err(err);
        },
    };
    let height: i64 = match read_field(&record.height) {
        Ok(v) => v,
        Err(err) => {
            return Err(err);
        },
    };
    let mut page: Page = Page::new(width, height);
    let mut k: usize = 0;
    while k < record.blocks.len()
        invariant
            k <= record.blocks@.len(),
            page.blocks@.len() == k,
            page.width == width,
            page.height == height,
            forall|j: int| 0 <= j < k ==> block_valid(#[trigger] record.blocks@[j]),
            forall|j: int|
                0 <= j < k ==> block_built(record.blocks@[j], #[trigger] page.blocks@[j]),
            forall|j: int| 0 <= j < k ==> (#[trigger] page.blocks@[j]).wf(),
        decreases record.blocks@.len() - k,
    {
        let block: Block = match build_block(&record.blocks[k]) {
            Ok(block) => block,
            Err(err) => {
                return Err(err);
            },
        };
        page.blocks.push(block);
        k += 1;
    }
    Ok(page)
}

/// Builds the document model from the records of its pages.
///
/// Fails with `MalformedInput` where any numeric attribute of any record is
/// missing or is no coordinate; no part of a document is handed out then.
pub fn build_document(records: &Vec<PageRecord>) -> (r: Result<Vec<Page>, ParseError>)
    ensures
        r is Ok <==> records_valid(records@),
        r is Ok ==> document_built(records@, r->Ok_0@) && crate::estimate::document_wf(r->Ok_0@),
        r is Err ==> r->Err_0 == ParseError::MalformedInput,
{
    let mut pages: Vec<Page> = Vec::new();
    let mut k: usize = 0;
    while k < records.len()
        invariant
            k <= records@.len(),
            pages@.len() == k,
            forall|j: int| 0 <= j < k ==> page_valid(#[trigger] records@[j]),
            forall|j: int| 0 <= j < k ==> page_built(records@[j], #[trigger] pages@[j]),
            forall|j: int| 0 <= j < k ==> (#[trigger] pages@[j]).wf(),
        decreases records@.len() - k,
    {
        let page: Page = match build_page(&records[k]) {
            Ok(page) => page,
            Err(err) => {
                return Err(err);
            },
        };
        pages.push(page);
        k += 1;
    }
    Ok(pages)
}

} // verus!
