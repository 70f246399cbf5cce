//! Reading the records out of a parsed markup document.
//!
//! The extractor writes one `page` element per page, with `block`, `line`
//! and `word` elements nested inside, each with its box in attributes.

use crate::parser::{parse_records, parsed};
use crate::layout::Page;
use crate::record::{BlockRecord, BoxRecord, LineRecord, PageRecord, ParseError, WordRecord};
use scraper::{ElementRef, Html, Selector};
use vstd::prelude::*;

verus! {

#[verifier::external_type_specification]
#[verifier::external_body]
pub struct ExHtml(scraper::Html);

#[verifier::external_type_specification]
#[verifier::external_body]
pub struct ExElementRef<'a>(scraper::ElementRef<'a>);

/// The elements of the document that the selector written in `selector`
/// matches, in the order in which `Html::select` yields them; none where
/// the text is no selector.
pub uninterp spec fn document_elements(html: Html, selector: Seq<char>) -> Seq<
    ElementRef<'static>,
>;

/// The elements below `element` that the selector written in `selector`
/// matches, in the order in which `ElementRef::select` yields them; none
/// where the text is no selector.
pub uninterp spec fn element_descendants(element: ElementRef<'_>, selector: Seq<char>) -> Seq<
    ElementRef<'static>,
>;

/// The value of the element's attribute of that name, if it has one.
pub uninterp spec fn element_attribute(element: ElementRef<'_>, name: Seq<char>) -> Option<
    Seq<char>,
>;

/// The text below the element: its descendant text nodes, one after the
/// other.
pub uninterp spec fn element_text(element: ElementRef<'_>) -> Seq<char>;

/// Calls `Selector::parse` and `Html::select`, and gathers what the
/// iterator yields.
///
/// Not proved: the result is a function of the document and the selector
/// text alone, and is given the name `document_elements`.
#[verifier::external_body]
fn select_in_document<'a>(html: &'a Html, selector: &str) -> (r: Vec<ElementRef<'a>>)
    ensures
        r@ == document_elements(*html, selector@),
{
    match Selector::parse(selector) {
        Ok(parsed) => html.select(&parsed).collect(),
        Err(_) => Vec::new(),
    }
}

/// Calls `Selector::parse` and `ElementRef::select`, and gathers what the
/// iterator yields.
///
/// Not proved: the result is a function of the element and the selector
/// text alone, and is given the name `element_descendants`.
#[verifier::external_body]
fn select_in_element<'a>(element: &ElementRef<'a>, selector: &str) -> (r: Vec<ElementRef<'a>>)
    ensures
        r@ == element_descendants(*element, selector@),
{
    match Selector::parse(selector) {
        Ok(parsed) => element.select(&parsed).collect(),
        Err(_) => Vec::new(),
    }
}

/// Calls `ElementRef::attr`.
///
/// Not proved: the result is a function of the element and the name alone,
/// and is given the name `element_attribute`.
#[verifier::external_body]
fn attribute_of(element: &ElementRef<'_>, name: &str) -> (r: Option<String>)
    ensures
        r is Some <==> element_attribute(*element, name@) is Some,
        r is Some ==> r->0@ == element_attribute(*element, name@)->0,
{
    match element.attr(name) {
        Some(value) => Some(value.to_string()),
        None => None,
    }
}

/// Calls `ElementRef::text` and joins what the iterator yields.
///
/// Not proved: the result is a function of the element alone, and is given
/// the name `element_text`.
#[verifier::external_body]
fn text_of(element: &ElementRef<'_>) -> (r: String)
    ensures
        r@ == element_text(*element),
{
    element.text().collect::<String>()
}

/// `field` holds the element's attribute of that name as it stands.
pub open spec fn field_read(element: ElementRef<'_>, name: Seq<char>, field: Option<String>) -> bool {
    match element_attribute(element, name) {
        Some(value) => field is Some && field->0@ == value,
        None => field is None,
    }
}

/// `bounds` holds the element's attributes `xmin`, `ymin`, `xmax`, `ymax`.
pub open spec fn box_read(element: ElementRef<'_>, bounds: BoxRecord) -> bool {
    &&& field_read(element, "xmin"@, bounds.xmin)
    &&& field_read(element, "ymin"@, bounds.ymin)
    &&& field_read(element, "xmax"@, bounds.xmax)
    &&& field_read(element, "ymax"@, bounds.ymax)
}

/// `record` holds the box and the text of a `word` element.
pub open spec fn word_read(element: ElementRef<'_>, record: WordRecord) -> bool {
    &&& box_read(element, record.bounds)
    &&& record.text@ == element_text(element)
}

/// `record` holds the box of a `line` element and the `word` elements
/// below it, in order.
pub open spec fn line_read(element: ElementRef<'_>, record: LineRecord) -> bool {
    let words = element_descendants(element, "word"@);
    &&& box_read(element, record.bounds)
    &&& record.words@.len() == words.len()
    &&& forall|k: int| 0 <= k < words.len() ==> word_read(words[k], #[trigger] record.words@[k])
}

/// `record` holds the box of a `block` element and the `line` elements
/// below it, in order.
pub open spec fn block_read(element: ElementRef<'_>, record: BlockRecord) -> bool {
    let lines = element_descendants(element, "line"@);
    &&& box_read(element, record.bounds)
    &&& record.lines@.len() == lines.len()
    &&& forall|k: int| 0 <= k < lines.len() ==> line_read(lines[k], #[trigger] record.lines@[k])
}

/// `record` holds the size of a `page` element and the `block` elements
/// below it, in order.
pub open spec fn page_read(element: ElementRef<'_>, record: PageRecord) -> bool {
    let blocks = element_descendants(element, "block"@);
    &&& field_read(element, "width"@, record.width)
    &&& field_read(element, "height"@, record.height)
    &&& record.blocks@.len() == blocks.len()
    &&& forall|k: int|
        0 <= k < blocks.len() ==> block_read(blocks[k], #[trigger] record.blocks@[k])
}

/// `records` hold the `page` elements of the document, in order.
pub open spec fn document_read(html: Html, records: Seq<PageRecord>) -> bool {
    let pages = document_elements(html, "page"@);
    &&& records.len() == pages.len()
    &&& forall|k: int| 0 <= k < pages.len() ==> page_read(pages[k], #[trigger] records[k])
}

/// Reads the four edges of an element's box.
fn read_bounds(element: &ElementRef<'_>) -> (r: BoxRecord)
    ensures
        box_read(*element, r),
{
    BoxRecord {
        xmin: attribute_of(element, "xmin"),
        ymin: attribute_of(element, "ymin"),
        xmax: attribute_of(element, "xmax"),
        ymax: attribute_of(element, "ymax"),
    }
}

/// Reads a `line` element with the words below it.
fn read_line(element: &ElementRef<'_>) -> (r: LineRecord)
    ensures
        line_read(*element, r),
{
    let found: Vec<ElementRef<'_>> = select_in_element(element, "word");
    let mut words: Vec<WordRecord> = Vec::new();
    let mut k: usize = 0;
    while k < found.len()
        invariant
            k <= found@.len(),
            words@.len() == k,
            forall|j: int| 0 <= j < k ==> word_read(found@[j], #[trigger] words@[j]),
        decreases found@.len() - k,
    {
        let word: &ElementRef<'_> = &found[k];
        words.push(WordRecord { bounds: read_bounds(word), text: text_of(word) });
        k += 1;
    }
    LineRecord { bounds: read_bounds(element), words: words }
}

/// Reads a `block` element with the lines below it.
fn read_block(element: &ElementRef<'_>) -> (r: BlockRecord)
    ensures
        block_read(*element, r),
{
    let found: Vec<ElementRef<'_>> = select_in_element(element, "line");
    let mut lines: Vec<LineRecord> = Vec::new();
    let mut k: usize = 0;
    while k < found.len()
        invariant
            k <= found@.len(),
            lines@.len() == k,
            forall|j: int| 0 <= j < k ==> line_read(found@[j], #[trigger] lines@[j]),
        decreases found@.len() - k,
    {
        lines.push(read_line(&found[k]));
        k += 1;
    }
    BlockRecord { bounds: read_bounds(element), lines: lines }
}

/// Reads a `page` element with the blocks below it.
fn read_page(element: &ElementRef<'_>) -> (r: PageRecord)
    ensures
        page_read(*element, r),
{
    let found: Vec<ElementRef<'_>> = select_in_element(element, "block");
    let mut blocks: Vec<BlockRecord> = Vec::new();
    let mut k: usize = 0;
    while k < found.len()
        invariant
            k <= found@.len(),
            blocks@.len() == k,
            forall|j: int| 0 <= j < k ==> block_read(found@[j], #[trigger] blocks@[j]),
        decreases found@.len() - k,
    {
        blocks.push(read_block(&found[k]));
        k += 1;
    }
    PageRecord {
        width: attribute_of(element, "width"),
        height: attribute_of(element, "height"),
        blocks: blocks,
    }
}

/// Reads the records of all pages out of the document: every `page`
/// element, the `block` elements below it, the `line` elements below each
/// block and the `word` elements below each line, with their attributes as
/// they stand.
pub fn read_records(html: &Html) -> (r: Vec<PageRecord>)
    ensures
        document_read(*html, r@),
{
    let found: Vec<ElementRef<'_>> = select_in_document(html, "page");
    let mut pages: Vec<PageRecord> = Vec::new();
    let mut k: usize = 0;
    while k < found.len()
        invariant
            k <= found@.len(),
            pages@.len() == k,
            forall|j: int| 0 <= j < k ==> page_read(found@[j], #[trigger] pages@[j]),
        decreases found@.len() - k,
    {
        pages.push(read_page(&found[k]));
        k += 1;
    }
    pages
}

/// Reads the document's records, builds the model from them and classifies
/// its blocks.
pub fn parse_html(html: &Html) -> (r: Result<Vec<Page>, ParseError>)
    ensures
        exists|records: Seq<PageRecord>| #[trigger] document_read(*html, records) && parsed(records, r),
{
    let records: Vec<PageRecord> = read_records(html);
    let r = parse_records(&records);
    assert(document_read(*html, records@) && parsed(records@, r));
    r
}

} // verus!
