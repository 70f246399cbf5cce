//! From records to a classified document: build the model, estimate the
//! main text column and the normal font size, classify every block.

use crate::classify::{blocks_in_range, classify_blocks, document_classified};
use crate::estimate::{
    body_heights, body_line_heights, document_lines, document_wf, get_text_area,
    normal_font_size, pages_have_lines, spec_font_size, spec_text_area,
};
use crate::geometry::Coordinate;
use crate::layout::Page;
use crate::record::{build_document, document_built, records_valid, PageRecord, ParseError};
use vstd::prelude::*;

verus! {

/// The estimates exist: the document has a page, every page has a line,
/// and some line lies mostly inside the main text column.
pub open spec fn can_estimate(pages: Seq<Page>) -> bool {
    &&& pages.len() > 0
    &&& pages_have_lines(pages)
    &&& body_heights(document_lines(pages), spec_text_area(pages)).len() > 0
}

/// `r` is what the analysis of the document `pages` gives: where the
/// estimates exist, the document with every block classified by them and
/// nothing else changed; else the error `EmptyCollection`.
pub open spec fn analysed(pages: Seq<Page>, r: Result<Vec<Page>, ParseError>) -> bool {
    if can_estimate(pages) {
        &&& r is Ok
        &&& document_classified(
            pages,
            r->Ok_0@,
            spec_font_size(pages) as i64,
            spec_text_area(pages),
        )
    } else {
        r is Err && r->Err_0 == ParseError::EmptyCollection
    }
}

/// `r` is what parsing the records gives: `MalformedInput` where a numeric
/// attribute is missing or is no coordinate; else the analysis of the
/// document that the records write.
pub open spec fn parsed(records: Seq<PageRecord>, r: Result<Vec<Page>, ParseError>) -> bool {
    if records_valid(records) {
        exists|built: Seq<Page>| #[trigger] document_built(records, built) && analysed(built, r)
    } else {
        r is Err && r->Err_0 == ParseError::MalformedInput
    }
}

/// Whether every page holds a line.
fn all_pages_have_lines(pages: &Vec<Page>) -> (r: bool)
    ensures
        r == pages_have_lines(pages@),
{
    let mut i: usize = 0;
    while i < pages.len()
        invariant
            i <= pages@.len(),
            forall|k: int| 0 <= k < i ==> (#[trigger] pages@[k]).spec_lines().len() > 0,
        decreases pages@.len() - i,
    {
        if !pages[i].has_lines() {
            return false;
        }
        i += 1;
    }
    true
}

/// Estimates the main text column and the normal font size of the
/// document and classifies every block by them.
///
/// Fails with `EmptyCollection` where there is nothing to estimate from:
/// no page, a page without lines, or no line mostly inside the column.
pub fn classify_document(pages: Vec<Page>) -> (r: Result<Vec<Page>, ParseError>)
    requires
        document_wf(pages@),
    ensures
        analysed(pages@, r),
{
    let mut pages = pages;
    if pages.len() == 0 || !all_pages_have_lines(&pages) {
        return Err(ParseError::EmptyCollection);
    }
    let text_area: Coordinate = get_text_area(&pages);
    let heights: Vec<i64> = body_line_heights(&pages, &text_area);
    if heights.len() == 0 {
        return Err(ParseError::EmptyCollection);
    }
    let font_size: i64 = normal_font_size(&heights);
    proof {
        lemma_wf_blocks_in_range(pages@);
    }
    classify_blocks(&mut pages, font_size, &text_area);
    Ok(pages)
}

/// Builds the document from the records of its pages and classifies its
/// blocks.
pub fn parse_records(records: &Vec<PageRecord>) -> (r: Result<Vec<Page>, ParseError>)
    ensures
        parsed(records@, r),
{
    match build_document(records) {
        Ok(pages) => {
            let ghost built = pages@;
            let r = classify_document(pages);
            assert(document_built(records@, built) && analysed(built, r));
            r
        },
        Err(e) => Err(e),
    }
}

/// In a well-formed document the box of every block lies within the
/// coordinate limit.
pub proof fn lemma_wf_blocks_in_range(pages: Seq<Page>)
    requires
        document_wf(pages),
    ensures
        blocks_in_range(pages),
{
    assert forall|i: int, j: int|
        0 <= i < pages.len() && 0 <= j < pages[i].blocks@.len() implies crate::layout::box_in_range(
        (#[trigger] pages[i].blocks@[j]).x,
        pages[i].blocks@[j].y,
        pages[i].blocks@[j].width,
        pages[i].blocks@[j].height,
    ) by {
        assert(pages[i].wf());
        assert(pages[i].blocks@[j].wf());
    }
}

} // verus!
