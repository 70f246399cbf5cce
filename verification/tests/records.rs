use pdf_layout::record::{build_block, build_line, build_page, read_box, read_field};
use pdf_layout::{
    build_document, parse_records, BlockAttr, BlockRecord, BoxRecord, LineRecord, PageRecord,
    ParseError, WordRecord,
};

fn some(text: &str) -> Option<String> {
    Some(text.to_string())
}

fn bounds(xmin: &str, ymin: &str, xmax: &str, ymax: &str) -> BoxRecord {
    BoxRecord { xmin: some(xmin), ymin: some(ymin), xmax: some(xmax), ymax: some(ymax) }
}

fn word(xmin: &str, ymin: &str, xmax: &str, ymax: &str, text: &str) -> WordRecord {
    WordRecord { bounds: bounds(xmin, ymin, xmax, ymax), text: text.to_string() }
}

fn line(xmin: &str, ymin: &str, xmax: &str, ymax: &str, words: Vec<WordRecord>) -> LineRecord {
    LineRecord { bounds: bounds(xmin, ymin, xmax, ymax), words }
}

fn block(xmin: &str, ymin: &str, xmax: &str, ymax: &str, lines: Vec<LineRecord>) -> BlockRecord {
    BlockRecord { bounds: bounds(xmin, ymin, xmax, ymax), lines }
}

fn page(blocks: Vec<BlockRecord>) -> PageRecord {
    PageRecord { width: some("612.000000"), height: some("792.000000"), blocks }
}

/// A heading, a paragraph of two lines and a page number.
fn title_page() -> PageRecord {
    page(vec![
        block(
            "100.0",
            "100.0",
            "500.0",
            "120.0",
            vec![line(
                "100.0",
                "100.0",
                "500.0",
                "120.0",
                vec![
                    word("100.0", "100.0", "180.0", "120.0", "Attention"),
                    word("190.0", "100.0", "220.0", "120.0", " Is\n"),
                ],
            )],
        ),
        block(
            "100.0",
            "130.0",
            "500.0",
            "154.0",
            vec![
                line("100.0", "130.0", "500.0", "142.0", vec![
                    word("100.0", "130.0", "150.0", "142.0", "The"),
                    word("155.0", "130.0", "200.0", "142.0", "dominant"),
                ]),
                line("100.0", "142.0", "500.0", "154.0", vec![
                    word("100.0", "142.0", "150.0", "154.0", "models"),
                ]),
            ],
        ),
        block(
            "300.0",
            "750.0",
            "310.0",
            "760.0",
            vec![line("300.0", "750.0", "310.0", "760.0", vec![
                word("300.0", "750.0", "310.0", "760.0", "1"),
            ])],
        ),
    ])
}

/// A paragraph of two lines that fills the text column.
fn body_page() -> PageRecord {
    page(vec![block(
        "100.0",
        "100.0",
        "500.0",
        "154.0",
        vec![
            line("100.0", "100.0", "500.0", "112.0", vec![
                word("100.0", "100.0", "150.0", "112.0", "more"),
            ]),
            line("100.0", "142.0", "500.0", "154.0", vec![
                word("100.0", "142.0", "150.0", "154.0", "text"),
            ]),
        ],
    )])
}

#[test]
fn read_field_gives_millionths() {
    assert_eq!(read_field(&some("56.800000")), Ok(56_800_000));
    assert_eq!(read_field(&some("-3")), Ok(-3_000_000));
}

#[test]
fn read_field_refuses_a_missing_or_unreadable_attribute() {
    assert_eq!(read_field(&None), Err(ParseError::MalformedInput));
    assert_eq!(read_field(&some("")), Err(ParseError::MalformedInput));
    assert_eq!(read_field(&some("wide")), Err(ParseError::MalformedInput));
    assert_eq!(read_field(&some("1e2")), Err(ParseError::MalformedInput));
    assert_eq!(read_field(&some("2000000")), Err(ParseError::MalformedInput));
}

#[test]
fn read_box_takes_extent_from_the_edges() {
    let e = read_box(&bounds("56.8", "70.5", "540.25", "82.5")).ok().unwrap();
    assert_eq!((e.x, e.y, e.width, e.height), (56_800_000, 70_500_000, 483_450_000, 12_000_000));
}

#[test]
fn read_box_keeps_a_turned_box() {
    let e = read_box(&bounds("10", "10", "5", "2")).ok().unwrap();
    assert_eq!((e.x, e.y, e.width, e.height), (10_000_000, 10_000_000, -5_000_000, -8_000_000));
}

#[test]
fn read_box_refuses_each_missing_edge() {
    let full = bounds("1", "2", "3", "4");
    let mut b = full.clone();
    b.xmin = None;
    assert!(matches!(read_box(&b), Err(ParseError::MalformedInput)));
    let mut b = full.clone();
    b.ymin = None;
    assert!(matches!(read_box(&b), Err(ParseError::MalformedInput)));
    let mut b = full.clone();
    b.xmax = some("x");
    assert!(matches!(read_box(&b), Err(ParseError::MalformedInput)));
    let mut b = full.clone();
    b.ymax = some("4..");
    assert!(matches!(read_box(&b), Err(ParseError::MalformedInput)));
}

#[test]
fn build_line_builds_its_words() {
    let record = line("100.0", "130.0", "500.0", "142.0", vec![
        word("100.0", "130.0", "150.0", "142.0", " The "),
        word("155.0", "130.0", "200.0", "142.5", "dominant"),
    ]);
    let built = build_line(&record).unwrap();
    assert_eq!(
        (built.x, built.y, built.width, built.height),
        (100_000_000, 130_000_000, 400_000_000, 12_000_000)
    );
    assert_eq!(built.words.len(), 2);
    assert_eq!(built.words[0].text, "The");
    assert_eq!(built.words[1].text, "dominant");
    assert_eq!(
        (built.words[1].x, built.words[1].y, built.words[1].width, built.words[1].height),
        (155_000_000, 130_000_000, 45_000_000, 12_500_000)
    );
    assert_eq!(built.get_text(), "The dominant");
}

#[test]
fn build_block_starts_as_neither() {
    let record = block("1", "2", "3", "4", vec![line("1", "2", "3", "3", Vec::new())]);
    let built = build_block(&record).unwrap();
    assert_eq!(built.attr, BlockAttr::Else);
    assert_eq!(built.lines.len(), 1);
    assert_eq!((built.x, built.y, built.width, built.height), (1_000_000, 2_000_000, 2_000_000, 2_000_000));
}

#[test]
fn build_page_takes_the_page_size() {
    let built = build_page(&title_page()).unwrap();
    assert_eq!((built.width, built.height), (612_000_000, 792_000_000));
    assert_eq!(built.blocks.len(), 3);
    assert_eq!(built.blocks[1].lines.len(), 2);
    assert_eq!(built.get_text(), "Attention Is\n\n\nThe dominant\nmodels\n\n\n1\n\n\n");
}

#[test]
fn build_document_keeps_the_order() {
    let built = build_document(&vec![title_page(), body_page()]).unwrap();
    assert_eq!(built.len(), 2);
    assert_eq!(built[0].blocks[0].lines[0].get_text(), "Attention Is");
    assert_eq!(built[1].blocks[0].lines[1].get_text(), "text");
    for page in built.iter() {
        for block in page.blocks.iter() {
            assert_eq!(block.attr, BlockAttr::Else);
        }
    }
}

#[test]
fn build_document_of_no_records_is_empty() {
    assert_eq!(build_document(&Vec::new()), Ok(Vec::new()));
}

#[test]
fn a_missing_attribute_fails_the_whole_document() {
    // on a page
    let mut bad = body_page();
    bad.width = None;
    assert_eq!(build_document(&vec![title_page(), bad]), Err(ParseError::MalformedInput));
    let mut bad = body_page();
    bad.height = some("tall");
    assert_eq!(build_document(&vec![bad, title_page()]), Err(ParseError::MalformedInput));
    // on a block
    let mut bad = body_page();
    bad.blocks[0].bounds.xmax = None;
    assert_eq!(build_document(&vec![title_page(), bad]), Err(ParseError::MalformedInput));
    // on a line
    let mut bad = body_page();
    bad.blocks[0].lines[1].bounds.ymin = None;
    assert_eq!(build_document(&vec![title_page(), bad]), Err(ParseError::MalformedInput));
    // on the last word of the document
    let mut bad = body_page();
    bad.blocks[0].lines[1].words[0].bounds.ymax = some("");
    assert_eq!(build_document(&vec![title_page(), bad.clone()]), Err(ParseError::MalformedInput));
    assert_eq!(parse_records(&vec![title_page(), bad]), Err(ParseError::MalformedInput));
}

#[test]
fn parse_records_classifies_the_blocks() {
    let records = vec![title_page(), body_page(), body_page()];
    // text column: left 100, top 100, right 500, bottom the median of
    // 760, 154, 154; normal font size: the median of 20 and six times 12
    let pages = parse_records(&records).unwrap();
    assert_eq!(pages.len(), 3);
    assert_eq!(pages[0].blocks[0].attr, BlockAttr::Title);
    assert_eq!(pages[0].blocks[1].attr, BlockAttr::Text);
    assert_eq!(pages[0].blocks[2].attr, BlockAttr::Else);
    assert_eq!(pages[1].blocks[0].attr, BlockAttr::Text);
    assert_eq!(pages[2].blocks[0].attr, BlockAttr::Text);
    assert_eq!(pages[0].blocks[0].get_text(), "Attention Is\n");
    assert_eq!(pages[0].blocks[1].lines[0].get_text(), "The dominant");
}

#[test]
fn parse_records_twice_gives_the_same() {
    let records = vec![title_page(), body_page(), body_page()];
    assert_eq!(parse_records(&records), parse_records(&records));
}

#[test]
fn parse_records_with_nothing_to_estimate_from() {
    assert_eq!(parse_records(&Vec::new()), Err(ParseError::EmptyCollection));
    assert_eq!(
        parse_records(&vec![title_page(), page(Vec::new())]),
        Err(ParseError::EmptyCollection)
    );
    let no_lines = page(vec![block("1", "2", "3", "4", Vec::new())]);
    assert_eq!(parse_records(&vec![no_lines]), Err(ParseError::EmptyCollection));
}

#[test]
fn a_malformed_record_counts_before_an_empty_page() {
    let mut bad = body_page();
    bad.blocks[0].bounds.xmin = None;
    assert_eq!(
        parse_records(&vec![page(Vec::new()), bad]),
        Err(ParseError::MalformedInput)
    );
}
