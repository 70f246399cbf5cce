use pdf_layout::{parse_html, read_records, BlockAttr, ParseError};
use scraper::Html;

fn document(pages: &str) -> Html {
    let text = format!(
        "<!DOCTYPE html><html><head><title>sample</title></head><body><doc>{}</doc></body></html>",
        pages
    );
    Html::parse_document(&text)
}

const TITLE_PAGE: &str = r#"
<page width="612.000000" height="792.000000">
  <flow>
    <block xMin="100.000000" yMin="100.000000" xMax="500.000000" yMax="120.000000">
      <line xMin="100.000000" yMin="100.000000" xMax="500.000000" yMax="120.000000">
        <word xMin="100.000000" yMin="100.000000" xMax="180.000000" yMax="120.000000">Attention</word>
        <word xMin="190.000000" yMin="100.000000" xMax="220.000000" yMax="120.000000"> Is </word>
      </line>
    </block>
    <block xMin="100.000000" yMin="130.000000" xMax="500.000000" yMax="154.000000">
      <line xMin="100.000000" yMin="130.000000" xMax="500.000000" yMax="142.000000">
        <word xMin="100.000000" yMin="130.000000" xMax="150.000000" yMax="142.000000">The</word>
        <word xMin="155.000000" yMin="130.000000" xMax="200.000000" yMax="142.000000">domi<b>nant</b></word>
      </line>
      <line xMin="100.000000" yMin="142.000000" xMax="500.000000" yMax="154.000000">
        <word xMin="100.000000" yMin="142.000000" xMax="150.000000" yMax="154.000000">models</word>
      </line>
    </block>
  </flow>
  <flow>
    <block xMin="300.000000" yMin="750.000000" xMax="310.000000" yMax="760.000000">
      <line xMin="300.000000" yMin="750.000000" xMax="310.000000" yMax="760.000000">
        <word xMin="300.000000" yMin="750.000000" xMax="310.000000" yMax="760.000000">1</word>
      </line>
    </block>
  </flow>
</page>"#;

const BODY_PAGE: &str = r#"
<page width="612.000000" height="792.000000">
  <block xMin="100.000000" yMin="100.000000" xMax="500.000000" yMax="154.000000">
    <line xMin="100.000000" yMin="100.000000" xMax="500.000000" yMax="112.000000">
      <word xMin="100.000000" yMin="100.000000" xMax="150.000000" yMax="112.000000">more</word>
    </line>
    <line xMin="100.000000" yMin="142.000000" xMax="500.000000" yMax="154.000000">
      <word xMin="100.000000" yMin="142.000000" xMax="150.000000" yMax="154.000000">text</word>
    </line>
  </block>
</page>"#;

#[test]
fn read_records_follows_the_nesting() {
    let html = document(&format!("{}{}", TITLE_PAGE, BODY_PAGE));
    let records = read_records(&html);
    assert_eq!(records.len(), 2);
    assert_eq!(records[0].width, Some("612.000000".to_string()));
    assert_eq!(records[0].height, Some("792.000000".to_string()));
    assert_eq!(records[0].blocks.len(), 3);
    assert_eq!(records[0].blocks[0].lines.len(), 1);
    assert_eq!(records[0].blocks[1].lines.len(), 2);
    assert_eq!(records[0].blocks[1].lines[0].words.len(), 2);
    assert_eq!(records[1].blocks.len(), 1);
    let b = &records[0].blocks[1].bounds;
    assert_eq!(b.xmin, Some("100.000000".to_string()));
    assert_eq!(b.ymin, Some("130.000000".to_string()));
    assert_eq!(b.xmax, Some("500.000000".to_string()));
    assert_eq!(b.ymax, Some("154.000000".to_string()));
    let l = &records[0].blocks[1].lines[1].bounds;
    assert_eq!(l.ymin, Some("142.000000".to_string()));
    let w = &records[0].blocks[1].lines[0].words[1];
    assert_eq!(w.bounds.xmin, Some("155.000000".to_string()));
    assert_eq!(w.bounds.xmax, Some("200.000000".to_string()));
    // the text of a word is all text below it, as it stands
    assert_eq!(w.text, "dominant");
    assert_eq!(records[0].blocks[0].lines[0].words[1].text, " Is ");
}

#[test]
fn read_records_keeps_missing_attributes_missing() {
    let html = document(
        r#"<page width="10"><block xmin="1" ymax=""><line><word xmin="a">w</word></line></block></page>"#,
    );
    let records = read_records(&html);
    assert_eq!(records.len(), 1);
    assert_eq!(records[0].width, Some("10".to_string()));
    assert_eq!(records[0].height, None);
    let block = &records[0].blocks[0];
    assert_eq!(block.bounds.xmin, Some("1".to_string()));
    assert_eq!(block.bounds.ymin, None);
    assert_eq!(block.bounds.xmax, None);
    assert_eq!(block.bounds.ymax, Some(String::new()));
    assert_eq!(block.lines[0].bounds.xmin, None);
    assert_eq!(block.lines[0].words[0].bounds.xmin, Some("a".to_string()));
    assert_eq!(block.lines[0].words[0].text, "w");
}

#[test]
fn read_records_of_a_document_without_pages() {
    let html = document("<p>nothing here</p>");
    assert!(read_records(&html).is_empty());
    assert_eq!(parse_html(&html), Err(ParseError::EmptyCollection));
}

#[test]
fn parse_html_builds_and_classifies() {
    let html = document(&format!("{}{}{}", TITLE_PAGE, BODY_PAGE, BODY_PAGE));
    let pages = parse_html(&html).unwrap();
    assert_eq!(pages.len(), 3);
    assert_eq!((pages[0].width, pages[0].height), (612_000_000, 792_000_000));
    let first = &pages[0].blocks[0];
    assert_eq!(
        (first.x, first.y, first.width, first.height),
        (100_000_000, 100_000_000, 400_000_000, 20_000_000)
    );
    assert_eq!(first.lines[0].get_text(), "Attention Is");
    assert_eq!(first.lines[0].words[1].text, "Is");
    assert_eq!(first.attr, BlockAttr::Title);
    assert_eq!(pages[0].blocks[1].attr, BlockAttr::Text);
    assert_eq!(pages[0].blocks[1].get_text(), "The dominant\nmodels\n");
    assert_eq!(pages[0].blocks[2].attr, BlockAttr::Else);
    assert_eq!(pages[1].blocks[0].attr, BlockAttr::Text);
    assert_eq!(pages[2].blocks[0].attr, BlockAttr::Text);
}

#[test]
fn parse_html_refuses_a_missing_attribute() {
    let broken = BODY_PAGE.replace(r#" yMax="112.000000""#, "");
    let html = document(&format!("{}{}", TITLE_PAGE, broken));
    assert_eq!(parse_html(&html), Err(ParseError::MalformedInput));
}

#[test]
fn parse_html_refuses_an_unreadable_attribute() {
    let broken = BODY_PAGE.replace(r#"width="612.000000""#, r#"width="wide""#);
    let html = document(&format!("{}{}", broken, TITLE_PAGE));
    assert_eq!(parse_html(&html), Err(ParseError::MalformedInput));
}

#[test]
fn parse_html_of_a_page_without_lines() {
    let html = document(&format!(
        "{}{}",
        TITLE_PAGE,
        r#"<page width="612.000000" height="792.000000"></page>"#
    ));
    assert_eq!(parse_html(&html), Err(ParseError::EmptyCollection));
}
