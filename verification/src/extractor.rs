//! What is handed to the outside layout extractor: where a source document
//! is found, the scratch files that the extractor works on, and its command
//! line. Running it is left to the caller.

use rand::Rng;
use vstd::prelude::*;

verus! {

/// The program that extracts the layout.
pub const EXTRACTOR: &'static str = "pdftotext";

/// Least tag of a scratch file.
pub const TAG_MIN: u32 = 10000;

/// Bound of the tags of scratch files; no tag reaches it.
pub const TAG_END: u32 = 99999;

/// The character that writes the decimal digit `d`.
pub open spec fn digit_char(d: nat) -> char {
    if d == 0 {
        '0'
    } else if d == 1 {
        '1'
    } else if d == 2 {
        '2'
    } else if d == 3 {
        '3'
    } else if d == 4 {
        '4'
    } else if d == 5 {
        '5'
    } else if d == 6 {
        '6'
    } else if d == 7 {
        '7'
    } else if d == 8 {
        '8'
    } else {
        '9'
    }
}

/// The number in decimal digits, without leading zeros.
pub open spec fn decimal_text(n: nat) -> Seq<char>
    decreases n,
{
    if n < 10 {
        seq![digit_char(n)]
    } else {
        decimal_text(n / 10).push(digit_char(n % 10))
    }
}

/// The path of the scratch copy of the source document with that tag.
pub open spec fn pdf_path_text(tag: nat) -> Seq<char> {
    "/tmp/pdf_"@ + decimal_text(tag) + ".pdf"@
}

/// The path of the extractor's output for the scratch copy with that tag:
/// the same path with the extension `html`.
pub open spec fn html_path_text(tag: nat) -> Seq<char> {
    "/tmp/pdf_"@ + decimal_text(tag) + ".html"@
}

/// Calls `rand::thread_rng` and `Rng::gen_range` on the half-open range
/// from `low` to `high`.
///
/// Not proved, taken from the documentation of `gen_range`: the value lies
/// in the range. Which value comes is left open. An empty range would
/// panic, so `low < high` is asked.
#[verifier::external_body]
fn random_between(low: u32, high: u32) -> (r: u32)
    requires
        low < high,
    ensures
        low <= r < high,
{
    rand::thread_rng().gen_range(low..high)
}

/// Calls `str::starts_with` with a string as the pattern.
///
/// Not proved, taken from its documentation: whether the pattern matches a
/// prefix of the text.
#[verifier::external_body]
fn starts_with(text: &str, prefix: &str) -> (r: bool)
    ensures
        r == prefix@.is_prefix_of(text@),
{
    text.starts_with(prefix)
}

fn digit_text(d: u32) -> (r: &'static str)
    requires
        d < 10,
    ensures
        r@ == seq![digit_char(d as nat)],
{
    proof {
        reveal_strlit("0");
        reveal_strlit("1");
        reveal_strlit("2");
        reveal_strlit("3");
        reveal_strlit("4");
        reveal_strlit("5");
        reveal_strlit("6");
        reveal_strlit("7");
        reveal_strlit("8");
        reveal_strlit("9");
    }
    let r: &'static str = if d == 0 {
        "0"
    } else if d == 1 {
        "1"
    } else if d == 2 {
        "2"
    } else if d == 3 {
        "3"
    } else if d == 4 {
        "4"
    } else if d == 5 {
        "5"
    } else if d == 6 {
        "6"
    } else if d == 7 {
        "7"
    } else if d == 8 {
        "8"
    } else {
        "9"
    };
    assert(r@ =~= seq![digit_char(d as nat)]);
    r
}

/// The number in decimal digits.
pub fn decimal(n: u32) -> (r: String)
    ensures
        r@ == decimal_text(n as nat),
    decreases n,
{
    if n < 10 {
        digit_text(n).to_owned()
    } else {
        let mut text: String = decimal(n / 10);
        text.append(digit_text(n % 10));
        text
    }
}

/// Whether the source is fetched over the network: its name starts with
/// `http`. Any other name is taken for the path of a local file.
pub fn is_remote(path_or_url: &str) -> (r: bool)
    ensures
        r == "http"@.is_prefix_of(path_or_url@),
{
    starts_with(path_or_url, "http")
}

/// The path of the scratch copy with that tag.
pub fn scratch_pdf_path(tag: u32) -> (r: String)
    ensures
        r@ == pdf_path_text(tag as nat),
{
    let mut path: String = String::new();
    path.append("/tmp/pdf_");
    path.append(decimal(tag).as_str());
    path.append(".pdf");
    assert(path@ =~= pdf_path_text(tag as nat));
    path
}

/// The path of the extractor's output for the scratch copy with that tag.
pub fn scratch_html_path(tag: u32) -> (r: String)
    ensures
        r@ == html_path_text(tag as nat),
{
    let mut path: String = String::new();
    path.append("/tmp/pdf_");
    path.append(decimal(tag).as_str());
    path.append(".html");
    assert(path@ =~= html_path_text(tag as nat));
    path
}

/// A tag for a new pair of scratch files, drawn at random.
pub fn fresh_tag() -> (r: u32)
    ensures
        TAG_MIN <= r < TAG_END,
{
    random_between(TAG_MIN, TAG_END)
}

/// The arguments with which the extractor is run: the document, the
/// options for one flow of pages, a header and the boxes of blocks, lines
/// and words, and the file to write.
pub fn extractor_arguments(pdf_path: &str, html_path: &str) -> (r: Vec<String>)
    ensures
        r@.len() == 5,
        r@[0]@ == pdf_path@,
        r@[1]@ == "-nopgbrk"@,
        r@[2]@ == "-htmlmeta"@,
        r@[3]@ == "-bbox-layout"@,
        r@[4]@ == html_path@,
{
    let mut arguments: Vec<String> = Vec::new();
    arguments.push(pdf_path.to_owned());
    arguments.push("-nopgbrk".to_owned());
    arguments.push("-htmlmeta".to_owned());
    arguments.push("-bbox-layout".to_owned());
    arguments.push(html_path.to_owned());
    arguments
}

} // verus!
