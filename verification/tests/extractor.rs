use pdf_layout::extractor::{
    decimal, extractor_arguments, fresh_tag, is_remote, scratch_html_path, scratch_pdf_path,
    EXTRACTOR, TAG_END, TAG_MIN,
};

#[test]
fn decimal_writes_the_digits() {
    assert_eq!(decimal(0), "0");
    assert_eq!(decimal(7), "7");
    assert_eq!(decimal(10), "10");
    assert_eq!(decimal(12345), "12345");
    assert_eq!(decimal(90807), "90807");
    assert_eq!(decimal(u32::MAX), "4294967295");
}

#[test]
fn remote_sources_start_with_http() {
    assert!(is_remote("https://arxiv.org/pdf/1706.03762"));
    assert!(is_remote("http://example.org/a.pdf"));
    assert!(is_remote("http"));
    assert!(!is_remote("/tmp/test.pdf"));
    assert!(!is_remote("htt"));
    assert!(!is_remote(""));
    assert!(!is_remote("HTTP://example.org/a.pdf"));
    assert!(!is_remote("file.http"));
}

#[test]
fn scratch_paths_carry_the_tag() {
    assert_eq!(scratch_pdf_path(12345), "/tmp/pdf_12345.pdf");
    assert_eq!(scratch_html_path(12345), "/tmp/pdf_12345.html");
    assert_eq!(scratch_pdf_path(10000), "/tmp/pdf_10000.pdf");
}

#[test]
fn fresh_tags_lie_in_their_range() {
    for _ in 0..1000 {
        let tag = fresh_tag();
        assert!(TAG_MIN <= tag && tag < TAG_END);
        assert_eq!(scratch_pdf_path(tag).len(), "/tmp/pdf_12345.pdf".len());
    }
}

#[test]
fn extractor_is_run_with_the_layout_options() {
    assert_eq!(EXTRACTOR, "pdftotext");
    assert_eq!(
        extractor_arguments("/tmp/pdf_12345.pdf", "/tmp/pdf_12345.html"),
        vec![
            "/tmp/pdf_12345.pdf".to_string(),
            "-nopgbrk".to_string(),
            "-htmlmeta".to_string(),
            "-bbox-layout".to_string(),
            "/tmp/pdf_12345.html".to_string(),
        ]
    );
}
