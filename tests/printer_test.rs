use dump_dir::printer::{count_lines, Printer};
use dump_dir::sniff::{classify_head, is_binary_content};

#[test]
fn new_printer_counts_nothing() {
    let p = Printer::new(true);
    assert_eq!(p.file_count(), 0);
    assert_eq!(p.line_count(), 0);
    assert_eq!(p.skipped_unreadable(), 0);
}

#[test]
fn summary_uses_plurals() {
    let mut p = Printer::new(true);
    p.record_printed(Some(2));
    p.record_printed(None);
    p.record_printed(Some(1));
    assert_eq!(p.summary(), "── Summary: 3 files, 3 lines");
}

#[test]
fn summary_uses_singulars() {
    let mut p = Printer::new(false);
    p.record_printed(Some(1));
    assert_eq!(p.summary(), "── Summary: 1 file, 1 line");
}

#[test]
fn summary_mentions_unreadable_files() {
    let mut p = Printer::new(true);
    p.record_printed(Some(120));
    p.record_unreadable();
    p.record_unreadable();
    assert_eq!(p.summary(), "── Summary: 1 file, 120 lines, 2 unreadable skipped");
    assert_eq!(Printer::new(true).summary(), "── Summary: 0 files, 0 lines");
}

#[test]
fn lines_are_counted_as_str_lines_does() {
    assert_eq!(count_lines(""), 0);
    assert_eq!(count_lines("a"), 1);
    assert_eq!(count_lines("a\n"), 1);
    assert_eq!(count_lines("line1\nline2"), 2);
    assert_eq!(count_lines("a\n\nb\n"), 3);
    assert_eq!(count_lines("a\r\nb"), 2);
    for s in ["x\ny\n", "\n", "\n\n", "é\nü"] {
        assert_eq!(count_lines(s), s.lines().count());
    }
}

#[test]
fn non_text_signature_means_binary() {
    assert!(classify_head(Some("image/png"), b"abc"));
    assert!(!classify_head(Some("text/html"), b"<html>"));
    assert!(classify_head(Some("text/html"), b"<h\0tml>"));
    assert!(!classify_head(None, b"plain"));
    assert!(classify_head(None, b"a\0b"));
}

#[test]
fn binary_content_is_sniffed_from_the_first_bytes() {
    let png = [0x89u8, b'P', b'N', b'G', 0x0D, 0x0A, 0x1A, 0x0A, 7];
    assert!(is_binary_content(&png));
    assert!(!is_binary_content(b"hello world\n"));
    assert!(is_binary_content(b"hello\0world"));
    assert!(!is_binary_content(b""));
    let mut late_zero = vec![b'a'; 9000];
    late_zero[8500] = 0;
    assert!(!is_binary_content(&late_zero));
    late_zero[100] = 0;
    assert!(is_binary_content(&late_zero));
}
