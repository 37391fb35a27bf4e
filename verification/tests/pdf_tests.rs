use payroll_core::pdf::{build_pdf, build_pdf_stream, join_strings, to_pdf};

fn s(v: &[&str]) -> Vec<String> {
    v.iter().map(|x| x.to_string()).collect()
}

#[test]
fn page_stream_lists_the_lines() {
    assert_eq!(
        build_pdf_stream(&s(&["One", "T(w)o"])),
        "BT\n/F1 10 Tf\n50 770 Td\n(One) Tj\n0 -14 Td\n(T\\(w\\)o) Tj\nET\n"
    );
    assert_eq!(build_pdf_stream(&Vec::new()), "BT\n/F1 10 Tf\n50 770 Td\nET\n");
}

fn find(hay: &[u8], needle: &[u8]) -> Option<usize> {
    hay.windows(needle.len()).position(|w| w == needle)
}

#[test]
fn document_structure_and_offsets() {
    let pdf = build_pdf(&vec![s(&["hello"]), s(&["world"])]);
    let text = String::from_utf8(pdf.clone()).unwrap();
    assert!(text.starts_with("%PDF-1.4\n1 0 obj\n<< /Type /Catalog /Pages 2 0 R >>\nendobj\n"));
    assert!(text.contains("<< /Type /Pages /Kids [3 0 R 5 0 R] /Count 2 >>"));
    assert!(text.contains("7 0 obj\n<< /Type /Font /Subtype /Type1 /BaseFont /Helvetica >>"));
    assert!(text.ends_with("%%EOF\n"));
    // every cross-reference entry points at its object
    let xref_at = find(&pdf, b"xref\n0 8\n").unwrap();
    let entries = &text[xref_at + "xref\n0 8\n".len()..];
    let lines: Vec<&str> = entries.lines().collect();
    assert_eq!(lines[0], "0000000000 65535 f ");
    for id in 1..=7usize {
        let offset: usize = lines[id][..10].parse().unwrap();
        let expected = format!("{} 0 obj\n", id);
        assert_eq!(&text[offset..offset + expected.len()], expected);
    }
    let startxref: usize = text.rsplit("startxref\n").next().unwrap().trim_end_matches("\n%%EOF\n").parse().unwrap();
    assert_eq!(startxref, xref_at);
}

#[test]
fn stream_length_counts_bytes() {
    let pdf = build_pdf(&vec![s(&["caf\u{e9}"])]);
    let text = String::from_utf8(pdf).unwrap();
    let stream = "BT\n/F1 10 Tf\n50 770 Td\n(caf\u{e9}) Tj\nET\n";
    assert!(text.contains(&format!("<< /Length {} >>\nstream\n{}endstream", stream.len(), stream)));
}

#[test]
fn joined_text() {
    assert_eq!(join_strings(&s(&["a", "b", "c"]), " | "), "a | b | c");
    assert_eq!(join_strings(&Vec::new(), ","), "");
}

#[test]
fn report_document() {
    let pdf = to_pdf("tax_register", "2024-03-07 09:30:05 UTC", &s(&["a", "b"]), &vec![s(&["1", "2"])]);
    let text = String::from_utf8(pdf).unwrap();
    assert!(text.contains("(Payroll Report: tax_register) Tj"));
    assert!(text.contains("(Generated At: 2024-03-07 09:30:05 UTC) Tj"));
    assert!(text.contains("(a | b) Tj"));
    assert!(text.contains(&format!("({}) Tj", "-".repeat(110))));
    assert!(text.contains("(1 | 2) Tj"));
    let empty = String::from_utf8(to_pdf("x", "t", &Vec::new(), &Vec::new())).unwrap();
    assert!(empty.contains("(No columns available.) Tj"));
    let no_rows = String::from_utf8(to_pdf("x", "t", &s(&["h"]), &Vec::new())).unwrap();
    assert!(no_rows.contains("(\\(No rows returned for this report\\)) Tj"));
}

#[test]
fn long_reports_span_pages() {
    let rows: Vec<Vec<String>> = (0..60).map(|i| vec![format!("row {i}")]).collect();
    let text = String::from_utf8(to_pdf("x", "t", &s(&["h"]), &rows)).unwrap();
    // 5 heading lines and 60 rows: 65 lines, 48 to a page
    assert!(text.contains("/Count 2 >>"));
}

#[test]
fn objects_appear_once_in_order() {
    let pdf = build_pdf(&vec![s(&["a"]), s(&["b"]), s(&["c"])]);
    let text = String::from_utf8(pdf).unwrap();
    let mut last = 0;
    for id in 1..=9 {
        let header = format!("\n{} 0 obj\n", id);
        assert_eq!(text.matches(&header).count(), 1);
        let at = text.find(&header).unwrap();
        assert!(at >= last);
        last = at;
    }
    assert!(!text.contains("\n10 0 obj\n"));
}
