use base64::Engine;
use ankora::documents::{
    document_extension_of, document_name_of, document_search_roots, is_pdf_document,
    missing_document_error, offered_document, pdf_document, select_documents, text_document,
    unreadable_document_error,
};

#[test]
fn pdf_documents_become_data_uris() {
    assert!(is_pdf_document("/docs/Report.PDF"));
    assert!(!is_pdf_document("/docs/report.txt"));
    let d = pdf_document("/docs/report.pdf", 3, b"abc");
    assert_eq!(d.file_name, "report.pdf");
    assert_eq!(d.file_type, "pdf");
    assert_eq!(d.file_size, 3);
    assert_eq!(d.content, "data:application/pdf;base64,YWJj");
    let e = pdf_document("/docs/empty.pdf", 0, b"");
    assert_eq!(e.content, "data:application/pdf;base64,");
    let f = pdf_document("/docs/two.pdf", 2, b"ab");
    assert_eq!(f.content, "data:application/pdf;base64,YWI=");
}

#[test]
fn other_documents_keep_their_text() {
    let d = text_document("/docs/Notes.DOCX", 10, "hello".to_string());
    assert_eq!(d.file_type, "docx");
    assert_eq!(d.content, "hello");
    let t = text_document("/docs/readme", 5, "text".to_string());
    assert_eq!(t.file_type, "text");
    assert_eq!(t.file_name, "readme");
    assert_eq!(document_extension_of("/docs/readme"), "");
    assert!(!is_pdf_document("/docs/readme"));
    assert_eq!(document_name_of("/"), "");
}

#[test]
fn document_errors() {
    assert_eq!(missing_document_error("/x.pdf"), "Belge bulunamadı: /x.pdf");
    assert_eq!(unreadable_document_error("stream did not contain valid UTF-8"), "Dosya okunamadı: stream did not contain valid UTF-8");
}

#[test]
fn offered_documents_are_filtered_by_extension() {
    assert!(offered_document("/a/b.MD"));
    assert!(offered_document("/a/b.pdf"));
    assert!(!offered_document("/a/b.png"));
    assert!(!offered_document("/a/README"));
    let found = vec![
        "/a/one.pdf".to_string(),
        "/a/pic.png".to_string(),
        "/a/two.Txt".to_string(),
    ];
    assert_eq!(select_documents(&found), vec!["/a/one.pdf".to_string(), "/a/two.Txt".to_string()]);
}

#[test]
fn the_document_list_is_never_empty() {
    let none = select_documents(&vec!["/a/pic.png".to_string()]);
    assert_eq!(
        none,
        vec![
            "/root/Belgeler/ankora-sistem-rehberi.pdf".to_string(),
            "/root/Belgeler/kiosk-ayarlari.txt".to_string()
        ]
    );
    assert_eq!(select_documents(&Vec::new()).len(), 2);
}

#[test]
fn document_roots() {
    let roots = document_search_roots(Some("/home/u/Documents".to_string()), None);
    assert_eq!(roots, vec!["/home/u/Documents".to_string(), String::new(), "/root/Belgeler".to_string()]);
}

#[test]
fn pdf_content_decodes_to_the_bytes() {
    for bytes in [&b""[..], b"a", b"ab", b"abc", b"\x00\xff\x10pdf bytes"] {
        let d = pdf_document("/x.pdf", bytes.len() as u64, bytes);
        assert!(d.content.starts_with("data:application/pdf;base64,"));
        let decoded = base64::engine::general_purpose::STANDARD.decode(&d.content[28..]).unwrap();
        assert_eq!(decoded, bytes.to_vec());
    }
}
