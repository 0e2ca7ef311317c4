//! Documents of the office application: which files are offered, and what
//! is shown of a file that is opened (a PDF as a `data:` URI, anything else
//! as its text).
use vstd::prelude::*;

use crate::text::text_is;
use crate::trusted::{
    base64_char, base64_standard, encode_base64, extension_of, file_name_of, lower_case, path_extension,
    path_file_name, to_lower_case,
};

verus! {

/// A document read for display.
pub struct DocumentResult {
    pub file_name: String,
    pub file_type: String,
    pub file_size: u64,
    pub content: String,
}

/// The content of a `DocumentResult`.
pub struct DocumentModel {
    pub file_name: Seq<char>,
    pub file_type: Seq<char>,
    pub file_size: u64,
    pub content: Seq<char>,
}

impl View for DocumentResult {
    type V = DocumentModel;

    open spec fn view(&self) -> DocumentModel {
        DocumentModel {
            file_name: self.file_name@,
            file_type: self.file_type@,
            file_size: self.file_size,
            content: self.content@,
        }
    }
}

/// The error for a document path that does not exist.
pub fn missing_document_error(file_path: &str) -> (m: String)
    ensures
        m@ == "Belge bulunamadı: "@ + file_path@,
{
    let mut m = "Belge bulunamadı: ".to_owned();
    m.append(file_path);
    m
}

/// The error for a document whose text could not be read.
pub fn unreadable_document_error(reason: &str) -> (m: String)
    ensures
        m@ == "Dosya okunamadı: "@ + reason@,
{
    let mut m = "Dosya okunamadı: ".to_owned();
    m.append(reason);
    m
}

/// The file name of a document path (empty where the path has none).
pub open spec fn document_name(path: Seq<char>) -> Seq<char> {
    match path_file_name(path) {
        Some(n) => n,
        None => seq![],
    }
}

/// The extension of a document path in lower case; empty where the path
/// has none.
pub open spec fn document_extension(path: Seq<char>) -> Seq<char> {
    match path_extension(path) {
        Some(e) => lower_case(e),
        None => seq![],
    }
}

pub fn document_name_of(path: &str) -> (n: String)
    ensures
        n@ == document_name(path@),
{
    match file_name_of(path) {
        Some(n) => n,
        None => String::new(),
    }
}

pub fn document_extension_of(path: &str) -> (e: String)
    ensures
        e@ == document_extension(path@),
{
    match extension_of(path) {
        Some(e) => to_lower_case(e.as_str()),
        None => String::new(),
    }
}

/// A document whose path has no extension is neither a PDF nor a `docx`
/// document: it is opened as text.
pub proof fn lemma_no_extension_is_text(path: Seq<char>)
    requires
        path_extension(path) is None,
    ensures
        document_extension(path) == Seq::<char>::empty(),
        document_extension(path) != "pdf"@,
        document_extension(path) != "docx"@,
{
    reveal_strlit("pdf");
    reveal_strlit("docx");
    assert("pdf"@.len() == 3);
    assert("docx"@.len() == 4);
}

/// The document is opened as a PDF: its extension is `pdf` in any case.
pub fn is_pdf_document(path: &str) -> (b: bool)
    ensures
        b == (document_extension(path@) == "pdf"@),
{
    let e = document_extension_of(path);
    text_is(e.as_str(), "pdf")
}

/// A PDF document: its bytes are shown as a `data:` URI in base64.
pub fn pdf_document(path: &str, file_size: u64, bytes: &[u8]) -> (d: DocumentResult)
    requires
        bytes@.len() / 3 * 4 + 4 <= usize::MAX,
    ensures
        d@ == (DocumentModel {
            file_name: document_name(path@),
            file_type: "pdf"@,
            file_size: file_size,
            content: "data:application/pdf;base64,"@ + base64_standard(bytes@),
        }),
{
    let encoded = encode_base64(bytes);
    let mut content = "data:application/pdf;base64,".to_owned();
    content.append(encoded.as_str());
    DocumentResult {
        file_name: document_name_of(path),
        file_type: "pdf".to_owned(),
        file_size,
        content,
    }
}

/// Any other document: its text is shown as it is; it counts as `docx` when
/// its extension is `docx` in any case, else (a path without extension
/// too) as `text`.
pub fn text_document(path: &str, file_size: u64, text: String) -> (d: DocumentResult)
    ensures
        d@ == (DocumentModel {
            file_name: document_name(path@),
            file_type: if document_extension(path@) == "docx"@ {
                "docx"@
            } else {
                "text"@
            },
            file_size: file_size,
            content: text@,
        }),
{
    let e = document_extension_of(path);
    let file_type = if text_is(e.as_str(), "docx") {
        "docx".to_owned()
    } else {
        "text".to_owned()
    };
    DocumentResult { file_name: document_name_of(path), file_type, file_size, content: text }
}

// ---------------------------------------------------------------------------
// The documents offered
// ---------------------------------------------------------------------------

/// The directories searched for documents: the user's documents and
/// downloads directories (an empty path where there is none), then
/// `/root/Belgeler`.
pub fn document_search_roots(documents: Option<String>, downloads: Option<String>) -> (roots: Vec<String>)
    ensures
        roots.deep_view() == seq![
            match documents {
                Some(d) => d@,
                None => Seq::<char>::empty(),
            },
            match downloads {
                Some(d) => d@,
                None => Seq::<char>::empty(),
            },
            "/root/Belgeler"@,
        ],
{
    let ghost first = match &documents {
        Some(d) => d@,
        None => Seq::<char>::empty(),
    };
    let ghost second = match &downloads {
        Some(d) => d@,
        None => Seq::<char>::empty(),
    };
    let mut roots: Vec<String> = Vec::new();
    roots.push(
        match documents {
            Some(d) => d,
            None => String::new(),
        },
    );
    roots.push(
        match downloads {
            Some(d) => d,
            None => String::new(),
        },
    );
    roots.push("/root/Belgeler".to_owned());
    assert(roots.deep_view() =~= seq![first, second, "/root/Belgeler"@]);
    roots
}

/// A file is offered as a document when its extension, in lower case, is
/// `pdf`, `docx`, `txt` or `md`.
pub open spec fn is_offered_document(path: Seq<char>) -> bool {
    match path_extension(path) {
        Some(e) => {
            let x = lower_case(e);
            x == "pdf"@ || x == "docx"@ || x == "txt"@ || x == "md"@
        },
        None => false,
    }
}

pub fn offered_document(path: &str) -> (b: bool)
    ensures
        b == is_offered_document(path@),
{
    match extension_of(path) {
        Some(e) => {
            let x = to_lower_case(e.as_str());
            text_is(x.as_str(), "pdf") || text_is(x.as_str(), "docx") || text_is(x.as_str(), "txt")
                || text_is(x.as_str(), "md")
        },
        None => false,
    }
}

/// The files among `found` offered as documents, in the order found.
pub open spec fn offered_among(found: Seq<Seq<char>>) -> Seq<Seq<char>>
    decreases found.len(),
{
    if found.len() == 0 {
        seq![]
    } else if is_offered_document(found.last()) {
        offered_among(found.drop_last()).push(found.last())
    } else {
        offered_among(found.drop_last())
    }
}

/// The documents offered: those among the files found, or, when there are
/// none, the two documents that come with the system.
pub open spec fn available_documents(found: Seq<Seq<char>>) -> Seq<Seq<char>> {
    if offered_among(found).len() == 0 {
        seq!["/root/Belgeler/ankora-sistem-rehberi.pdf"@, "/root/Belgeler/kiosk-ayarlari.txt"@]
    } else {
        offered_among(found)
    }
}

/// Law: a file is offered exactly when it has an extension that, in lower
/// case, is `pdf`, `docx`, `txt` or `md`.
pub proof fn lemma_offered_extensions(path: Seq<char>, e: Seq<char>)
    ensures
        path_extension(path) == Some(e) ==> (is_offered_document(path) <==> (lower_case(e) == "pdf"@
            || lower_case(e) == "docx"@ || lower_case(e) == "txt"@ || lower_case(e) == "md"@)),
        path_extension(path) is None ==> !is_offered_document(path),
{
}

/// The files offered among those found are exactly the offered ones among
/// them.
proof fn lemma_offered_among_members(found: Seq<Seq<char>>)
    ensures
        forall|i: int|
            0 <= i < found.len() && is_offered_document(#[trigger] found[i])
                ==> offered_among(found).contains(found[i]),
        forall|p: Seq<char>|
            #[trigger] offered_among(found).contains(p) ==> found.contains(p) && is_offered_document(p),
    decreases found.len(),
{
    if found.len() > 0 {
        let rest = found.drop_last();
        lemma_offered_among_members(rest);
        let r = offered_among(rest);
        assert forall|i: int|
            0 <= i < found.len() && is_offered_document(#[trigger] found[i]) implies offered_among(
            found,
        ).contains(found[i]) by {
            if i < found.len() - 1 {
                assert(rest[i] == found[i]);
                if is_offered_document(found.last()) {
                    assert(offered_among(found) == r.push(found.last()));
                    let k = choose|k: int| 0 <= k < r.len() && r[k] == found[i];
                    assert(offered_among(found)[k] == found[i]);
                }
            } else {
                assert(offered_among(found) == r.push(found.last()));
                assert(offered_among(found)[r.len() as int] == found[i]);
            }
        }
        assert forall|p: Seq<char>| #[trigger] offered_among(found).contains(p) implies found.contains(
            p,
        ) && is_offered_document(p) by {
            let k = choose|k: int| 0 <= k < offered_among(found).len() && offered_among(found)[k] == p;
            if is_offered_document(found.last()) && k == r.len() {
                assert(found[found.len() - 1] == p);
            } else {
                if is_offered_document(found.last()) {
                    assert(r[k] == p);
                }
                assert(r.contains(p));
                let j = choose|j: int| 0 <= j < rest.len() && rest[j] == p;
                assert(found[j] == p);
            }
        }
    }
}

/// The files offered among those found, in the order found.
proof fn lemma_offered_among_filter(found: Seq<Seq<char>>)
    ensures
        offered_among(found) == found.filter(|p: Seq<char>| is_offered_document(p)),
    decreases found.len(),
{
    reveal(Seq::filter);
    if found.len() > 0 {
        lemma_offered_among_filter(found.drop_last());
    } else {
        assert(found.filter(|p: Seq<char>| is_offered_document(p)) =~= offered_among(found));
    }
}

/// Law: every file found whose extension, in lower case, is `pdf`, `docx`,
/// `txt` or `md` is in the list of documents offered; and each document in
/// the list is such a file found, or, when none was found, one of the two
/// documents that come with the system.
pub proof fn lemma_found_documents_listed(found: Seq<Seq<char>>)
    ensures
        forall|i: int, e: Seq<char>|
            #![trigger found[i], lower_case(e)]
            0 <= i < found.len() && path_extension(found[i]) == Some(e) && (lower_case(e)
                == "pdf"@ || lower_case(e) == "docx"@ || lower_case(e) == "txt"@ || lower_case(e)
                == "md"@) ==> available_documents(found).contains(found[i]),
        forall|p: Seq<char>|
            #[trigger] available_documents(found).contains(p) ==> (found.contains(p)
                && is_offered_document(p)) || p == "/root/Belgeler/ankora-sistem-rehberi.pdf"@ || p
                == "/root/Belgeler/kiosk-ayarlari.txt"@,
        (forall|i: int| 0 <= i < found.len() ==> !is_offered_document(#[trigger] found[i]))
            ==> available_documents(found) == seq![
            "/root/Belgeler/ankora-sistem-rehberi.pdf"@,
            "/root/Belgeler/kiosk-ayarlari.txt"@,
        ],
        (exists|i: int| 0 <= i < found.len() && is_offered_document(#[trigger] found[i]))
            ==> available_documents(found) == found.filter(|p: Seq<char>| is_offered_document(p)),
{
    lemma_offered_among_members(found);
    lemma_offered_among_filter(found);
    if exists|i: int| 0 <= i < found.len() && is_offered_document(#[trigger] found[i]) {
        let i = choose|i: int| 0 <= i < found.len() && is_offered_document(#[trigger] found[i]);
        assert(offered_among(found).contains(found[i]));
    }
    assert forall|i: int, e: Seq<char>|
        #![trigger found[i], lower_case(e)]
        0 <= i < found.len() && path_extension(found[i]) == Some(e) && (lower_case(e)
            == "pdf"@ || lower_case(e) == "docx"@ || lower_case(e) == "txt"@ || lower_case(e)
            == "md"@) implies available_documents(found).contains(found[i]) by {
        assert(is_offered_document(found[i]));
        assert(offered_among(found).contains(found[i]));
        assert(offered_among(found).len() > 0);
    }
    assert forall|p: Seq<char>| #[trigger] available_documents(found).contains(p) implies (found.contains(p)
        && is_offered_document(p)) || p == "/root/Belgeler/ankora-sistem-rehberi.pdf"@ || p
        == "/root/Belgeler/kiosk-ayarlari.txt"@ by {
        if offered_among(found).len() == 0 {
            let k = choose|k: int| 0 <= k < available_documents(found).len() && available_documents(found)[k] == p;
            assert(k == 0 || k == 1);
        }
    }
    if forall|i: int| 0 <= i < found.len() ==> !is_offered_document(#[trigger] found[i]) {
        if offered_among(found).len() > 0 {
            let p = offered_among(found)[0];
            assert(offered_among(found).contains(p));
            let j = choose|j: int| 0 <= j < found.len() && found[j] == p;
        }
    }
}

/// The documents offered from the files found in the search directories.
/// The list is never empty.
pub fn select_documents(found: &Vec<String>) -> (files: Vec<String>)
    ensures
        files.deep_view() == available_documents(found.deep_view()),
        files@.len() > 0,
{
    let ghost all = found.deep_view();
    let mut files: Vec<String> = Vec::new();
    let mut i: usize = 0;
    assert(all.take(0) =~= Seq::<Seq<char>>::empty());
    assert(files.deep_view() =~= Seq::<Seq<char>>::empty());
    while i < found.len()
        invariant
            all == found.deep_view(),
            i <= all.len(),
            files.deep_view() == offered_among(all.take(i as int)),
        decreases all.len() - i,
    {
        let ghost before = files.deep_view();
        assert(all.take(i + 1).drop_last() =~= all.take(i as int));
        assert(all.take(i + 1).last() == found@[i as int]@);
        if offered_document(found[i].as_str()) {
            files.push(found[i].clone());
            assert(files.deep_view() =~= before.push(found@[i as int]@));
        }
        i += 1;
    }
    assert(all.take(all.len() as int) =~= all);
    if files.len() == 0 {
        files.push("/root/Belgeler/ankora-sistem-rehberi.pdf".to_owned());
        files.push("/root/Belgeler/kiosk-ayarlari.txt".to_owned());
        assert(files.deep_view() =~= seq![
            "/root/Belgeler/ankora-sistem-rehberi.pdf"@,
            "/root/Belgeler/kiosk-ayarlari.txt"@,
        ]);
    }
    files
}

// ---------------------------------------------------------------------------
// Reading the base64 content back
// ---------------------------------------------------------------------------

/// The 6-bit value of a character of the standard base64 alphabet.
pub open spec fn base64_value(c: char) -> u8 {
    if 'A' <= c && c <= 'Z' {
        ((c as int) - 65) as u8
    } else if 'a' <= c && c <= 'z' {
        ((c as int) - 97 + 26) as u8
    } else if '0' <= c && c <= '9' {
        ((c as int) - 48 + 52) as u8
    } else if c == '+' {
        62
    } else {
        63
    }
}

/// Standard base64 text read back into bytes, four characters at a time;
/// a group with `=` in its third or fourth place is the last one and gives
/// one or two bytes.
pub open spec fn base64_bytes(s: Seq<char>) -> Seq<u8>
    decreases s.len(),
{
    if s.len() < 4 {
        seq![]
    } else {
        let v0 = base64_value(s[0]);
        let v1 = base64_value(s[1]);
        let v2 = base64_value(s[2]);
        let v3 = base64_value(s[3]);
        let b0 = ((v0 << 2u8) | (v1 >> 4u8)) as u8;
        let b1 = ((v1 << 4u8) | (v2 >> 2u8)) as u8;
        let b2 = ((v2 << 6u8) | v3) as u8;
        if s[2] == '=' {
            seq![b0]
        } else if s[3] == '=' {
            seq![b0, b1]
        } else {
            seq![b0, b1, b2] + base64_bytes(s.skip(4))
        }
    }
}

proof fn lemma_base64_char_value(v: u8)
    requires
        v < 64,
    ensures
        base64_value(base64_char(v as int)) == v,
        base64_char(v as int) != '=',
{
    if v < 26 {
        assert(((65 + v) as char) as int == 65 + v);
    } else if v < 52 {
        assert(((97 + v - 26) as char) as int == 97 + v - 26);
    } else if v < 62 {
        assert(((48 + v - 52) as char) as int == 48 + v - 52);
    }
}

proof fn lemma_base64_group(b0: u8, b1: u8, b2: u8)
    ensures
        b0 >> 2u8 < 64,
        ((b0 & 3u8) << 4u8) | (b1 >> 4u8) < 64,
        ((b1 & 15u8) << 2u8) | (b2 >> 6u8) < 64,
        b2 & 63u8 < 64,
        (b0 & 3u8) << 4u8 < 64,
        (b1 & 15u8) << 2u8 < 64,
        (((b0 >> 2u8) << 2u8) | ((((b0 & 3u8) << 4u8) | (b1 >> 4u8)) >> 4u8)) == b0,
        (((b0 >> 2u8) << 2u8) | (((b0 & 3u8) << 4u8) >> 4u8)) == b0,
        (((((b0 & 3u8) << 4u8) | (b1 >> 4u8)) << 4u8) | ((((b1 & 15u8) << 2u8) | (b2 >> 6u8)) >> 2u8))
            == b1,
        (((((b0 & 3u8) << 4u8) | (b1 >> 4u8)) << 4u8) | (((b1 & 15u8) << 2u8) >> 2u8)) == b1,
        (((((b1 & 15u8) << 2u8) | (b2 >> 6u8)) << 6u8) | (b2 & 63u8)) == b2,
{
    assert(b0 >> 2u8 < 64) by (bit_vector);
    assert(((b0 & 3u8) << 4u8) | (b1 >> 4u8) < 64) by (bit_vector);
    assert(((b1 & 15u8) << 2u8) | (b2 >> 6u8) < 64) by (bit_vector);
    assert(b2 & 63u8 < 64) by (bit_vector);
    assert((b0 & 3u8) << 4u8 < 64) by (bit_vector);
    assert((b1 & 15u8) << 2u8 < 64) by (bit_vector);
    assert((((b0 >> 2u8) << 2u8) | ((((b0 & 3u8) << 4u8) | (b1 >> 4u8)) >> 4u8)) == b0) by (bit_vector);
    assert((((b0 >> 2u8) << 2u8) | (((b0 & 3u8) << 4u8) >> 4u8)) == b0) by (bit_vector);
    assert((((((b0 & 3u8) << 4u8) | (b1 >> 4u8)) << 4u8) | ((((b1 & 15u8) << 2u8) | (b2 >> 6u8))
        >> 2u8)) == b1) by (bit_vector);
    assert((((((b0 & 3u8) << 4u8) | (b1 >> 4u8)) << 4u8) | (((b1 & 15u8) << 2u8) >> 2u8)) == b1)
        by (bit_vector);
    assert((((((b1 & 15u8) << 2u8) | (b2 >> 6u8)) << 6u8) | (b2 & 63u8)) == b2) by (bit_vector);
}

/// Law: base64 text made by the `STANDARD` engine reads back into the bytes
/// it was made from.
pub proof fn lemma_base64_round_trip(b: Seq<u8>)
    ensures
        base64_bytes(base64_standard(b)) == b,
    decreases b.len(),
{
    let s = base64_standard(b);
    if b.len() == 0 {
        assert(b =~= Seq::<u8>::empty());
    } else {
        let b0 = b[0];
        let b1 = if b.len() > 1 { b[1] } else { 0u8 };
        let b2 = if b.len() > 2 { b[2] } else { 0u8 };
        lemma_base64_group(b0, b1, b2);
        lemma_base64_char_value(b0 >> 2u8);
        if b.len() == 1 {
            lemma_base64_char_value((b0 & 3u8) << 4u8);
            assert(base64_bytes(s) =~= b);
        } else if b.len() == 2 {
            lemma_base64_char_value(((b0 & 3u8) << 4u8) | (b1 >> 4u8));
            lemma_base64_char_value((b1 & 15u8) << 2u8);
            assert(base64_bytes(s) =~= b);
        } else {
            lemma_base64_char_value(((b0 & 3u8) << 4u8) | (b1 >> 4u8));
            lemma_base64_char_value(((b1 & 15u8) << 2u8) | (b2 >> 6u8));
            lemma_base64_char_value(b2 & 63u8);
            lemma_base64_round_trip(b.skip(3));
            assert(s.skip(4) =~= base64_standard(b.skip(3)));
            assert(base64_bytes(s) =~= seq![b0, b1, b2] + b.skip(3));
            assert(seq![b0, b1, b2] + b.skip(3) =~= b);
        }
    }
}

/// Law: the content of a PDF document, after its `data:` prefix, reads back
/// as base64 into the bytes of the file.
pub proof fn lemma_pdf_content_reads_back(bytes: Seq<u8>)
    ensures
        ({
            let prefix = "data:application/pdf;base64,"@;
            let content = prefix + base64_standard(bytes);
            &&& content.take(prefix.len() as int) == prefix
            &&& base64_bytes(content.skip(prefix.len() as int)) == bytes
        }),
{
    let prefix = "data:application/pdf;base64,"@;
    let content = prefix + base64_standard(bytes);
    assert(content.take(prefix.len() as int) =~= prefix);
    assert(content.skip(prefix.len() as int) =~= base64_standard(bytes));
    lemma_base64_round_trip(bytes);
}

} // verus!
