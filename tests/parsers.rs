use moon_reader::markup::clean_markup;
use moon_reader::parsers::{assemble_spine_text, Decoded, DocumentParser, DocumentParserFactory, ParseError};

fn pdf_outcome(bytes: &[u8]) -> Result<String, String> {
    pdf_extract::extract_text_from_mem(bytes).map_err(|e| e.to_string())
}

fn epub_outcome(bytes: Vec<u8>) -> Result<Vec<Option<String>>, String> {
    let mut doc = epub::doc::EpubDoc::from_reader(std::io::Cursor::new(bytes)).map_err(|e| e.to_string())?;
    let ids: Vec<String> = doc.spine.iter().map(|item| item.idref.clone()).collect();
    Ok(ids.iter().map(|id| doc.get_resource_str(id).map(|(text, _mime)| text)).collect())
}

#[test]
fn test_txt_parser() {
    let test_content = "This is a test document.\nWith multiple lines.";
    let result = DocumentParser::parse(Decoded::Text(test_content.as_bytes().to_vec()));
    assert!(result.is_ok());
    assert_eq!(result.unwrap(), test_content);
}

#[test]
fn test_parser_factory() {
    assert!(DocumentParserFactory::get_parser("pdf").is_some());
    assert!(DocumentParserFactory::get_parser("epub").is_some());
    assert!(DocumentParserFactory::get_parser("txt").is_some());
    assert!(DocumentParserFactory::get_parser("doc").is_none());
}

#[test]
fn test_supported_extensions() {
    let extensions = DocumentParserFactory::supported_extensions();
    assert!(extensions.contains(&"pdf"));
    assert!(extensions.contains(&"epub"));
    assert!(extensions.contains(&"txt"));
}

#[test]
fn test_pdf_parser_with_invalid_file() {
    let result = DocumentParser::parse(Decoded::Pdf(pdf_outcome(b"This is not a PDF file")));
    assert!(result.is_err());
    match result.unwrap_err() {
        ParseError::Pdf(_) => {}
        _ => panic!("Expected PDF parsing error"),
    }
}

#[test]
fn test_epub_parser_with_invalid_file() {
    let result = DocumentParser::parse(Decoded::Epub(epub_outcome(b"This is not an EPUB file".to_vec())));
    assert!(result.is_err());
    match result.unwrap_err() {
        ParseError::Epub(_) => {}
        _ => panic!("Expected EPUB parsing error"),
    }
}

#[test]
fn test_parser_supported_extensions() {
    let pdf_parser = DocumentParser::Pdf;
    let epub_parser = DocumentParser::Epub;
    let txt_parser = DocumentParser::Txt;
    assert_eq!(pdf_parser.supported_extensions(), vec!["pdf"]);
    assert_eq!(epub_parser.supported_extensions(), vec!["epub"]);
    assert_eq!(txt_parser.supported_extensions(), vec!["txt"]);
}

#[test]
fn lookup_ignores_case_and_refuses_other_extensions() {
    assert_eq!(DocumentParserFactory::get_parser("PDF"), Some(DocumentParser::Pdf));
    assert_eq!(DocumentParserFactory::get_parser("EpUb"), Some(DocumentParser::Epub));
    assert_eq!(DocumentParserFactory::get_parser("Txt"), Some(DocumentParser::Txt));
    for other in ["", "doc", "pdfx", "tx", "md", " pdf"] {
        assert_eq!(DocumentParserFactory::get_parser(other), None);
    }
    assert_eq!(DocumentParserFactory::parser_for_lowercase("PDF"), None);
    assert_eq!(DocumentParserFactory::parser_for_lowercase("pdf"), Some(DocumentParser::Pdf));
}

#[test]
fn txt_extraction_round_trips_text() {
    for s in ["", "plain", "línea uno\nзначение\n日本語 ✓", "\u{0}\t\r\n"] {
        let got = DocumentParser::parse_txt(s.as_bytes().to_vec()).unwrap();
        assert_eq!(got, s);
    }
}

#[test]
fn txt_extraction_refuses_invalid_utf8() {
    let got = DocumentParser::parse_txt(vec![0x66, 0xff, 0x66]);
    assert!(matches!(got, Err(ParseError::Io(_))));
}

#[test]
fn pdf_extraction_refuses_arbitrary_bytes() {
    for bytes in [vec![], vec![0u8; 16], b"%PDF-1.4 broken".to_vec()] {
        assert!(matches!(DocumentParser::parse_pdf(pdf_outcome(&bytes)), Err(ParseError::Pdf(_))));
    }
}

#[test]
fn epub_extraction_refuses_arbitrary_bytes() {
    for bytes in [vec![], vec![0u8; 16], b"PK\x03\x04 not a zip".to_vec()] {
        assert!(matches!(DocumentParser::parse_epub(epub_outcome(bytes)), Err(ParseError::Epub(_))));
    }
}

#[test]
fn markup_is_stripped_and_breaks_become_newlines() {
    assert_eq!(clean_markup("<p>One</p><p>Two<br>Three<br/>Four</p>"), "\nOne\n\nTwo\nThree\nFour\n");
    assert_eq!(clean_markup("<html><body class=\"x\">Text</body></html>"), "Text");
    assert_eq!(clean_markup("plain text"), "plain text");
    assert_eq!(clean_markup("a<b"), "a");
    assert_eq!(clean_markup("a>b"), "ab");
}

#[test]
fn spine_items_are_joined_in_order() {
    let items = vec![
        Some("<p>First</p>".to_string()),
        None,
        Some("<div>Second<br>line</div>".to_string()),
    ];
    assert_eq!(assemble_spine_text(&items), "\nFirst\n\nSecond\nline\n");
    let two = vec![Some("A".to_string()), Some("B".to_string())];
    assert_eq!(assemble_spine_text(&two), "A\nB\n");
    assert_eq!(assemble_spine_text(&vec![]), "");
}

fn crc32(data: &[u8]) -> u32 {
    let mut crc = 0xffff_ffffu32;
    for &b in data {
        crc ^= b as u32;
        for _ in 0..8 {
            let mask = (crc & 1).wrapping_neg();
            crc = (crc >> 1) ^ (0xedb8_8320 & mask);
        }
    }
    !crc
}

/// An uncompressed zip archive holding the given files.
fn stored_zip(files: &[(&str, &str)]) -> Vec<u8> {
    let mut out = Vec::new();
    let mut central = Vec::new();
    for (name, body) in files {
        let offset = out.len() as u32;
        let crc = crc32(body.as_bytes());
        let size = body.len() as u32;
        let mut header = Vec::new();
        header.extend_from_slice(&20u16.to_le_bytes());
        header.extend_from_slice(&0u16.to_le_bytes());
        header.extend_from_slice(&0u16.to_le_bytes());
        header.extend_from_slice(&0u16.to_le_bytes());
        header.extend_from_slice(&0x21u16.to_le_bytes());
        header.extend_from_slice(&crc.to_le_bytes());
        header.extend_from_slice(&size.to_le_bytes());
        header.extend_from_slice(&size.to_le_bytes());
        header.extend_from_slice(&(name.len() as u16).to_le_bytes());
        header.extend_from_slice(&0u16.to_le_bytes());
        out.extend_from_slice(&0x0403_4b50u32.to_le_bytes());
        out.extend_from_slice(&header);
        out.extend_from_slice(name.as_bytes());
        out.extend_from_slice(body.as_bytes());
        central.extend_from_slice(&0x0201_4b50u32.to_le_bytes());
        central.extend_from_slice(&20u16.to_le_bytes());
        central.extend_from_slice(&header);
        central.extend_from_slice(&0u16.to_le_bytes());
        central.extend_from_slice(&0u16.to_le_bytes());
        central.extend_from_slice(&0u16.to_le_bytes());
        central.extend_from_slice(&0u32.to_le_bytes());
        central.extend_from_slice(&offset.to_le_bytes());
        central.extend_from_slice(name.as_bytes());
    }
    let central_offset = out.len() as u32;
    out.extend_from_slice(&central);
    out.extend_from_slice(&0x0605_4b50u32.to_le_bytes());
    out.extend_from_slice(&0u16.to_le_bytes());
    out.extend_from_slice(&0u16.to_le_bytes());
    out.extend_from_slice(&(files.len() as u16).to_le_bytes());
    out.extend_from_slice(&(files.len() as u16).to_le_bytes());
    out.extend_from_slice(&(central.len() as u32).to_le_bytes());
    out.extend_from_slice(&central_offset.to_le_bytes());
    out.extend_from_slice(&0u16.to_le_bytes());
    out
}

fn small_book(a: &str, b: &str) -> Vec<u8> {
    let container = "<?xml version=\"1.0\"?><container version=\"1.0\" xmlns=\"urn:oasis:names:tc:opendocument:xmlns:container\"><rootfiles><rootfile full-path=\"OEBPS/content.opf\" media-type=\"application/oebps-package+xml\"/></rootfiles></container>";
    let opf = "<?xml version=\"1.0\" encoding=\"UTF-8\"?><package xmlns=\"http://www.idpf.org/2007/opf\" version=\"2.0\" unique-identifier=\"id\"><metadata xmlns:dc=\"http://purl.org/dc/elements/1.1/\"><dc:title>T</dc:title><dc:identifier id=\"id\">x</dc:identifier></metadata><manifest><item id=\"a\" href=\"a.xhtml\" media-type=\"application/xhtml+xml\"/><item id=\"b\" href=\"b.xhtml\" media-type=\"application/xhtml+xml\"/></manifest><spine><itemref idref=\"a\"/><itemref idref=\"b\"/></spine></package>";
    stored_zip(&[
        ("mimetype", "application/epub+zip"),
        ("META-INF/container.xml", container),
        ("OEBPS/content.opf", opf),
        ("OEBPS/a.xhtml", a),
        ("OEBPS/b.xhtml", b),
    ])
}

#[test]
fn epub_spine_is_read_in_order() {
    let book = small_book(
        "<?xml version=\"1.0\"?><html><body>Alpha</body></html>",
        "<html><body>Beta<br/>Gamma</body></html>",
    );
    let text = DocumentParser::parse(Decoded::Epub(epub_outcome(book))).unwrap();
    assert_eq!(text, "Alpha\nBeta\nGamma\n");
    let again = DocumentParser::parse(Decoded::Epub(epub_outcome(small_book(
        "<?xml version=\"1.0\"?><html><body>Alpha</body></html>",
        "<html><body>Beta<br/>Gamma</body></html>",
    ))))
    .unwrap();
    assert_eq!(again, text);
}

#[test]
fn epub_two_item_example() {
    let text = DocumentParser::parse(Decoded::Epub(epub_outcome(small_book("<p>Hello</p>", "a<br>b")))).unwrap();
    assert_eq!(text, "\nHello\n\na\nb\n");
    assert!(!text.contains('<') && !text.contains('>'));
}

#[test]
fn epub_reader_failures_are_format_failures() {
    let r = DocumentParser::parse_epub(Err("Invalid EPub".to_string()));
    assert_eq!(r, Err(ParseError::Epub("Invalid EPub".to_string())));
    let r = DocumentParser::parse_pdf(Err("decoder failed".to_string()));
    assert_eq!(r, Err(ParseError::Pdf("decoder failed".to_string())));
    assert_eq!(DocumentParser::parse_pdf(Ok("text".to_string())), Ok("text".to_string()));
}

#[test]
fn appending_a_spine_item_appends_its_text() {
    let mut items = vec![Some("<p>A</p>".to_string()), None];
    let before = assemble_spine_text(&items);
    items.push(Some("x<br/>y".to_string()));
    assert_eq!(assemble_spine_text(&items), format!("{}x\ny\n", before));
}
