use vstd::prelude::*;
use vstd::utf8::{decode_utf8, encode_utf8, valid_utf8};

use crate::markup::{clean_markup, cleaned, cleaned_is_free_of_markup, free_of_markup};
use crate::numeric::lower_ascii;
use crate::text::{opt_text, push_char, same_text};

verus! {

broadcast use vstd::utf8::encode_utf8_valid_utf8, vstd::utf8::encode_utf8_decode_utf8;

/// `std::string::FromUtf8Error`, the refusal of bytes that are not UTF-8.
#[verifier::external_type_specification]
#[verifier::external_body]
pub struct ExFromUtf8Error(std::string::FromUtf8Error);

/// Relies on `String::from_utf8`: the bytes are taken as they are when they are
/// valid UTF-8, and refused otherwise.
#[verifier::external_body]
fn utf8_text(bytes: Vec<u8>) -> (r: Result<String, std::string::FromUtf8Error>)
    ensures
        r is Ok <==> valid_utf8(bytes@),
        r matches Ok(t) ==> t@ == decode_utf8(bytes@),
{
    String::from_utf8(bytes)
}

/// Why a document yielded no text.
#[derive(Debug, PartialEq, Eq)]
pub enum ParseError {
    /// The bytes could not be read as text.
    Io(String),
    /// The bytes are no PDF document the decoder accepts.
    Pdf(String),
    /// The bytes are no EPUB container the reader accepts.
    Epub(String),
    /// No extractor is registered for the format.
    UnsupportedFormat,
    /// The worker that ran the extraction did not complete.
    TaskFailed(String),
}

/// The text of a plain-text file: its bytes decoded as UTF-8, or `None` when
/// they are not valid UTF-8.
pub open spec fn txt_text_of(bytes: Seq<u8>) -> Option<Seq<char>> {
    if valid_utf8(bytes) {
        Some(decode_utf8(bytes))
    } else {
        None
    }
}

/// The text of an EPUB reading order: each resource that was found, cleaned of
/// markup and followed by a newline, in order.
pub open spec fn spine_text(items: Seq<Option<Seq<char>>>) -> Seq<char>
    decreases items.len(),
{
    if items.len() == 0 {
        Seq::empty()
    } else {
        spine_text(items.drop_last()) + match items.last() {
            Some(t) => cleaned(t) + seq!['\n'],
            None => Seq::empty(),
        }
    }
}

/// Joins the resources of an EPUB reading order into one text.
pub fn assemble_spine_text(items: &Vec<Option<String>>) -> (r: String)
    ensures
        r@ == spine_text(spine_views(items@)),
{
    let ghost views = spine_views(items@);
    let mut r = String::new();
    let mut i: usize = 0;
    while i < items.len()
        invariant
            i <= items.len(),
            views == spine_views(items@),
            r@ == spine_text(views.take(i as int)),
        decreases items.len() - i,
    {
        assert(views.take(i + 1).drop_last() == views.take(i as int));
        match &items[i] {
            Some(t) => {
                let clean = clean_markup(t.as_str());
                r.append(clean.as_str());
                push_char(&mut r, '\n');
                assert(r@ == spine_text(views.take(i as int)) + (cleaned(t@) + seq!['\n']));
            },
            None => {
                assert(r@ == spine_text(views.take(i as int)) + Seq::<char>::empty());
            },
        }
        i = i + 1;
    }
    assert(views.take(items.len() as int) == views);
    r
}

/// One extractor for each supported document format.
#[derive(Debug, Clone, Copy, PartialEq, Eq, Structural)]
pub enum DocumentParser {
    Pdf,
    Epub,
    Txt,
}

/// What a format's decoder made of a document. The PDF and EPUB decoders can
/// panic on malformed input, so they run where a panic can be caught and
/// reported as the decoder's failure, and their outcome is handed in here.
pub enum Decoded {
    /// The bytes of a plain-text file.
    Text(Vec<u8>),
    /// The PDF decoder's text, or the message of its failure.
    Pdf(Result<String, String>),
    /// The EPUB reader's resources in reading order (`None` where the spine
    /// names a resource that the container lacks), or the message of its
    /// failure to open the container.
    Epub(Result<Vec<Option<String>>, String>),
}

pub open spec fn spine_views(items: Seq<Option<String>>) -> Seq<Option<Seq<char>>> {
    items.map_values(|o: Option<String>| opt_text(o))
}

/// Whether `r` is the extraction of `d`: plain text is its bytes decoded as
/// UTF-8 (an `Io` failure when they are not UTF-8), a PDF is the decoder's
/// text, an EPUB is the cleaned text of its reading order, and a decoder's
/// failure is the format failure of its format with the decoder's message.
pub open spec fn extracts(d: Decoded, r: Result<String, ParseError>) -> bool {
    match d {
        Decoded::Text(b) => match txt_text_of(b@) {
            Some(t) => r is Ok && r->Ok_0@ == t,
            None => r is Err && r->Err_0 is Io,
        },
        Decoded::Pdf(Ok(t)) => r is Ok && r->Ok_0@ == t@,
        Decoded::Pdf(Err(m)) => r is Err && r->Err_0 is Pdf && r->Err_0->Pdf_0@ == m@,
        Decoded::Epub(Ok(items)) => r is Ok && r->Ok_0@ == spine_text(spine_views(items@)),
        Decoded::Epub(Err(m)) => r is Err && r->Err_0 is Epub && r->Err_0->Epub_0@ == m@,
    }
}

/// The extractor whose decoder produced `d`.
pub open spec fn format_of(d: Decoded) -> DocumentParser {
    match d {
        Decoded::Text(_) => DocumentParser::Txt,
        Decoded::Pdf(_) => DocumentParser::Pdf,
        Decoded::Epub(_) => DocumentParser::Epub,
    }
}

/// Whether `e` is the failure that `parser` reports for input it refuses.
pub open spec fn failure_of(parser: DocumentParser, e: ParseError) -> bool {
    match parser {
        DocumentParser::Pdf => e is Pdf,
        DocumentParser::Epub => e is Epub,
        DocumentParser::Txt => e is Io,
    }
}

/// The file extensions that an extractor handles.
pub open spec fn extensions_of(parser: DocumentParser) -> Seq<Seq<char>> {
    match parser {
        DocumentParser::Pdf => seq!["pdf"@],
        DocumentParser::Epub => seq!["epub"@],
        DocumentParser::Txt => seq!["txt"@],
    }
}

impl DocumentParser {
    /// Decodes a plain-text file as UTF-8.
    pub fn parse_txt(bytes: Vec<u8>) -> (r: Result<String, ParseError>)
        ensures
            extracts(Decoded::Text(bytes), r),
    {
        match utf8_text(bytes) {
            Ok(text) => Ok(text),
            Err(e) => Err(ParseError::Io(e.to_string())),
        }
    }

    /// The text of a PDF document, from its decoder's outcome.
    pub fn parse_pdf(decoded: Result<String, String>) -> (r: Result<String, ParseError>)
        ensures
            extracts(Decoded::Pdf(decoded), r),
    {
        match decoded {
            Ok(text) => Ok(text),
            Err(message) => Err(ParseError::Pdf(message)),
        }
    }

    /// The text of an EPUB container, from its reader's outcome: the cleaned
    /// text of each resource of the reading order, each followed by a newline.
    pub fn parse_epub(spine: Result<Vec<Option<String>>, String>) -> (r: Result<String, ParseError>)
        ensures
            extracts(Decoded::Epub(spine), r),
    {
        match spine {
            Ok(items) => Ok(assemble_spine_text(&items)),
            Err(message) => Err(ParseError::Epub(message)),
        }
    }

    /// Extracts the text of a decoded document.
    pub fn parse(decoded: Decoded) -> (r: Result<String, ParseError>)
        ensures
            extracts(decoded, r),
            r matches Err(e) ==> failure_of(format_of(decoded), e),
    {
        match decoded {
            Decoded::Text(bytes) => Self::parse_txt(bytes),
            Decoded::Pdf(outcome) => Self::parse_pdf(outcome),
            Decoded::Epub(outcome) => Self::parse_epub(outcome),
        }
    }

    pub fn supported_extensions(&self) -> (r: Vec<&'static str>)
        ensures
            r@.map_values(|s: &str| s@) == extensions_of(*self),
    {
        let r = match self {
            DocumentParser::Pdf => vec!["pdf"],
            DocumentParser::Epub => vec!["epub"],
            DocumentParser::Txt => vec!["txt"],
        };
        assert(r@.map_values(|s: &str| s@) =~= extensions_of(*self));
        r
    }
}

/// What an extension in lower case maps to.
pub open spec fn parser_for(ext: Seq<char>) -> Option<DocumentParser> {
    if ext == "pdf"@ {
        Some(DocumentParser::Pdf)
    } else if ext == "epub"@ {
        Some(DocumentParser::Epub)
    } else if ext == "txt"@ {
        Some(DocumentParser::Txt)
    } else {
        None
    }
}

pub open spec fn supported_extension_list() -> Seq<Seq<char>> {
    seq!["pdf"@, "epub"@, "txt"@]
}

/// The lower-case form of a text.
pub uninterp spec fn lower_of(s: Seq<char>) -> Seq<char>;

/// Relies on `str::to_lowercase`: the lower-case mapping of each character,
/// which depends on the characters alone; on ASCII text it maps `A`..`Z` to
/// `a`..`z` and keeps every other character.
#[verifier::external_body]
pub(crate) fn lowercase_text(s: &str) -> (r: String)
    ensures
        r@ == lower_of(s@),
        (forall|i: int| 0 <= i < s@.len() ==> (#[trigger] s@[i] as u32) < 128) ==> r@ == s@.map_values(
            |c: char| lower_ascii(c),
        ),
{
    s.to_lowercase()
}

/// Maps file extensions to extractors.
pub struct DocumentParserFactory;

impl DocumentParserFactory {
    /// The extractor for an extension, compared without regard to case.
    pub fn get_parser(file_extension: &str) -> (r: Option<DocumentParser>)
        ensures
            r == parser_for(lower_of(file_extension@)),
            (forall|i: int| 0 <= i < file_extension@.len() ==> (#[trigger] file_extension@[i] as u32)
                < 128) ==> r == parser_for(file_extension@.map_values(|c: char| lower_ascii(c))),
    {
        let lower = lowercase_text(file_extension);
        Self::parser_for_lowercase(lower.as_str())
    }

    /// The extractor for an extension already in lower case.
    pub fn parser_for_lowercase(ext: &str) -> (r: Option<DocumentParser>)
        ensures
            r == parser_for(ext@),
    {
        if same_text(ext, "pdf") {
            Some(DocumentParser::Pdf)
        } else if same_text(ext, "epub") {
            Some(DocumentParser::Epub)
        } else if same_text(ext, "txt") {
            Some(DocumentParser::Txt)
        } else {
            None
        }
    }

    pub fn supported_extensions() -> (r: Vec<&'static str>)
        ensures
            r@.map_values(|s: &str| s@) == supported_extension_list(),
    {
        let r = vec!["pdf", "epub", "txt"];
        assert(r@.map_values(|s: &str| s@) =~= supported_extension_list());
        r
    }
}

/// An extension in lower case has an extractor exactly when it is one of the
/// supported extensions, and that extractor lists it.
pub proof fn lookup_matches_supported_extensions(ext: Seq<char>)
    ensures
        parser_for(ext) is Some <==> supported_extension_list().contains(ext),
        parser_for(ext) matches Some(p) ==> extensions_of(p).contains(ext),
{
    let l = supported_extension_list();
    if l.contains(ext) {
        let i = choose|i: int| 0 <= i < l.len() && l[i] == ext;
        assert(i == 0 || i == 1 || i == 2);
    }
    if parser_for(ext) is Some {
        assert(l[0] == "pdf"@ && l[1] == "epub"@ && l[2] == "txt"@);
        if ext == "pdf"@ {
            assert(l[0] == ext);
            assert(extensions_of(DocumentParser::Pdf)[0] == ext);
        } else if ext == "epub"@ {
            assert(l[1] == ext);
            assert(extensions_of(DocumentParser::Epub)[0] == ext);
        } else {
            assert(l[2] == ext);
            assert(extensions_of(DocumentParser::Txt)[0] == ext);
        }
    }
}

/// Plain text written out as UTF-8 is extracted unchanged.
pub proof fn txt_extraction_round_trips(s: Seq<char>)
    ensures
        txt_text_of(encode_utf8(s)) == Some(s),
{
}

/// A reading order of two found resources yields the first one's text, a
/// newline, the second one's text and a newline.
pub proof fn spine_text_of_two(a: Seq<char>, b: Seq<char>)
    ensures
        spine_text(seq![Some(a), Some(b)]) == cleaned(a) + seq!['\n'] + cleaned(b) + seq!['\n'],
{
    let items = seq![Some(a), Some(b)];
    assert(items.drop_last() == seq![Some(a)]);
    assert(seq![Some(a)].drop_last() == Seq::<Option<Seq<char>>>::empty());
    assert(spine_text(Seq::<Option<Seq<char>>>::empty()) == Seq::<char>::empty());
    assert(seq![Some(a)].last() == Some(a));
    assert(items.last() == Some(b));
    assert(spine_text(seq![Some(a)]) == Seq::<char>::empty() + (cleaned(a) + seq!['\n']));
    assert(Seq::<char>::empty() + (cleaned(a) + seq!['\n']) == cleaned(a) + seq!['\n']);
    assert((cleaned(a) + seq!['\n']) + (cleaned(b) + seq!['\n']) == cleaned(a) + seq!['\n']
        + cleaned(b) + seq!['\n']);
}

/// Appending a found resource to the reading order appends its cleaned text
/// and a newline; the resources before it keep their text.
pub proof fn spine_text_appends(items: Seq<Option<Seq<char>>>, h: Seq<char>)
    ensures
        spine_text(items.push(Some(h))) == spine_text(items) + cleaned(h) + seq!['\n'],
        spine_text(items.push(None)) == spine_text(items),
{
    assert(items.push(Some(h)).drop_last() == items);
    assert(items.push(None).drop_last() == items);
    assert(spine_text(items) + (cleaned(h) + seq!['\n']) == spine_text(items) + cleaned(h) + seq!['\n']);
    assert(spine_text(items) + Seq::<char>::empty() == spine_text(items));
}

/// No tag delimiter survives EPUB extraction.
pub proof fn spine_text_is_free_of_markup(items: Seq<Option<Seq<char>>>)
    ensures
        free_of_markup(spine_text(items)),
    decreases items.len(),
{
    if items.len() > 0 {
        spine_text_is_free_of_markup(items.drop_last());
        let head = spine_text(items.drop_last());
        let tail = match items.last() {
            Some(t) => cleaned(t) + seq!['\n'],
            None => Seq::<char>::empty(),
        };
        if let Some(t) = items.last() {
            cleaned_is_free_of_markup(t);
            assert(free_of_markup(tail)) by {
                assert forall|i: int| 0 <= i < tail.len() implies tail[i] != '<' && tail[i] != '>' by {
                    if i < cleaned(t).len() {
                        assert(tail[i] == cleaned(t)[i]);
                    }
                }
            }
        }
        let all = head + tail;
        assert forall|i: int| 0 <= i < all.len() implies all[i] != '<' && all[i] != '>' by {
            if i < head.len() {
                assert(all[i] == head[i]);
            } else {
                assert(all[i] == tail[i - head.len()]);
            }
        }
    }
}

} // verus!
