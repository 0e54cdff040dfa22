use vstd::prelude::*;

use crate::numeric::{signed_decimal_text, write_i32};
use crate::text::{append_chars, chars_of, push_char};
use vstd::string::StringSliceAdditionalSpecFns;
use vstd::utf8::{decode_utf8, encode_utf8, is_char_boundary, is_continuation_byte};

verus! {

pub const KNOWLEDGE_BASES_QUERY: &'static str = "SELECT id, name, description, created_at, updated_at FROM knowledge_bases ORDER BY created_at DESC";

pub const DOCUMENTS_QUERY: &'static str = "SELECT id, knowledge_base_id, filename, file_type, file_path, file_size, upload_date FROM documents WHERE knowledge_base_id = ?";

pub const FILE_TYPE_FILTER: &'static str = " AND file_type = ?";

pub const DOCUMENTS_ORDER: &'static str = " ORDER BY upload_date DESC";

pub const CONTENT_SEARCH_QUERY: &'static str = "\n            SELECT d.id, d.filename, d.file_type, d.upload_date,\n                   SUBSTR(d.content_text, 1, 200) as content_preview\n            FROM documents d\n            WHERE d.knowledge_base_id = ? \n            AND d.content_text LIKE ?\n            ORDER BY d.upload_date DESC\n        ";

/// ` LIMIT l` and ` OFFSET o`, each present when its bound is.
pub open spec fn paging(limit: Option<i32>, offset: Option<i32>) -> Seq<char> {
    let l = match limit {
        Some(l) => " LIMIT "@ + signed_decimal_text(l as int),
        None => Seq::empty(),
    };
    let o = match offset {
        Some(o) => " OFFSET "@ + signed_decimal_text(o as int),
        None => Seq::empty(),
    };
    l + o
}

pub open spec fn file_type_filter(file_type: Option<&str>) -> Seq<char> {
    match file_type {
        Some(_) => FILE_TYPE_FILTER@,
        None => Seq::empty(),
    }
}

pub open spec fn documents_params(kb_id: Seq<char>, file_type: Option<&str>) -> Seq<Seq<char>> {
    match file_type {
        Some(f) => seq![kb_id, f@],
        None => seq![kb_id],
    }
}

fn append_paging(query: &mut String, limit: Option<i32>, offset: Option<i32>)
    ensures
        final(query)@ == old(query)@ + paging(limit, offset),
{
    let ghost start = query@;
    match limit {
        Some(l) => {
            query.append(" LIMIT ");
            write_i32(l, query);
        },
        None => {},
    }
    let ghost mid = query@;
    match offset {
        Some(o) => {
            query.append(" OFFSET ");
            write_i32(o, query);
        },
        None => {},
    }
    assert(query@ =~= start + paging(limit, offset));
}


/// SQL text of the store's frequent queries, with their bound parameters.
pub struct QueryOptimizer;

impl QueryOptimizer {
    /// The knowledge-base listing, newest first, with optional paging.
    pub fn optimized_knowledge_bases_query(limit: Option<i32>, offset: Option<i32>) -> (r: String)
        ensures
            r@ == KNOWLEDGE_BASES_QUERY@ + paging(limit, offset),
    {
        let mut query = KNOWLEDGE_BASES_QUERY.to_string();
        append_paging(&mut query, limit, offset);
        query
    }

    /// The documents of a knowledge base, optionally of one file type, newest
    /// first, with optional paging; the parameters bind the placeholders in
    /// order.
    pub fn optimized_documents_query(
        kb_id: &str,
        file_type: Option<&str>,
        limit: Option<i32>,
        offset: Option<i32>,
    ) -> (r: (String, Vec<String>))
        ensures
            r.0@ == DOCUMENTS_QUERY@ + file_type_filter(file_type) + DOCUMENTS_ORDER@ + paging(
                limit,
                offset,
            ),
            r.1@.map_values(|s: String| s@) == documents_params(kb_id@, file_type),
    {
        let mut query = DOCUMENTS_QUERY.to_string();
        let mut params: Vec<String> = Vec::new();
        params.push(kb_id.to_string());
        match file_type {
            Some(ft) => {
                query.append(FILE_TYPE_FILTER);
                params.push(ft.to_string());
            },
            None => {},
        }
        query.append(DOCUMENTS_ORDER);
        append_paging(&mut query, limit, offset);
        assert(params@.map_values(|s: String| s@) =~= documents_params(kb_id@, file_type));
        assert(query@ =~= DOCUMENTS_QUERY@ + file_type_filter(file_type) + DOCUMENTS_ORDER@ + paging(
            limit,
            offset,
        ));
        (query, params)
    }

    /// A search for a term in the text of a knowledge base's documents; the
    /// term is bound as a `LIKE` pattern that matches it anywhere.
    pub fn optimized_content_search_query(kb_id: &str, search_term: &str, limit: Option<i32>) -> (r: (
        String,
        Vec<String>,
    ))
        ensures
            r.0@ == CONTENT_SEARCH_QUERY@ + paging(limit, None),
            r.1@.map_values(|s: String| s@) == seq![kb_id@, "%"@ + search_term@ + "%"@],
    {
        let mut query = CONTENT_SEARCH_QUERY.to_string();
        let mut pattern = "%".to_string();
        pattern.append(search_term);
        pattern.append("%");
        let mut params: Vec<String> = Vec::new();
        params.push(kb_id.to_string());
        params.push(pattern);
        append_paging(&mut query, limit, None);
        assert(params@.map_values(|s: String| s@) =~= seq![kb_id@, "%"@ + search_term@ + "%"@]);
        (query, params)
    }
}

/// The characters that the standard library counts as white space.
pub open spec fn is_white(c: char) -> bool {
    ||| '\u{9}' <= c && c <= '\u{d}'
    ||| c == ' '
    ||| c == '\u{85}'
    ||| c == '\u{a0}'
    ||| c == '\u{1680}'
    ||| '\u{2000}' <= c && c <= '\u{200a}'
    ||| c == '\u{2028}'
    ||| c == '\u{2029}'
    ||| c == '\u{202f}'
    ||| c == '\u{205f}'
    ||| c == '\u{3000}'
}

fn is_white_char(c: char) -> (r: bool)
    ensures
        r == is_white(c),
{
    ('\u{9}' <= c && c <= '\u{d}') || c == ' ' || c == '\u{85}' || c == '\u{a0}' || c == '\u{1680}'
        || ('\u{2000}' <= c && c <= '\u{200a}') || c == '\u{2028}' || c == '\u{2029}' || c
        == '\u{202f}' || c == '\u{205f}' || c == '\u{3000}'
}

pub open spec fn trim_start(s: Seq<char>) -> Seq<char>
    decreases s.len(),
{
    if s.len() > 0 && is_white(s[0]) {
        trim_start(s.skip(1))
    } else {
        s
    }
}

pub open spec fn trim_end(s: Seq<char>) -> Seq<char>
    decreases s.len(),
{
    if s.len() > 0 && is_white(s.last()) {
        trim_end(s.drop_last())
    } else {
        s
    }
}

/// `s` without white space at either end.
pub open spec fn trimmed(s: Seq<char>) -> Seq<char> {
    trim_end(trim_start(s))
}

/// The pieces of `s` between newlines, the last one included even when empty.
pub open spec fn split_lines(s: Seq<char>) -> Seq<Seq<char>>
    decreases s.len(),
{
    if s.len() == 0 {
        seq![Seq::empty()]
    } else {
        let rest = split_lines(s.drop_last());
        if s.last() == '\n' {
            rest.push(Seq::empty())
        } else {
            rest.update(rest.len() - 1, rest.last().push(s.last()))
        }
    }
}

/// The trimmed lines that are not empty, in order.
pub open spec fn kept_lines(lines: Seq<Seq<char>>) -> Seq<Seq<char>>
    decreases lines.len(),
{
    if lines.len() == 0 {
        Seq::empty()
    } else {
        let kept = kept_lines(lines.drop_last());
        let t = trimmed(lines.last());
        if t.len() > 0 {
            kept.push(t)
        } else {
            kept
        }
    }
}

/// Lines joined with a newline between each two.
pub open spec fn join_lines(lines: Seq<Seq<char>>) -> Seq<char>
    decreases lines.len(),
{
    if lines.len() == 0 {
        Seq::empty()
    } else if lines.len() == 1 {
        lines[0]
    } else {
        join_lines(lines.drop_last()) + seq!['\n'] + lines.last()
    }
}

/// A text with each line trimmed and blank lines dropped.
pub open spec fn compacted(s: Seq<char>) -> Seq<char> {
    join_lines(kept_lines(split_lines(s)))
}

proof fn lemma_split_lines_nonempty(s: Seq<char>)
    ensures
        split_lines(s).len() >= 1,
    decreases s.len(),
{
    if s.len() > 0 {
        lemma_split_lines_nonempty(s.drop_last());
    }
}

fn trim_chars(v: &Vec<char>) -> (r: Vec<char>)
    ensures
        r@ == trimmed(v@),
{
    let mut a: usize = 0;
    assert(v@.skip(0) == v@);
    while a < v.len() && is_white_char(v[a])
        invariant
            a <= v.len(),
            trim_start(v@) == trim_start(v@.skip(a as int)),
        decreases v.len() - a,
    {
        assert(v@.skip(a as int).skip(1) == v@.skip(a + 1));
        a = a + 1;
    }
    let ghost st = v@.skip(a as int);
    assert(trim_start(v@) == st);
    let mut b: usize = v.len();
    assert(st == v@.subrange(a as int, b as int));
    while b > a && is_white_char(v[b - 1])
        invariant
            a <= b <= v.len(),
            st == v@.skip(a as int),
            trim_end(st) == trim_end(v@.subrange(a as int, b as int)),
        decreases b,
    {
        assert(v@.subrange(a as int, b as int).drop_last() == v@.subrange(a as int, b - 1));
        b = b - 1;
    }
    let mut r: Vec<char> = Vec::new();
    let mut k: usize = a;
    while k < b
        invariant
            a <= k <= b <= v.len(),
            r@ == v@.subrange(a as int, k as int),
        decreases b - k,
    {
        r.push(v[k]);
        k = k + 1;
    }
    r
}

fn add_line(out: &mut String, any: &mut bool, line: &Vec<char>, Ghost(lines): Ghost<Seq<Seq<char>>>)
    requires
        old(out)@ == join_lines(kept_lines(lines)),
        *old(any) == (kept_lines(lines).len() > 0),
    ensures
        final(out)@ == join_lines(kept_lines(lines.push(line@))),
        *final(any) == (kept_lines(lines.push(line@)).len() > 0),
{
    let ghost ls = lines.push(line@);
    assert(ls.drop_last() == lines);
    let t = trim_chars(line);
    if t.len() > 0 {
        let ghost kept = kept_lines(lines);
        assert(kept.push(t@).drop_last() == kept);
        if *any {
            push_char(out, '\n');
        }
        append_chars(out, &t);
        *any = true;
    }
}

/// The position of the last byte `x` in `b`, if any.
pub open spec fn last_byte_at(b: Seq<u8>, x: u8) -> Option<int>
    decreases b.len(),
{
    if b.len() == 0 {
        None
    } else if b.last() == x {
        Some(b.len() - 1)
    } else {
        last_byte_at(b.drop_last(), x)
    }
}

/// A preview of at most `max` bytes of UTF-8 (before the added ending): the
/// whole text when it fits; otherwise the first `max` bytes, cut at their last
/// full stop (kept) or else at their last space (then followed by `...`) when
/// that lies past half of `max`, or else followed by `...` as they are.
pub open spec fn content_preview(s: Seq<char>, max: nat) -> Seq<char> {
    let b = encode_utf8(s);
    if b.len() <= max {
        s
    } else {
        let t = b.take(max as int);
        let half = (max / 2) as int;
        let dot = last_byte_at(t, 0x2e);
        let space = last_byte_at(t, 0x20);
        if dot is Some && dot->0 > half {
            decode_utf8(t.take(dot->0)) + "."@
        } else if space is Some && space->0 > half {
            decode_utf8(t.take(space->0)) + "..."@
        } else {
            decode_utf8(t) + "..."@
        }
    }
}

fn last_index_of(bytes: &[u8], x: u8) -> (r: Option<usize>)
    ensures
        r matches Some(p) ==> last_byte_at(bytes@, x) == Some(p as int),
        r is None ==> last_byte_at(bytes@, x) is None,
        r matches Some(p) ==> p < bytes@.len() && bytes@[p as int] == x,
{
    let mut i = bytes.len();
    assert(bytes@.take(i as int) == bytes@);
    while i > 0
        invariant
            i <= bytes@.len(),
            last_byte_at(bytes@, x) == last_byte_at(bytes@.take(i as int), x),
        decreases i,
    {
        assert(bytes@.take(i as int).drop_last() == bytes@.take(i - 1));
        if bytes[i - 1] == x {
            return Some(i - 1);
        }
        i = i - 1;
    }
    None
}

/// Whether a text holds nothing but white space.
pub fn is_blank(text: &str) -> (r: bool)
    ensures
        r == (trimmed(text@).len() == 0),
{
    let v = chars_of(text);
    let t = trim_chars(&v);
    t.len() == 0
}

/// Text layout helpers for stored documents.
pub struct FileProcessor;

impl FileProcessor {
    /// Trims every line and drops the lines that are then empty.
    pub fn optimize_text_content(content: &str) -> (r: String)
        ensures
            r@ == compacted(content@),
    {
        let v = chars_of(content);
        let mut out = String::new();
        let mut any = false;
        let mut line: Vec<char> = Vec::new();
        let ghost mut done: Seq<Seq<char>> = Seq::empty();
        let mut i: usize = 0;
        assert(v@.take(0) == Seq::<char>::empty());
        while i < v.len()
            invariant
                i <= v.len(),
                v@ == content@,
                split_lines(v@.take(i as int)) == done.push(line@),
                out@ == join_lines(kept_lines(done)),
                any == (kept_lines(done).len() > 0),
            decreases v.len() - i,
        {
            let c = v[i];
            proof {
                lemma_split_lines_nonempty(v@.take(i as int));
            }
            assert(v@.take(i + 1).drop_last() == v@.take(i as int));
            assert(v@.take(i + 1).last() == c);
            if c == '\n' {
                add_line(&mut out, &mut any, &line, Ghost(done));
                proof {
                    done = done.push(line@);
                }
                line = Vec::new();
                assert(split_lines(v@.take(i + 1)) =~= done.push(line@));
            } else {
                let ghost before = line@;
                line.push(c);
                assert(split_lines(v@.take(i + 1)) =~= done.push(line@));
            }
            i = i + 1;
        }
        assert(v@.take(v.len() as int) == v@);
        add_line(&mut out, &mut any, &line, Ghost(done));
        out
    }

    /// A short preview of a text; see `content_preview`. The cut at
    /// `max_length` bytes must fall between two characters.
    pub fn generate_content_preview(content: &str, max_length: usize) -> (r: String)
        requires
            content.spec_bytes().len() > max_length ==> is_char_boundary(
                content.spec_bytes(),
                max_length as int,
            ),
        ensures
            r@ == content_preview(content@, max_length as nat),
    {
        broadcast use vstd::utf8::encode_utf8_valid_utf8, vstd::utf8::encode_utf8_decode_utf8,
            vstd::utf8::is_char_boundary_iff_not_is_continuation_byte;

        assert(content.spec_bytes() == encode_utf8(content@));
        if content.as_bytes().len() <= max_length {
            let r = content.to_string();
            return r;
        }
        let ghost t = content.spec_bytes().take(max_length as int);
        let (truncated, _) = content.split_at(max_length);
        assert(truncated.spec_bytes() == t);
        let bytes = truncated.as_bytes();
        let half = max_length / 2;
        match last_index_of(bytes, 0x2e) {
            Some(p) => if p > half {
                assert(bytes@[p as int] == truncated.spec_bytes()[p as int]);
                assert(!is_continuation_byte(truncated.spec_bytes()[p as int]));
                assert(is_char_boundary(truncated.spec_bytes(), p as int));
                let (head, _) = truncated.split_at(p);
                assert(head.spec_bytes() == t.take(p as int));
                let mut r = head.to_string();
                r.append(".");
                return r;
            },
            None => {},
        }
        match last_index_of(bytes, 0x20) {
            Some(p) => if p > half {
                assert(bytes@[p as int] == truncated.spec_bytes()[p as int]);
                assert(!is_continuation_byte(truncated.spec_bytes()[p as int]));
                assert(is_char_boundary(truncated.spec_bytes(), p as int));
                let (head, _) = truncated.split_at(p);
                assert(head.spec_bytes() == t.take(p as int));
                let mut r = head.to_string();
                r.append("...");
                return r;
            },
            None => {},
        }
        let mut r = truncated.to_string();
        r.append("...");
        r
    }
}

} // verus!
