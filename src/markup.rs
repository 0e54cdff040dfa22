use vstd::prelude::*;

use crate::text::{chars_of, push_char};

verus! {

pub open spec fn opens_br(s: Seq<char>) -> bool {
    s.len() >= 4 && s[0] == '<' && s[1] == 'b' && s[2] == 'r' && s[3] == '>'
}

pub open spec fn opens_br_closed(s: Seq<char>) -> bool {
    s.len() >= 5 && s[0] == '<' && s[1] == 'b' && s[2] == 'r' && s[3] == '/' && s[4] == '>'
}

pub open spec fn opens_p(s: Seq<char>) -> bool {
    s.len() >= 3 && s[0] == '<' && s[1] == 'p' && s[2] == '>'
}

pub open spec fn closes_p(s: Seq<char>) -> bool {
    s.len() >= 4 && s[0] == '<' && s[1] == '/' && s[2] == 'p' && s[3] == '>'
}

/// Length of the line-break tag (`<br>`, `<br/>`, `<p>` or `</p>`) that `s`
/// starts with, or 0 when it starts with none of them.
pub open spec fn break_len(s: Seq<char>) -> nat {
    if opens_br(s) {
        4
    } else if opens_br_closed(s) {
        5
    } else if opens_p(s) {
        3
    } else if closes_p(s) {
        4
    } else {
        0
    }
}

/// `s` with every `<br>`, `<br/>`, `<p>` and `</p>` replaced by a newline.
pub open spec fn normalize_breaks(s: Seq<char>) -> Seq<char>
    decreases s.len(),
{
    if s.len() == 0 {
        Seq::empty()
    } else if break_len(s) > 0 {
        seq!['\n'] + normalize_breaks(s.skip(break_len(s) as int))
    } else {
        seq![s[0]] + normalize_breaks(s.skip(1))
    }
}

/// The characters of `s` that lie outside tags, where `<` opens a tag and `>`
/// closes it; `in_tag` is the state the scan starts in.
pub open spec fn strip_from(s: Seq<char>, in_tag: bool) -> Seq<char>
    decreases s.len(),
{
    if s.len() == 0 {
        Seq::empty()
    } else if s[0] == '<' {
        strip_from(s.skip(1), true)
    } else if s[0] == '>' {
        strip_from(s.skip(1), false)
    } else if in_tag {
        strip_from(s.skip(1), true)
    } else {
        seq![s[0]] + strip_from(s.skip(1), false)
    }
}

pub open spec fn strip_tags(s: Seq<char>) -> Seq<char> {
    strip_from(s, false)
}

/// Plain text of a markup fragment: line-break tags become newlines, then all
/// tags are dropped.
pub open spec fn cleaned(s: Seq<char>) -> Seq<char> {
    strip_tags(normalize_breaks(s))
}

fn break_len_at(v: &Vec<char>, i: usize) -> (n: usize)
    requires
        i <= v.len(),
    ensures
        n == break_len(v@.skip(i as int)),
{
    let len = v.len();
    let rest = len - i;
    if rest >= 4 && v[i] == '<' && v[i + 1] == 'b' && v[i + 2] == 'r' && v[i + 3] == '>' {
        4
    } else if rest >= 5 && v[i] == '<' && v[i + 1] == 'b' && v[i + 2] == 'r' && v[i + 3] == '/'
        && v[i + 4] == '>' {
        5
    } else if rest >= 3 && v[i] == '<' && v[i + 1] == 'p' && v[i + 2] == '>' {
        3
    } else if rest >= 4 && v[i] == '<' && v[i + 1] == '/' && v[i + 2] == 'p' && v[i + 3] == '>' {
        4
    } else {
        0
    }
}

/// Replaces each line-break tag of `v` by a newline.
pub fn normalize_line_breaks(v: &Vec<char>) -> (r: Vec<char>)
    ensures
        r@ == normalize_breaks(v@),
{
    let mut r: Vec<char> = Vec::new();
    let mut i: usize = 0;
    assert(v@.skip(0) == v@);
    assert(r@ + normalize_breaks(v@) == normalize_breaks(v@));
    while i < v.len()
        invariant
            i <= v.len(),
            r@ + normalize_breaks(v@.skip(i as int)) == normalize_breaks(v@),
        decreases v.len() - i,
    {
        let ghost rest = v@.skip(i as int);
        let n = break_len_at(v, i);
        if n > 0 {
            assert(rest.skip(n as int) == v@.skip(i + n));
            r.push('\n');
            i = i + n;
        } else {
            assert(rest.skip(1) == v@.skip(i + 1));
            assert(rest[0] == v@[i as int]);
            r.push(v[i]);
            i = i + 1;
        }
        assert(r@ + normalize_breaks(v@.skip(i as int)) == normalize_breaks(v@));
    }
    assert(v@.skip(i as int) == Seq::<char>::empty());
    assert(r@ + Seq::<char>::empty() == r@);
    r
}

/// Appends to `out` the characters of `v` that lie outside tags.
pub fn strip_tags_into(v: &Vec<char>, out: &mut String)
    ensures
        final(out)@ == old(out)@ + strip_tags(v@),
{
    let mut in_tag = false;
    let mut i: usize = 0;
    assert(v@.skip(0) == v@);
    while i < v.len()
        invariant
            i <= v.len(),
            out@ + strip_from(v@.skip(i as int), in_tag) == old(out)@ + strip_tags(v@),
        decreases v.len() - i,
    {
        let ghost rest = v@.skip(i as int);
        assert(rest.skip(1) == v@.skip(i + 1));
        let c = v[i];
        if c == '<' {
            in_tag = true;
        } else if c == '>' {
            in_tag = false;
        } else if !in_tag {
            push_char(out, c);
            assert(out@ + strip_from(v@.skip(i + 1), false) == old(out)@ + strip_tags(v@));
        }
        i = i + 1;
    }
    assert(v@.skip(i as int) == Seq::<char>::empty());
    assert(out@ + Seq::<char>::empty() == out@);
}

/// The plain text of a markup fragment.
pub fn clean_markup(text: &str) -> (r: String)
    ensures
        r@ == cleaned(text@),
{
    let chars = chars_of(text);
    let normalized = normalize_line_breaks(&chars);
    let mut r = String::new();
    strip_tags_into(&normalized, &mut r);
    assert(r@ == Seq::<char>::empty() + cleaned(text@));
    assert(Seq::<char>::empty() + cleaned(text@) == cleaned(text@));
    r
}

/// Whether `s` holds no tag delimiter.
pub open spec fn free_of_markup(s: Seq<char>) -> bool {
    forall|i: int| 0 <= i < s.len() ==> s[i] != '<' && s[i] != '>'
}

/// Whether `p` is one of the tags that mark a line break.
pub open spec fn is_line_break_tag(p: Seq<char>) -> bool {
    ||| p == seq!['<', 'b', 'r', '>']
    ||| p == seq!['<', 'b', 'r', '/', '>']
    ||| p == seq!['<', 'p', '>']
    ||| p == seq!['<', '/', 'p', '>']
}

proof fn lemma_strip_free(s: Seq<char>, in_tag: bool)
    ensures
        free_of_markup(strip_from(s, in_tag)),
    decreases s.len(),
{
    if s.len() > 0 {
        lemma_strip_free(s.skip(1), s[0] == '<' || (in_tag && s[0] != '>'));
    }
}

proof fn lemma_normalize_plain_prefix(s: Seq<char>, t: Seq<char>)
    requires
        free_of_markup(s),
    ensures
        normalize_breaks(s + t) == s + normalize_breaks(t),
    decreases s.len(),
{
    if s.len() > 0 {
        let st = s + t;
        assert(st[0] == s[0]);
        assert(st.skip(1) == s.skip(1) + t);
        lemma_normalize_plain_prefix(s.skip(1), t);
        assert(seq![s[0]] + (s.skip(1) + normalize_breaks(t)) == s + normalize_breaks(t));
    } else {
        assert(s + t == t);
        assert(s + normalize_breaks(t) == normalize_breaks(t));
    }
}

proof fn lemma_strip_plain_prefix(s: Seq<char>, t: Seq<char>)
    requires
        free_of_markup(s),
    ensures
        strip_from(s + t, false) == s + strip_from(t, false),
    decreases s.len(),
{
    if s.len() > 0 {
        let st = s + t;
        assert(st[0] == s[0]);
        assert(st.skip(1) == s.skip(1) + t);
        lemma_strip_plain_prefix(s.skip(1), t);
        assert(seq![s[0]] + (s.skip(1) + strip_from(t, false)) == s + strip_from(t, false));
    } else {
        assert(s + t == t);
        assert(s + strip_from(t, false) == strip_from(t, false));
    }
}

proof fn lemma_break_tag_then(p: Seq<char>, t: Seq<char>)
    requires
        is_line_break_tag(p),
    ensures
        normalize_breaks(p + t) == seq!['\n'] + normalize_breaks(t),
{
    let pt = p + t;
    assert(pt.skip(p.len() as int) == t);
    assert(pt[0] == p[0] && pt[1] == p[1] && pt[2] == p[2]);
    if p.len() > 3 {
        assert(pt[3] == p[3]);
    }
    if p.len() > 4 {
        assert(pt[4] == p[4]);
    }
}

/// Cleaning leaves no tag delimiter in the text.
pub proof fn cleaned_is_free_of_markup(s: Seq<char>)
    ensures
        free_of_markup(cleaned(s)),
{
    lemma_strip_free(normalize_breaks(s), false);
}

/// Text without tags is kept as it is.
pub proof fn cleaned_keeps_plain_text(s: Seq<char>)
    requires
        free_of_markup(s),
    ensures
        cleaned(s) == s,
{
    lemma_normalize_plain_prefix(s, Seq::empty());
    lemma_strip_plain_prefix(s, Seq::empty());
    assert(s + Seq::<char>::empty() == s);
}

/// A line-break tag between two runs of plain text becomes a newline.
pub proof fn cleaned_turns_break_into_newline(a: Seq<char>, p: Seq<char>, b: Seq<char>)
    requires
        free_of_markup(a),
        free_of_markup(b),
        is_line_break_tag(p),
    ensures
        cleaned(a + p + b) == a + seq!['\n'] + b,
{
    assert(a + p + b == a + (p + b));
    lemma_normalize_plain_prefix(a, p + b);
    lemma_break_tag_then(p, b);
    lemma_normalize_plain_prefix(b, Seq::empty());
    assert(b + Seq::<char>::empty() == b);
    let nb = seq!['\n'] + b;
    assert(free_of_markup(nb)) by {
        assert forall|i: int| 0 <= i < nb.len() implies nb[i] != '<' && nb[i] != '>' by {
            if i > 0 {
                assert(nb[i] == b[i - 1]);
            }
        }
    }
    assert(free_of_markup(a + nb)) by {
        assert forall|i: int| 0 <= i < (a + nb).len() implies (a + nb)[i] != '<' && (a + nb)[i]
            != '>' by {
            if i >= a.len() {
                assert((a + nb)[i] == nb[i - a.len()]);
            }
        }
    }
    lemma_strip_plain_prefix(a + nb, Seq::empty());
    assert(a + nb + Seq::<char>::empty() == a + nb);
    assert(a + nb == a + seq!['\n'] + b);
}

} // verus!
