//! Content from untrusted sources, which must be sanitized before display.
//!
//! LLM output is untrusted: it may hold markup that would run in a browser. The type here has no
//! text form of its own, so its content reaches a page only through a sanitizing method.

use vstd::prelude::*;

use crate::text::{
    chars_of, index_or_len, index_or_len_is_first, is_blank, is_space, line_ends_divide, lines,
    occurs_at, position, starts_with, to_chars, trim, trimmed_is_empty_iff_blank, without_cr,
};

verus! {

/// A string from an untrusted source that must be sanitized before display.
#[derive(Debug, PartialEq, Eq)]
pub struct UntrustedString(String);

impl View for UntrustedString {
    type V = Seq<char>;

    closed spec fn view(&self) -> Seq<char> {
        self.0@
    }
}

impl Clone for UntrustedString {
    fn clone(&self) -> (r: UntrustedString)
        ensures
            r == *self,
    {
        UntrustedString(self.0.clone())
    }
}

impl From<String> for UntrustedString {
    fn from(s: String) -> (r: UntrustedString)
        ensures
            r@ == s@,
    {
        UntrustedString(s)
    }
}

impl vstd::std_specs::convert::FromSpecImpl<String> for UntrustedString {
    open spec fn obeys_from_spec() -> bool {
        true
    }

    closed spec fn from_spec(v: String) -> UntrustedString {
        UntrustedString(v)
    }
}

impl From<&str> for UntrustedString {
    fn from(s: &str) -> (r: UntrustedString)
        ensures
            r@ == s@,
    {
        UntrustedString(s.to_owned())
    }
}

impl vstd::std_specs::convert::FromSpecImpl<&str> for UntrustedString {
    open spec fn obeys_from_spec() -> bool {
        false
    }

    open spec fn from_spec(v: &str) -> UntrustedString {
        arbitrary()
    }
}

impl UntrustedString {
    /// Wraps untrusted content.
    pub fn new(s: &str) -> (r: UntrustedString)
        ensures
            r@ == s@,
    {
        UntrustedString(s.to_owned())
    }

    /// The raw content. This bypasses sanitization: it is for storage, and for systems that
    /// sanitize for themselves.
    pub fn as_raw(&self) -> (r: &str)
        ensures
            r@ == self@,
    {
        self.0.as_str()
    }

    /// The length of the raw content in bytes.
    pub fn len(&self) -> (r: usize)
        ensures
            r == vstd::utf8::encode_utf8(self@).len() as usize,
    {
        self.0.as_str().len()
    }

    /// Whether the content is empty.
    pub fn is_empty(&self) -> (r: bool)
        ensures
            r == (self@.len() == 0),
    {
        self.0.as_str().is_empty()
    }

    /// The content with HTML's special characters escaped.
    pub fn sanitize_html(&self) -> (r: String)
        ensures
            r@ == escaped(self@),
    {
        html_escape(self.0.as_str())
    }

    /// The content rendered from markdown to HTML, after any HTML in it was escaped.
    pub fn render_markdown_safe(&self) -> (r: String)
        ensures
            r@ == rendered(escaped(self@)),
    {
        let safe = html_escape(self.0.as_str());
        render_markdown(safe.as_str())
    }
}

// --- Escaping ---

/// How one character is written in HTML text.
pub open spec fn escaped_char(c: char) -> Seq<char> {
    if c == '&' {
        "&amp;"@
    } else if c == '<' {
        "&lt;"@
    } else if c == '>' {
        "&gt;"@
    } else if c == '"' {
        "&quot;"@
    } else if c == '\'' {
        "&#x27;"@
    } else {
        seq![c]
    }
}

/// A text with each of its characters written as HTML text.
pub open spec fn escaped(s: Seq<char>) -> Seq<char>
    decreases s.len(),
{
    if s.len() == 0 {
        Seq::empty()
    } else {
        escaped(s.drop_last()) + escaped_char(s.last())
    }
}

/// Escapes HTML's special characters.
pub fn html_escape(s: &str) -> (r: String)
    ensures
        r@ == escaped(s@),
{
    let chars = to_chars(s);
    let mut result: String = String::new();
    let mut i: usize = 0;
    while i < chars.len()
        invariant
            chars@ == s@,
            i <= chars@.len(),
            result@ == escaped(s@.take(i as int)),
        decreases chars.len() - i,
    {
        let c = chars[i];
        assert(s@.take(i + 1).drop_last() =~= s@.take(i as int));
        if c == '&' {
            result.push_str("&amp;");
        } else if c == '<' {
            result.push_str("&lt;");
        } else if c == '>' {
            result.push_str("&gt;");
        } else if c == '"' {
            result.push_str("&quot;");
        } else if c == '\'' {
            result.push_str("&#x27;");
        } else {
            let ghost before = result@;
            result.push(c);
            assert(result@ =~= before + seq![c]);
        }
        i += 1;
    }
    assert(s@.take(i as int) =~= s@);
    result
}

/// The characters that can begin or end a tag, or a quoted attribute value.
pub open spec fn is_markup_char(c: char) -> bool {
    c == '<' || c == '>' || c == '"' || c == '\''
}

/// One of the five character references stands in `s` at position `i`.
pub open spec fn is_reference_at(s: Seq<char>, i: int) -> bool {
    ||| occurs_at(s, "&amp;"@, i)
    ||| occurs_at(s, "&lt;"@, i)
    ||| occurs_at(s, "&gt;"@, i)
    ||| occurs_at(s, "&quot;"@, i)
    ||| occurs_at(s, "&#x27;"@, i)
}

proof fn reveal_references()
    ensures
        "&amp;"@ =~= seq!['&', 'a', 'm', 'p', ';'],
        "&lt;"@ =~= seq!['&', 'l', 't', ';'],
        "&gt;"@ =~= seq!['&', 'g', 't', ';'],
        "&quot;"@ =~= seq!['&', 'q', 'u', 'o', 't', ';'],
        "&#x27;"@ =~= seq!['&', '#', 'x', '2', '7', ';'],
{
    reveal_strlit("&amp;");
    reveal_strlit("&lt;");
    reveal_strlit("&gt;");
    reveal_strlit("&quot;");
    reveal_strlit("&#x27;");
}

proof fn occurs_in_longer(s: Seq<char>, more: Seq<char>, pat: Seq<char>, i: int)
    requires
        occurs_at(s, pat, i),
    ensures
        occurs_at(s + more, pat, i),
{
    assert((s + more).subrange(i, i + pat.len()) =~= s.subrange(i, i + pat.len()));
}

proof fn occurs_after(head: Seq<char>, s: Seq<char>, pat: Seq<char>, i: int)
    requires
        occurs_at(s, pat, i),
    ensures
        occurs_at(head + s, pat, head.len() + i),
{
    assert((head + s).subrange(head.len() + i, head.len() + i + pat.len()) =~= s.subrange(
        i,
        i + pat.len(),
    ));
}

/// Escaped text holds no character that could begin or end a tag or a quoted value, and an
/// ampersand only as the start of one of the five character references.
pub proof fn escaped_text_is_inert(s: Seq<char>)
    ensures
        forall|i: int| 0 <= i < escaped(s).len() ==> !is_markup_char(#[trigger] escaped(s)[i]),
        forall|i: int|
            0 <= i < escaped(s).len() && #[trigger] escaped(s)[i] == '&' ==> is_reference_at(
                escaped(s),
                i,
            ),
    decreases s.len(),
{
    if s.len() > 0 {
        let head = escaped(s.drop_last());
        let tail = escaped_char(s.last());
        escaped_text_is_inert(s.drop_last());
        reveal_references();
        assert forall|i: int| 0 <= i < tail.len() implies !is_markup_char(#[trigger] tail[i]) by {}
        assert forall|i: int|
            0 <= i < escaped(s).len() && #[trigger] escaped(s)[i] == '&' implies is_reference_at(
            escaped(s),
            i,
        ) by {
            if i < head.len() {
                assert(head[i] == '&');
                assert(is_reference_at(head, i));
                if occurs_at(head, "&amp;"@, i) {
                    occurs_in_longer(head, tail, "&amp;"@, i);
                } else if occurs_at(head, "&lt;"@, i) {
                    occurs_in_longer(head, tail, "&lt;"@, i);
                } else if occurs_at(head, "&gt;"@, i) {
                    occurs_in_longer(head, tail, "&gt;"@, i);
                } else if occurs_at(head, "&quot;"@, i) {
                    occurs_in_longer(head, tail, "&quot;"@, i);
                } else {
                    occurs_in_longer(head, tail, "&#x27;"@, i);
                }
            } else {
                assert(tail[i - head.len()] == '&');
                assert(i == head.len());
                assert(tail.subrange(0, tail.len() as int) =~= tail);
                assert(occurs_at(tail, tail, 0));
                occurs_after(head, tail, tail, 0);
            }
        }
    }
}

/// Escaping loses nothing: two texts that are escaped alike are the same.
pub proof fn escaping_is_injective(a: Seq<char>, b: Seq<char>)
    requires
        escaped(a) == escaped(b),
    ensures
        a == b,
    decreases a.len(),
{
    reveal_references();
    if a.len() > 0 && b.len() > 0 {
        let x = escaped_char(a.last());
        let y = escaped_char(b.last());
        let whole = escaped(a);
        ends_of_escaped(a);
        ends_of_escaped(b);
        assert(whole.last() == x.last());
        assert(whole.last() == y.last());
        same_last_reference(a, b);
        assert(escaped(a.drop_last()) =~= whole.take(whole.len() - x.len()));
        assert(escaped(b.drop_last()) =~= whole.take(whole.len() - y.len()));
        escaping_is_injective(a.drop_last(), b.drop_last());
        assert(a =~= a.drop_last().push(a.last()));
        assert(b =~= b.drop_last().push(b.last()));
    } else if a.len() > 0 {
        assert(escaped(a).len() > 0);
    } else if b.len() > 0 {
        assert(escaped(b).len() > 0);
    } else {
        assert(a =~= b);
    }
}

proof fn ends_of_escaped(s: Seq<char>)
    requires
        s.len() > 0,
    ensures
        escaped(s).len() >= escaped_char(s.last()).len() >= 1,
        escaped(s) == escaped(s.drop_last()) + escaped_char(s.last()),
{
    reveal_references();
}

/// Texts that are escaped alike end with the same character: a reference at the end of the
/// escaped text cannot have come from characters that stand for themselves, since an ampersand
/// never does.
proof fn same_last_reference(a: Seq<char>, b: Seq<char>)
    requires
        a.len() > 0,
        b.len() > 0,
        escaped(a) == escaped(b),
    ensures
        a.last() == b.last(),
{
    let x = a.last();
    let y = b.last();
    ends_of_escaped(a);
    ends_of_escaped(b);
    if x != y {
        if escaped_char(x).len() > 1 && escaped_char(y).len() == 1 {
            both_end_with_reference(b, a);
        } else if escaped_char(y).len() > 1 && escaped_char(x).len() == 1 {
            both_end_with_reference(a, b);
        } else {
            reveal_references();
            let whole = escaped(a);
            let ex = escaped_char(x);
            let ey = escaped_char(y);
            assert(whole[whole.len() - 2] == ex[ex.len() - 2] || ex.len() == 1);
            assert(whole[whole.len() - 2] == ey[ey.len() - 2] || ey.len() == 1);
            assert(whole[whole.len() - 3] == ex[ex.len() - 3] || ex.len() == 1);
            assert(whole[whole.len() - 3] == ey[ey.len() - 3] || ey.len() == 1);
            assert(whole[whole.len() - 1] == ex[ex.len() - 1]);
            assert(whole[whole.len() - 1] == ey[ey.len() - 1]);
            assert(false);
        }
    }
}

/// If one of two texts that are escaped alike ends with a character that is written as a
/// reference, the other ends with such a character too.
proof fn both_end_with_reference(b: Seq<char>, a: Seq<char>)
    requires
        a.len() > 0,
        b.len() > 0,
        escaped(a) == escaped(b),
        escaped_char(a.last()).len() > 1,
    ensures
        escaped_char(b.last()).len() > 1,
{
    reveal_references();
    let whole = escaped(a);
    let ex = escaped_char(a.last());
    let k = whole.len() - ex.len();
    ends_of_escaped(a);
    ends_of_escaped(b);
    assert(forall|i: int| 0 <= i < ex.len() ==> whole[k + i] == ex[i]);
    assert(forall|i: int| k <= i < whole.len() ==> whole[i] == ex[i - k]);
    if escaped_char(b.last()).len() == 1 {
        assert(b.last() == ';');
        reference_before_end_is_closed(b, k);
    }
}

/// If an escaped text ends with a semicolon that stands for itself, a reference that begins
/// before it is closed before it.
proof fn reference_before_end_is_closed(b: Seq<char>, k: int)
    requires
        b.len() > 0,
        b.last() == ';',
        0 <= k < escaped(b).len() - 1,
        escaped(b)[k] == '&',
    ensures
        exists|i: int| k < i < escaped(b).len() - 1 && escaped(b)[i] == ';',
{
    reveal_references();
    let head = escaped(b.drop_last());
    ends_of_escaped(b);
    assert(escaped(b)[k] == head[k]);
    escaped_text_is_inert(b.drop_last());
    assert(is_reference_at(head, k));
    let n = if occurs_at(head, "&amp;"@, k) {
        5int
    } else if occurs_at(head, "&lt;"@, k) {
        4
    } else if occurs_at(head, "&gt;"@, k) {
        4
    } else {
        6
    };
    assert(head.subrange(k, k + n)[n - 1] == head[k + n - 1]);
    assert(head[k + n - 1] == ';');
    assert(escaped(b)[k + n - 1] == ';');
}

// --- Markdown ---

/// What one line of markdown is rendered to: a heading of level one to four, a paragraph, or a
/// bare line feed for a blank line.
pub open spec fn rendered_line(line: Seq<char>) -> Seq<char> {
    if "#### "@.is_prefix_of(line) {
        "<h4>"@ + line.skip(5) + "</h4>\n"@
    } else if "### "@.is_prefix_of(line) {
        "<h3>"@ + line.skip(4) + "</h3>\n"@
    } else if "## "@.is_prefix_of(line) {
        "<h2>"@ + line.skip(3) + "</h2>\n"@
    } else if "# "@.is_prefix_of(line) {
        "<h1>"@ + line.skip(2) + "</h1>\n"@
    } else if is_blank(line) {
        seq!['\n']
    } else {
        "<p>"@ + line + "</p>\n"@
    }
}

/// What a sequence of lines is rendered to.
pub open spec fn rendered_lines(ls: Seq<Seq<char>>) -> Seq<char>
    decreases ls.len(),
{
    if ls.len() == 0 {
        Seq::empty()
    } else {
        rendered_lines(ls.drop_last()) + rendered_line(ls.last())
    }
}

/// What a markdown text is rendered to.
pub open spec fn rendered(s: Seq<char>) -> Seq<char> {
    rendered_lines(lines(s))
}

fn push_wrapped(result: &mut String, open: &str, content: &[char], from: usize, close: &str)
    requires
        from <= content@.len(),
    ensures
        final(result)@ == old(result)@ + (open@ + content@.skip(from as int) + close@),
{
    result.push_str(open);
    let mut i: usize = from;
    while i < content.len()
        invariant
            from <= i <= content@.len(),
            result@ == old(result)@ + open@ + content@.subrange(from as int, i as int),
        decreases content.len() - i,
    {
        result.push(content[i]);
        assert(content@.subrange(from as int, i + 1) =~= content@.subrange(
            from as int,
            i as int,
        ).push(content@[i as int]));
        i += 1;
    }
    assert(content@.subrange(from as int, i as int) =~= content@.skip(from as int));
    result.push_str(close);
    assert(result@ =~= old(result)@ + (open@ + content@.skip(from as int) + close@));
}

fn push_line(result: &mut String, line: &[char])
    ensures
        final(result)@ == old(result)@ + rendered_line(line@),
{
    proof {
        reveal_strlit("#### ");
        reveal_strlit("### ");
        reveal_strlit("## ");
        reveal_strlit("# ");
    }
    if starts_with(line, &to_chars("#### ")) {
        push_wrapped(result, "<h4>", line, 5, "</h4>\n");
    } else if starts_with(line, &to_chars("### ")) {
        push_wrapped(result, "<h3>", line, 4, "</h3>\n");
    } else if starts_with(line, &to_chars("## ")) {
        push_wrapped(result, "<h2>", line, 3, "</h2>\n");
    } else if starts_with(line, &to_chars("# ")) {
        push_wrapped(result, "<h1>", line, 2, "</h1>\n");
    } else {
        let rest = trim(line);
        proof {
            trimmed_is_empty_iff_blank(line@);
        }
        if rest.as_str().is_empty() {
            result.push('\n');
            assert(result@ =~= old(result)@ + seq!['\n']);
        } else {
            push_wrapped(result, "<p>", line, 0, "</p>\n");
            assert(line@.skip(0) =~= line@);
        }
    }
}

proof fn rendered_lines_of_one_more(ls: Seq<Seq<char>>, line: Seq<char>)
    ensures
        rendered_lines(ls.push(line)) == rendered_lines(ls) + rendered_line(line),
{
    assert(ls.push(line).drop_last() =~= ls);
}

/// Simple markdown to HTML conversion: headings and paragraphs, line by line. The input should
/// already be HTML-escaped.
pub fn render_markdown(text: &str) -> (r: String)
    ensures
        r@ == rendered(text@),
{
    let chars = to_chars(text);
    let mut result: String = String::new();
    let mut from: usize = 0;
    let ghost mut done: Seq<Seq<char>> = Seq::empty();
    assert(chars@.skip(0) =~= chars@);
    assert(Seq::<Seq<char>>::empty() + lines(text@) =~= lines(text@));
    while from < chars.len()
        invariant
            chars@ == text@,
            from <= chars@.len(),
            done + lines(chars@.skip(from as int)) == lines(text@),
            result@ == rendered_lines(done),
        decreases chars.len() - from,
    {
        let at = position(&chars, '\n', from);
        let ghost rest = chars@.skip(from as int);
        proof {
            index_or_len_is_first(rest, '\n');
        }
        if at == chars.len() {
            let line = chars_of(&chars, from, at);
            assert(line@ =~= rest);
            push_line(&mut result, &line);
            proof {
                rendered_lines_of_one_more(done, rest);
                assert(done + seq![rest] =~= done.push(rest));
                done = done.push(rest);
                assert(chars@.skip(at as int) =~= Seq::<char>::empty());
                assert(done + Seq::<Seq<char>>::empty() =~= done);
            }
            from = at;
        } else {
            let end = if at > from && chars[at - 1] == '\r' {
                at - 1
            } else {
                at
            };
            let line = chars_of(&chars, from, end);
            assert(line@ =~= without_cr(rest.take(at - from)));
            push_line(&mut result, &line);
            proof {
                rendered_lines_of_one_more(done, line@);
                assert(rest.skip(at - from + 1) =~= chars@.skip(at + 1));
                assert(done + (seq![line@] + lines(chars@.skip(at + 1))) =~= done.push(line@)
                    + lines(chars@.skip(at + 1)));
                done = done.push(line@);
            }
            from = at + 1;
        }
    }
    assert(chars@.skip(from as int) =~= Seq::<char>::empty());
    assert(done + Seq::<Seq<char>>::empty() =~= done);
    result
}

/// One of the ten tags of the renderer stands in `s` at position `i`.
pub open spec fn is_tag_at(s: Seq<char>, i: int) -> bool {
    ||| occurs_at(s, "<h1>"@, i)
    ||| occurs_at(s, "<h2>"@, i)
    ||| occurs_at(s, "<h3>"@, i)
    ||| occurs_at(s, "<h4>"@, i)
    ||| occurs_at(s, "<p>"@, i)
    ||| occurs_at(s, "</h1>"@, i)
    ||| occurs_at(s, "</h2>"@, i)
    ||| occurs_at(s, "</h3>"@, i)
    ||| occurs_at(s, "</h4>"@, i)
    ||| occurs_at(s, "</p>"@, i)
}

/// One of the ten tags of the renderer ends in `s` at position `i`.
pub open spec fn is_tag_end(s: Seq<char>, i: int) -> bool {
    ||| occurs_at(s, "<h1>"@, i - 3)
    ||| occurs_at(s, "<h2>"@, i - 3)
    ||| occurs_at(s, "<h3>"@, i - 3)
    ||| occurs_at(s, "<h4>"@, i - 3)
    ||| occurs_at(s, "<p>"@, i - 2)
    ||| occurs_at(s, "</h1>"@, i - 4)
    ||| occurs_at(s, "</h2>"@, i - 4)
    ||| occurs_at(s, "</h3>"@, i - 4)
    ||| occurs_at(s, "</h4>"@, i - 4)
    ||| occurs_at(s, "</p>"@, i - 3)
}

/// The character at position `i` belongs to no markup but the renderer's own: an opening bracket
/// begins one of its tags, a closing bracket ends one, and there is no quote.
pub open spec fn is_own_at(s: Seq<char>, i: int) -> bool {
    &&& s[i] == '<' ==> is_tag_at(s, i)
    &&& s[i] == '>' ==> is_tag_end(s, i)
    &&& s[i] != '"'
    &&& s[i] != '\''
}

/// All markup in `s` is the renderer's own.
pub open spec fn has_only_own_tags(s: Seq<char>) -> bool {
    forall|i: int| 0 <= i < s.len() ==> #[trigger] is_own_at(s, i)
}

/// The text holds no character of markup.
pub open spec fn is_plain(s: Seq<char>) -> bool {
    forall|i: int| 0 <= i < s.len() ==> !is_markup_char(#[trigger] s[i])
}

proof fn lines_of_plain_text_are_plain(s: Seq<char>)
    requires
        is_plain(s),
    ensures
        forall|k: int| 0 <= k < lines(s).len() ==> is_plain(#[trigger] lines(s)[k]),
    decreases s.len(),
{
    index_or_len_is_first(s, '\n');
    let i = index_or_len(s, '\n');
    if s.len() > 0 && i < s.len() {
        let first = without_cr(s.take(i));
        let rest = s.skip(i + 1);
        assert forall|j: int| 0 <= j < first.len() implies !is_markup_char(#[trigger] first[j]) by {
            assert(first[j] == s[j]);
        }
        assert forall|j: int| 0 <= j < rest.len() implies !is_markup_char(#[trigger] rest[j]) by {
            assert(rest[j] == s[i + 1 + j]);
        }
        lines_of_plain_text_are_plain(rest);
        assert forall|k: int| 0 <= k < lines(s).len() implies is_plain(#[trigger] lines(s)[k]) by {
            if k > 0 {
                assert(lines(s)[k] == lines(rest)[k - 1]);
            }
        }
    }
}

proof fn occurs_within(head: Seq<char>, s: Seq<char>, more: Seq<char>, pat: Seq<char>, i: int)
    ensures
        occurs_at(s, pat, i) ==> occurs_at(head + s + more, pat, head.len() + i),
{
    if occurs_at(s, pat, i) {
        occurs_after(head, s, pat, i);
        occurs_in_longer(head + s, more, pat, head.len() + i);
    }
}

proof fn own_markup_stays_own(head: Seq<char>, s: Seq<char>, more: Seq<char>, i: int)
    requires
        0 <= i < s.len(),
        is_own_at(s, i),
    ensures
        is_own_at(head + s + more, head.len() + i),
{
    assert((head + s + more)[head.len() + i] == s[i]);
    if s[i] == '<' {
        occurs_within(head, s, more, "<h1>"@, i);
        occurs_within(head, s, more, "<h2>"@, i);
        occurs_within(head, s, more, "<h3>"@, i);
        occurs_within(head, s, more, "<h4>"@, i);
        occurs_within(head, s, more, "<p>"@, i);
        occurs_within(head, s, more, "</h1>"@, i);
        occurs_within(head, s, more, "</h2>"@, i);
        occurs_within(head, s, more, "</h3>"@, i);
        occurs_within(head, s, more, "</h4>"@, i);
        occurs_within(head, s, more, "</p>"@, i);
    }
    if s[i] == '>' {
        occurs_within(head, s, more, "<h1>"@, i - 3);
        occurs_within(head, s, more, "<h2>"@, i - 3);
        occurs_within(head, s, more, "<h3>"@, i - 3);
        occurs_within(head, s, more, "<h4>"@, i - 3);
        occurs_within(head, s, more, "<p>"@, i - 2);
        occurs_within(head, s, more, "</h1>"@, i - 4);
        occurs_within(head, s, more, "</h2>"@, i - 4);
        occurs_within(head, s, more, "</h3>"@, i - 4);
        occurs_within(head, s, more, "</h4>"@, i - 4);
        occurs_within(head, s, more, "</p>"@, i - 3);
    }
}

proof fn joined_markup_is_own(head: Seq<char>, tail: Seq<char>)
    requires
        has_only_own_tags(head),
        has_only_own_tags(tail),
    ensures
        has_only_own_tags(head + tail),
{
    let s = head + tail;
    assert forall|i: int| 0 <= i < s.len() implies #[trigger] is_own_at(s, i) by {
        if i < head.len() {
            assert(is_own_at(head, i));
            own_markup_stays_own(Seq::empty(), head, tail, i);
            assert(Seq::<char>::empty() + head + tail =~= s);
        } else {
            let j = i - head.len();
            assert(is_own_at(tail, j));
            own_markup_stays_own(head, tail, Seq::empty(), j);
            assert(head + tail + Seq::<char>::empty() =~= s);
        }
    }
}

proof fn wrapped_line_has_own_tags(open: Seq<char>, content: Seq<char>, close: Seq<char>)
    requires
        is_plain(content),
        has_only_own_tags(open),
        has_only_own_tags(close),
    ensures
        has_only_own_tags(open + content + close),
{
    assert forall|i: int| 0 <= i < content.len() implies #[trigger] is_own_at(content, i) by {
        assert(!is_markup_char(content[i]));
    }
    joined_markup_is_own(open, content);
    joined_markup_is_own(open + content, close);
}

proof fn own_tags_are_own()
    ensures
        has_only_own_tags("<h1>"@),
        has_only_own_tags("<h2>"@),
        has_only_own_tags("<h3>"@),
        has_only_own_tags("<h4>"@),
        has_only_own_tags("<p>"@),
        has_only_own_tags("</h1>\n"@),
        has_only_own_tags("</h2>\n"@),
        has_only_own_tags("</h3>\n"@),
        has_only_own_tags("</h4>\n"@),
        has_only_own_tags("</p>\n"@),
{
    reveal_strlit("<h1>");
    reveal_strlit("<h2>");
    reveal_strlit("<h3>");
    reveal_strlit("<h4>");
    reveal_strlit("<p>");
    reveal_strlit("</h1>");
    reveal_strlit("</h2>");
    reveal_strlit("</h3>");
    reveal_strlit("</h4>");
    reveal_strlit("</p>");
    reveal_strlit("</h1>\n");
    reveal_strlit("</h2>\n");
    reveal_strlit("</h3>\n");
    reveal_strlit("</h4>\n");
    reveal_strlit("</p>\n");
    assert("<h1>"@.subrange(0, 4) =~= "<h1>"@);
    assert("<h2>"@.subrange(0, 4) =~= "<h2>"@);
    assert("<h3>"@.subrange(0, 4) =~= "<h3>"@);
    assert("<h4>"@.subrange(0, 4) =~= "<h4>"@);
    assert("<p>"@.subrange(0, 3) =~= "<p>"@);
    assert("</h1>\n"@.subrange(0, 5) =~= "</h1>"@);
    assert("</h2>\n"@.subrange(0, 5) =~= "</h2>"@);
    assert("</h3>\n"@.subrange(0, 5) =~= "</h3>"@);
    assert("</h4>\n"@.subrange(0, 5) =~= "</h4>"@);
    assert("</p>\n"@.subrange(0, 4) =~= "</p>"@);
}

proof fn line_has_own_tags(line: Seq<char>)
    requires
        is_plain(line),
    ensures
        has_only_own_tags(rendered_line(line)),
{
    own_tags_are_own();
    reveal_strlit("#### ");
    reveal_strlit("### ");
    reveal_strlit("## ");
    reveal_strlit("# ");
    assert forall|n: int| 0 <= n <= line.len() implies is_plain(#[trigger] line.skip(n)) by {
        assert forall|j: int| 0 <= j < line.skip(n).len() implies !is_markup_char(
            #[trigger] line.skip(n)[j],
        ) by {
            assert(line.skip(n)[j] == line[n + j]);
        }
    }
    if "#### "@.is_prefix_of(line) {
        wrapped_line_has_own_tags("<h4>"@, line.skip(5), "</h4>\n"@);
    } else if "### "@.is_prefix_of(line) {
        wrapped_line_has_own_tags("<h3>"@, line.skip(4), "</h3>\n"@);
    } else if "## "@.is_prefix_of(line) {
        wrapped_line_has_own_tags("<h2>"@, line.skip(3), "</h2>\n"@);
    } else if "# "@.is_prefix_of(line) {
        wrapped_line_has_own_tags("<h1>"@, line.skip(2), "</h1>\n"@);
    } else if !is_blank(line) {
        wrapped_line_has_own_tags("<p>"@, line, "</p>\n"@);
    }
}

proof fn lines_have_own_tags(ls: Seq<Seq<char>>)
    requires
        forall|k: int| 0 <= k < ls.len() ==> is_plain(#[trigger] ls[k]),
    ensures
        has_only_own_tags(rendered_lines(ls)),
    decreases ls.len(),
{
    if ls.len() > 0 {
        lines_have_own_tags(ls.drop_last());
        assert(is_plain(ls[ls.len() - 1]));
        line_has_own_tags(ls.last());
        joined_markup_is_own(rendered_lines(ls.drop_last()), rendered_line(ls.last()));
    }
}

/// Untrusted content rendered safely holds no markup but the renderer's own headings and
/// paragraphs: every opening bracket begins one of its tags, every closing bracket ends one, and
/// no quote remains. Whatever markup the content held is text.
pub proof fn rendered_content_has_only_own_tags(s: Seq<char>)
    ensures
        has_only_own_tags(rendered(escaped(s))),
{
    escaped_text_is_inert(s);
    lines_of_plain_text_are_plain(escaped(s));
    lines_have_own_tags(lines(escaped(s)));
}

// --- What is written and rendered ---

/// Escaping writes each character for itself: the five that HTML knows by their references, and
/// every other one as it is.
pub proof fn characters_are_escaped_one_by_one(s: Seq<char>, c: char)
    ensures
        escaped(Seq::empty()).len() == 0,
        escaped(s.push('&')) == escaped(s) + "&amp;"@,
        escaped(s.push('<')) == escaped(s) + "&lt;"@,
        escaped(s.push('>')) == escaped(s) + "&gt;"@,
        escaped(s.push('"')) == escaped(s) + "&quot;"@,
        escaped(s.push('\'')) == escaped(s) + "&#x27;"@,
        c != '&' && c != '<' && c != '>' && c != '"' && c != '\'' ==> escaped(s.push(c)) == escaped(
            s,
        ).push(c),
{
    assert(s.push('&').drop_last() =~= s);
    assert(s.push('<').drop_last() =~= s);
    assert(s.push('>').drop_last() =~= s);
    assert(s.push('"').drop_last() =~= s);
    assert(s.push('\'').drop_last() =~= s);
    assert(s.push(c).drop_last() =~= s);
    assert(escaped(s) + seq![c] =~= escaped(s).push(c));
}

/// A line that begins with one to four number signs and a space is a heading of that level, a blank
/// line is a line feed, and any other line is a paragraph. The text of a line stays as it is.
pub proof fn lines_become_headings_and_paragraphs(text: Seq<char>)
    ensures
        rendered_line("# "@ + text) == "<h1>"@ + text + "</h1>\n"@,
        rendered_line("## "@ + text) == "<h2>"@ + text + "</h2>\n"@,
        rendered_line("### "@ + text) == "<h3>"@ + text + "</h3>\n"@,
        rendered_line("#### "@ + text) == "<h4>"@ + text + "</h4>\n"@,
        is_blank(text) ==> rendered_line(text) == "\n"@,
        !is_blank(text) && text[0] != '#' ==> rendered_line(text) == "<p>"@ + text + "</p>\n"@,
        !is_blank(text) && !"# "@.is_prefix_of(text) && !"## "@.is_prefix_of(text)
            && !"### "@.is_prefix_of(text) && !"#### "@.is_prefix_of(text) ==> rendered_line(text)
            == "<p>"@ + text + "</p>\n"@,
{
    reveal_strlit("# ");
    reveal_strlit("## ");
    reveal_strlit("### ");
    reveal_strlit("#### ");
    reveal_strlit("\n");
    let a = "# "@ + text;
    let b = "## "@ + text;
    let c = "### "@ + text;
    let d = "#### "@ + text;
    assert(a[0] == '#' && a[1] == ' ');
    assert(b[0] == '#' && b[1] == '#' && b[2] == ' ');
    assert(c[0] == '#' && c[1] == '#' && c[2] == '#' && c[3] == ' ');
    assert(d[0] == '#' && d[3] == '#' && d[4] == ' ');
    assert("# "@.is_prefix_of(a) && "## "@.is_prefix_of(b) && "### "@.is_prefix_of(c)
        && "#### "@.is_prefix_of(d));
    assert(a.skip(2) =~= text);
    assert(b.skip(3) =~= text);
    assert(c.skip(4) =~= text);
    assert(d.skip(5) =~= text);
    assert("# "@[1] == ' ' && "## "@[1] == '#' && "## "@[2] == ' ' && "### "@[1] == '#' && "### "@[2]
        == '#' && "### "@[3] == ' ' && "#### "@[1] == '#' && "#### "@[2] == '#' && "#### "@[3]
        == '#');
    prefix_begins_alike("# "@, a);
    prefix_begins_alike("## "@, a);
    prefix_begins_alike("### "@, a);
    prefix_begins_alike("#### "@, a);
    prefix_begins_alike("### "@, b);
    prefix_begins_alike("#### "@, b);
    prefix_begins_alike("#### "@, c);
    prefix_begins_alike("# "@, text);
    prefix_begins_alike("## "@, text);
    prefix_begins_alike("### "@, text);
    prefix_begins_alike("#### "@, text);
    assert("\n"@ =~= seq!['\n']);
    if is_blank(text) && text.len() > 0 {
        assert(is_space(text[0]));
        assert(text[0] != '#');
    }
}

proof fn prefix_begins_alike(prefix: Seq<char>, s: Seq<char>)
    ensures
        prefix.is_prefix_of(s) ==> forall|i: int| 0 <= i < prefix.len() ==> #[trigger] prefix[i]
            == s[i],
{
    if prefix.is_prefix_of(s) {
        assert forall|i: int| 0 <= i < prefix.len() implies #[trigger] prefix[i] == s[i] by {
            assert(s.take(prefix.len() as int)[i] == s[i]);
        }
    }
}

proof fn first_line_comes_first(line: Seq<char>, ls: Seq<Seq<char>>)
    ensures
        rendered_lines(seq![line] + ls) == rendered_line(line) + rendered_lines(ls),
    decreases ls.len(),
{
    let all = seq![line] + ls;
    if ls.len() == 0 {
        assert(all.drop_last() =~= Seq::<Seq<char>>::empty());
        assert(rendered_lines(all.drop_last()) =~= Seq::<char>::empty());
        assert(rendered_lines(all) =~= rendered_line(line) + rendered_lines(ls));
    } else {
        assert(all.drop_last() =~= seq![line] + ls.drop_last());
        first_line_comes_first(line, ls.drop_last());
        assert(all.last() == ls.last());
        assert(rendered_lines(all) =~= rendered_line(line) + rendered_lines(ls));
    }
}

/// Each line is rendered for itself, in the order of the text.
pub proof fn lines_are_rendered_in_order(line: Seq<char>, rest: Seq<char>)
    requires
        !line.contains('\n'),
        line.len() == 0 || line.last() != '\r',
    ensures
        rendered(Seq::empty()).len() == 0,
        rendered(line + seq!['\n'] + rest) == rendered_line(line) + rendered(rest),
{
    line_ends_divide(line, rest);
    first_line_comes_first(line, lines(rest));
}

} // verus!
