//! Text as sequences of characters: comparing, searching, trimming, splitting, number formats.

use vstd::prelude::*;

verus! {

/// `String::push` appends one character at the end.
pub assume_specification[ String::push ](s: &mut String, c: char)
    ensures
        final(s)@ == old(s)@.push(c),
;

/// `String::push_str` appends the whole of its argument at the end.
pub assume_specification[ String::push_str ](s: &mut String, other: &str)
    ensures
        final(s)@ == old(s)@ + other@,
;

// --- Characters ---

/// The characters with Unicode's `White_Space` property.
pub open spec fn is_space(c: char) -> bool {
    ||| '\u{9}' <= c <= '\u{D}'
    ||| c == '\u{20}'
    ||| c == '\u{85}'
    ||| c == '\u{A0}'
    ||| c == '\u{1680}'
    ||| '\u{2000}' <= c <= '\u{200A}'
    ||| c == '\u{2028}'
    ||| c == '\u{2029}'
    ||| c == '\u{202F}'
    ||| c == '\u{205F}'
    ||| c == '\u{3000}'
}

/// Whether a character is white space.
pub fn is_whitespace(c: char) -> (r: bool)
    ensures
        r == is_space(c),
{
    ('\u{9}' <= c && c <= '\u{D}') || c == '\u{20}' || c == '\u{85}' || c == '\u{A0}' || c
        == '\u{1680}' || ('\u{2000}' <= c && c <= '\u{200A}') || c == '\u{2028}' || c == '\u{2029}'
        || c == '\u{202F}' || c == '\u{205F}' || c == '\u{3000}'
}

/// The lowercase form of an ASCII letter; every other character stands for itself.
pub open spec fn lower_char(c: char) -> char {
    if 'A' <= c <= 'Z' {
        ((c as u8 + 32) as u8) as char
    } else {
        c
    }
}

/// A text with its ASCII letters in lowercase.
pub open spec fn lowered(s: Seq<char>) -> Seq<char> {
    s.map_values(|c: char| lower_char(c))
}

/// The lowercase form of one character, ASCII letters only.
pub fn ascii_lower_char(c: char) -> (r: char)
    ensures
        r == lower_char(c),
{
    if 'A' <= c && c <= 'Z' {
        ((c as u8) + 32) as char
    } else {
        c
    }
}

/// A text with its ASCII letters in lowercase.
pub fn ascii_lower(s: &[char]) -> (r: String)
    ensures
        r@ == lowered(s@),
{
    let mut out: String = String::new();
    let mut i: usize = 0;
    while i < s.len()
        invariant
            i <= s.len(),
            out@ == lowered(s@.take(i as int)),
        decreases s.len() - i,
    {
        out.push(ascii_lower_char(s[i]));
        proof {
            assert(s@.take(i + 1) =~= s@.take(i as int).push(s@[i as int]));
            assert(lowered(s@.take(i + 1)) =~= lowered(s@.take(i as int)).push(
                lower_char(s@[i as int]),
            ));
        }
        i += 1;
    }
    assert(s@.take(i as int) =~= s@);
    out
}

// --- Conversions and equality ---

/// The characters of a string slice, in order.
pub fn to_chars(s: &str) -> (r: Vec<char>)
    ensures
        r@ == s@,
{
    let mut out: Vec<char> = Vec::new();
    for c in it: s.chars()
        invariant
            it.seq() == s@,
            out@ == s@.take(it.index() as int),
    {
        out.push(c);
    }
    out
}

/// The string made of the characters at positions `from` to `to`, `to` not among them.
pub fn text_of(s: &[char], from: usize, to: usize) -> (r: String)
    requires
        from <= to <= s@.len(),
    ensures
        r@ == s@.subrange(from as int, to as int),
{
    let mut out: String = String::new();
    let mut i: usize = from;
    while i < to
        invariant
            from <= i <= to <= s@.len(),
            out@ == s@.subrange(from as int, i as int),
        decreases to - i,
    {
        out.push(s[i]);
        i += 1;
    }
    out
}

/// The characters at positions `from` to `to`, `to` not among them.
pub fn chars_of(s: &[char], from: usize, to: usize) -> (r: Vec<char>)
    requires
        from <= to <= s@.len(),
    ensures
        r@ == s@.subrange(from as int, to as int),
{
    let mut out: Vec<char> = Vec::new();
    let mut i: usize = from;
    while i < to
        invariant
            from <= i <= to <= s@.len(),
            out@ == s@.subrange(from as int, i as int),
        decreases to - i,
    {
        out.push(s[i]);
        i += 1;
    }
    out
}

/// Whether two texts hold the same characters.
pub fn same_text(a: &str, b: &str) -> (r: bool)
    ensures
        r == (a@ == b@),
{
    a.to_owned() == b.to_owned()
}

// --- Searching ---

/// `pat` stands in `s` at position `i`.
pub open spec fn occurs_at(s: Seq<char>, pat: Seq<char>, i: int) -> bool {
    0 <= i && i + pat.len() <= s.len() && s.subrange(i, i + pat.len()) == pat
}

/// The first position at or after `from` where `pat` stands in `s`.
pub open spec fn find_from(s: Seq<char>, pat: Seq<char>, from: int) -> Option<int>
    decreases s.len() + 1 - from,
{
    if from + pat.len() > s.len() {
        None
    } else if occurs_at(s, pat, from) {
        Some(from)
    } else {
        find_from(s, pat, from + 1)
    }
}

/// `pat` stands somewhere in `s`.
pub open spec fn has_text(s: Seq<char>, pat: Seq<char>) -> bool {
    exists|i: int| occurs_at(s, pat, i)
}

/// `find_from` gives the least position at or after `from` where the pattern stands, and gives
/// none only where there is none.
pub proof fn find_from_is_least(s: Seq<char>, pat: Seq<char>, from: int)
    requires
        0 <= from,
    ensures
        match find_from(s, pat, from) {
            Some(i) => from <= i && occurs_at(s, pat, i) && forall|j: int|
                from <= j < i ==> !occurs_at(s, pat, j),
            None => forall|j: int| from <= j ==> !occurs_at(s, pat, j),
        },
    decreases s.len() + 1 - from,
{
    if from + pat.len() <= s.len() && !occurs_at(s, pat, from) {
        find_from_is_least(s, pat, from + 1);
    }
}

/// Whether `pat` stands in `s` at position `i`.
pub fn matches_at(s: &[char], pat: &[char], i: usize) -> (r: bool)
    requires
        i <= s@.len(),
    ensures
        r == occurs_at(s@, pat@, i as int),
{
    if pat.len() > s.len() - i {
        return false;
    }
    let mut k: usize = 0;
    while k < pat.len()
        invariant
            k <= pat@.len(),
            i + pat@.len() <= s.len(),
            forall|j: int| 0 <= j < k ==> s@[i + j] == pat@[j],
        decreases pat.len() - k,
    {
        if s[i + k] != pat[k] {
            assert(s@.subrange(i as int, i + pat@.len())[k as int] == s@[i + k]);
            return false;
        }
        k += 1;
    }
    assert(s@.subrange(i as int, i + pat@.len()) =~= pat@);
    true
}

/// The first position at or after `from` where `pat` stands.
pub fn find(s: &[char], pat: &[char], from: usize) -> (r: Option<usize>)
    requires
        from <= s@.len(),
    ensures
        match r {
            Some(i) => find_from(s@, pat@, from as int) == Some(i as int),
            None => find_from(s@, pat@, from as int) is None,
        },
        r matches Some(i) ==> from <= i && i + pat@.len() <= s@.len(),
{
    let mut i: usize = from;
    while i <= s.len() && pat.len() <= s.len() - i
        invariant
            from <= i <= s@.len() + 1,
            find_from(s@, pat@, from as int) == find_from(s@, pat@, i as int),
        decreases s.len() + 1 - i,
    {
        if matches_at(s, pat, i) {
            return Some(i);
        }
        if i == s.len() {
            assert(find_from(s@, pat@, i + 1) is None);
            return None;
        }
        i += 1;
    }
    None
}

/// Whether `pat` stands somewhere in `s`.
pub fn contains(s: &[char], pat: &[char]) -> (r: bool)
    ensures
        r == has_text(s@, pat@),
{
    proof {
        find_from_is_least(s@, pat@, 0);
    }
    find(s, pat, 0).is_some()
}

/// Whether `s` begins with `pat`.
pub fn starts_with(s: &[char], pat: &[char]) -> (r: bool)
    ensures
        r == pat@.is_prefix_of(s@),
{
    let r = matches_at(s, pat, 0);
    assert(pat@.len() <= s@.len() ==> s@.subrange(0, pat@.len() as int) =~= s@.take(
        pat@.len() as int,
    ));
    r
}

/// What follows `prefix` in `s`, where `s` begins with it.
pub open spec fn without_prefix(s: Seq<char>, prefix: Seq<char>) -> Option<Seq<char>> {
    if prefix.is_prefix_of(s) {
        Some(s.skip(prefix.len() as int))
    } else {
        None
    }
}

/// What follows `prefix` in `s`, where `s` begins with it.
pub fn strip_prefix(s: &str, prefix: &str) -> (r: Option<String>)
    ensures
        match r {
            Some(t) => without_prefix(s@, prefix@) == Some(t@),
            None => without_prefix(s@, prefix@) is None,
        },
{
    let chars = to_chars(s);
    let head = to_chars(prefix);
    if starts_with(&chars, &head) {
        let rest = text_of(&chars, head.len(), chars.len());
        assert(rest@ =~= s@.skip(prefix@.len() as int));
        Some(rest)
    } else {
        None
    }
}

// --- Trimming ---

/// A text without the white space at its start.
pub open spec fn trimmed_start(s: Seq<char>) -> Seq<char>
    decreases s.len(),
{
    if s.len() > 0 && is_space(s[0]) {
        trimmed_start(s.drop_first())
    } else {
        s
    }
}

/// A text without the white space at its end.
pub open spec fn trimmed_end(s: Seq<char>) -> Seq<char>
    decreases s.len(),
{
    if s.len() > 0 && is_space(s.last()) {
        trimmed_end(s.drop_last())
    } else {
        s
    }
}

/// A text without the white space at either end.
pub open spec fn trimmed(s: Seq<char>) -> Seq<char> {
    trimmed_end(trimmed_start(s))
}

/// The text holds nothing but white space.
pub open spec fn is_blank(s: Seq<char>) -> bool {
    forall|i: int| 0 <= i < s.len() ==> is_space(#[trigger] s[i])
}

/// Trimming leaves nothing exactly of the texts that are all white space, and what it leaves
/// neither begins nor ends with white space.
pub proof fn trimmed_is_empty_iff_blank(s: Seq<char>)
    ensures
        trimmed(s).len() == 0 <==> is_blank(s),
        trimmed(s).len() > 0 ==> !is_space(trimmed(s)[0]) && !is_space(trimmed(s).last()),
{
    trimmed_start_shape(s);
    trimmed_end_shape(trimmed_start(s));
}

proof fn trimmed_start_shape(s: Seq<char>)
    ensures
        trimmed_start(s).len() <= s.len(),
        trimmed_start(s) == s.skip(s.len() - trimmed_start(s).len()),
        trimmed_start(s).len() == 0 <==> is_blank(s),
        trimmed_start(s).len() > 0 ==> !is_space(trimmed_start(s)[0]),
    decreases s.len(),
{
    if s.len() > 0 && is_space(s[0]) {
        let t = s.drop_first();
        trimmed_start_shape(t);
        assert(t.skip(t.len() - trimmed_start(t).len()) =~= s.skip(
            s.len() - trimmed_start(s).len(),
        ));
        assert(is_blank(t) ==> is_blank(s)) by {
            assert(forall|i: int| 1 <= i < s.len() ==> #[trigger] s[i] == t[i - 1]);
        }
        assert(is_blank(s) ==> is_blank(t));
    } else {
        assert(s.skip(0) =~= s);
    }
}

proof fn trimmed_end_shape(s: Seq<char>)
    ensures
        trimmed_end(s).len() <= s.len(),
        trimmed_end(s) == s.take(trimmed_end(s).len() as int),
        trimmed_end(s).len() == 0 <==> is_blank(s),
        trimmed_end(s).len() > 0 ==> !is_space(trimmed_end(s).last()),
    decreases s.len(),
{
    if s.len() > 0 && is_space(s.last()) {
        let t = s.drop_last();
        trimmed_end_shape(t);
        assert(t.take(trimmed_end(t).len() as int) =~= s.take(trimmed_end(s).len() as int));
        assert(is_blank(t) ==> is_blank(s)) by {
            assert(forall|i: int| 0 <= i < t.len() ==> #[trigger] s[i] == t[i]);
        }
        assert(is_blank(s) ==> is_blank(t));
    } else {
        assert(s.take(s.len() as int) =~= s);
        if s.len() > 0 {
            assert(!is_space(s[s.len() - 1]));
        }
    }
}

/// A text without the white space at either end.
pub fn trim(s: &[char]) -> (r: String)
    ensures
        r@ == trimmed(s@),
{
    let mut from: usize = 0;
    assert(s@.skip(0) =~= s@);
    while from < s.len() && is_whitespace(s[from])
        invariant
            from <= s@.len(),
            trimmed_start(s@) == trimmed_start(s@.skip(from as int)),
        decreases s.len() - from,
    {
        assert(s@.skip(from as int).drop_first() =~= s@.skip(from + 1));
        from += 1;
    }
    assert(s@.skip(from as int) == trimmed_start(s@));
    let mut to: usize = s.len();
    assert(s@.subrange(from as int, to as int) =~= s@.skip(from as int));
    while to > from && is_whitespace(s[to - 1])
        invariant
            from <= to <= s@.len(),
            trimmed(s@) == trimmed_end(s@.subrange(from as int, to as int)),
        decreases to,
    {
        assert(s@.subrange(from as int, to as int).drop_last() =~= s@.subrange(
            from as int,
            to - 1,
        ));
        to -= 1;
    }
    text_of(s, from, to)
}

/// A text without the character `c` at its start, however often it stands there.
pub open spec fn without_leading(s: Seq<char>, c: char) -> Seq<char>
    decreases s.len(),
{
    if s.len() > 0 && s[0] == c {
        without_leading(s.drop_first(), c)
    } else {
        s
    }
}

/// A text without the character `c` at its start, however often it stands there.
pub fn trim_start_char(s: &[char], c: char) -> (r: Vec<char>)
    ensures
        r@ == without_leading(s@, c),
{
    let mut from: usize = 0;
    assert(s@.skip(0) =~= s@);
    while from < s.len() && s[from] == c
        invariant
            from <= s@.len(),
            without_leading(s@, c) == without_leading(s@.skip(from as int), c),
        decreases s.len() - from,
    {
        assert(s@.skip(from as int).drop_first() =~= s@.skip(from + 1));
        from += 1;
    }
    let r = chars_of(s, from, s.len());
    assert(r@ =~= s@.skip(from as int));
    r
}

/// A text without `suffix` at its end, however often it stands there.
pub open spec fn without_trailing(s: Seq<char>, suffix: Seq<char>) -> Seq<char>
    decreases s.len(),
{
    if suffix.len() > 0 && suffix.is_suffix_of(s) {
        without_trailing(s.take(s.len() - suffix.len()), suffix)
    } else {
        s
    }
}

/// A text without `suffix` at its end, however often it stands there.
pub fn trim_end_text(s: &[char], suffix: &[char]) -> (r: Vec<char>)
    ensures
        r@ == without_trailing(s@, suffix@),
{
    let mut to: usize = s.len();
    assert(s@.take(to as int) =~= s@);
    while suffix.len() > 0 && suffix.len() <= to && matches_at(s, suffix, to - suffix.len())
        invariant
            to <= s@.len(),
            without_trailing(s@, suffix@) == without_trailing(s@.take(to as int), suffix@),
        decreases to,
    {
        let n: usize = suffix.len();
        proof {
            let t = s@.take(to as int);
            assert(t.subrange(t.len() - n, t.len() as int) =~= s@.subrange(to - n, to as int));
            assert(t.take(t.len() - n) =~= s@.take(to - n));
        }
        to -= n;
    }
    proof {
        let t = s@.take(to as int);
        if suffix@.len() > 0 && suffix@.is_suffix_of(t) {
            assert(t.subrange(t.len() - suffix@.len(), t.len() as int) =~= s@.subrange(
                to - suffix@.len(),
                to as int,
            ));
        }
    }
    let r = chars_of(s, 0, to);
    assert(r@ =~= s@.take(to as int));
    r
}

// --- Splitting ---

/// The position of the first `c` in `s`, or the length of `s` where there is none.
pub open spec fn index_or_len(s: Seq<char>, c: char) -> int
    decreases s.len(),
{
    if s.len() == 0 || s[0] == c {
        0
    } else {
        1 + index_or_len(s.drop_first(), c)
    }
}

/// The position of the first `c` lies in the text or at its end, and no `c` stands before it.
pub proof fn index_or_len_is_first(s: Seq<char>, c: char)
    ensures
        0 <= index_or_len(s, c) <= s.len(),
        index_or_len(s, c) < s.len() ==> s[index_or_len(s, c)] == c,
        forall|i: int| 0 <= i < index_or_len(s, c) ==> s[i] != c,
    decreases s.len(),
{
    if s.len() > 0 && s[0] != c {
        let t = s.drop_first();
        index_or_len_is_first(t, c);
        assert(forall|i: int| 1 <= i < s.len() ==> #[trigger] s[i] == t[i - 1]);
    }
}

/// The parts of `s` between the characters `sep`: one part more than there are separators.
pub open spec fn split_parts(s: Seq<char>, sep: char) -> Seq<Seq<char>>
    decreases s.len(),
    via split_parts_decreases
{
    let i = index_or_len(s, sep);
    if i >= s.len() {
        seq![s]
    } else {
        seq![s.take(i)] + split_parts(s.skip(i + 1), sep)
    }
}

#[via_fn]
proof fn split_parts_decreases(s: Seq<char>, sep: char) {
    index_or_len_is_first(s, sep);
}

/// The position of the first `c` at or after `from`, or the length of `s` where there is none.
pub fn position(s: &[char], c: char, from: usize) -> (r: usize)
    requires
        from <= s@.len(),
    ensures
        from <= r <= s@.len(),
        r == from + index_or_len(s@.skip(from as int), c),
{
    let mut i: usize = from;
    while i < s.len() && s[i] != c
        invariant
            from <= i <= s@.len(),
            from + index_or_len(s@.skip(from as int), c) == i + index_or_len(
                s@.skip(i as int),
                c,
            ),
        decreases s.len() - i,
    {
        assert(s@.skip(i as int).drop_first() =~= s@.skip(i + 1));
        i += 1;
    }
    i
}

/// The parts of `s` between the characters `sep`.
pub fn split(s: &[char], sep: char) -> (r: Vec<Vec<char>>)
    ensures
        r@.map_values(|v: Vec<char>| v@) == split_parts(s@, sep),
        r@.len() > 0,
{
    let mut out: Vec<Vec<char>> = Vec::new();
    let mut from: usize = 0;
    let ghost views = |v: Vec<char>| v@;
    assert(s@.skip(0) =~= s@);
    assert(Seq::<Seq<char>>::empty() + split_parts(s@, sep) =~= split_parts(s@, sep));
    assert(out@.map_values(views) =~= Seq::<Seq<char>>::empty());
    loop
        invariant
            from <= s@.len(),
            views == (|v: Vec<char>| v@),
            out@.map_values(views) + split_parts(s@.skip(from as int), sep) == split_parts(
                s@,
                sep,
            ),
        decreases s.len() + 1 - from,
    {
        let at = position(s, sep, from);
        let ghost rest = s@.skip(from as int);
        proof {
            index_or_len_is_first(rest, sep);
        }
        let part = chars_of(s, from, at);
        assert(part@ =~= rest.take(at - from));
        let ghost before = out@;
        out.push(part);
        assert(out@.map_values(views) =~= before.map_values(views).push(part@));
        if at == s.len() {
            assert(rest.take(at - from) =~= rest);
            assert(before.map_values(views) + seq![rest] =~= out@.map_values(views));
            return out;
        }
        assert(rest.skip(at - from + 1) =~= s@.skip(at + 1));
        assert(before.map_values(views) + (seq![part@] + split_parts(s@.skip(at + 1), sep))
            =~= out@.map_values(views) + split_parts(s@.skip(at + 1), sep));
        from = at + 1;
    }
}

/// A line without the carriage return at its end.
pub open spec fn without_cr(line: Seq<char>) -> Seq<char> {
    if line.len() > 0 && line.last() == '\r' {
        line.drop_last()
    } else {
        line
    }
}

/// The lines of a text. A line ends with a line feed, or with a carriage return and a line feed,
/// which do not belong to it; the last line may lack its ending.
pub open spec fn lines(s: Seq<char>) -> Seq<Seq<char>>
    decreases s.len(),
    via lines_decreases
{
    let i = index_or_len(s, '\n');
    if s.len() == 0 {
        Seq::empty()
    } else if i >= s.len() {
        seq![s]
    } else {
        seq![without_cr(s.take(i))] + lines(s.skip(i + 1))
    }
}

#[via_fn]
proof fn lines_decreases(s: Seq<char>) {
    index_or_len_is_first(s, '\n');
}

// --- Numbers ---

/// The digit character of a number below ten.
pub open spec fn digit_char(d: int) -> char {
    ((48 + d) as u8) as char
}

/// A number in decimal, without leading zeros.
pub open spec fn decimal(n: nat) -> Seq<char>
    decreases n,
{
    if n < 10 {
        seq![digit_char(n as int)]
    } else {
        decimal(n / 10).push(digit_char((n % 10) as int))
    }
}

/// A number in decimal, without leading zeros.
pub fn format_u64(n: u64) -> (r: String)
    ensures
        r@ == decimal(n as nat),
    decreases n,
{
    let d = (48 + (n % 10) as u8) as char;
    if n < 10 {
        let mut out: String = String::new();
        out.push(d);
        assert(out@ =~= seq![digit_char(n as int)]);
        out
    } else {
        let mut out = format_u64(n / 10);
        out.push(d);
        out
    }
}

/// A number in decimal, with a minus sign before a negative one.
pub open spec fn signed_decimal(n: int) -> Seq<char> {
    if n < 0 {
        seq!['-'] + decimal((-n) as nat)
    } else {
        decimal(n as nat)
    }
}

/// A number in decimal, with a minus sign before a negative one.
pub fn format_i64(n: i64) -> (r: String)
    ensures
        r@ == signed_decimal(n as int),
{
    if n >= 0 {
        format_u64(n as u64)
    } else {
        let mut out: String = String::new();
        out.push('-');
        let magnitude: u64 = (-(n as i128)) as u64;
        let digits = format_u64(magnitude);
        out.push_str(digits.as_str());
        assert(out@ =~= seq!['-'] + decimal((-(n as int)) as nat));
        out
    }
}

/// An ASCII digit.
pub open spec fn is_digit(c: char) -> bool {
    '0' <= c <= '9'
}

/// The number that a text of digits writes in decimal.
pub open spec fn digits_value(s: Seq<char>) -> nat
    decreases s.len(),
{
    if s.len() == 0 {
        0
    } else {
        digits_value(s.drop_last()) * 10 + (s.last() as nat - 48) as nat
    }
}

/// What follows the plus sign of a text, where it starts with one.
pub open spec fn without_plus(s: Seq<char>) -> Seq<char> {
    if s.len() > 0 && s[0] == '+' {
        s.drop_first()
    } else {
        s
    }
}

/// The number that a text writes: digits, at least one, after a plus sign that may be missing.
pub open spec fn unsigned_value(s: Seq<char>) -> Option<nat> {
    let digits = without_plus(s);
    if digits.len() > 0 && forall|i: int| 0 <= i < digits.len() ==> is_digit(#[trigger] digits[i]) {
        Some(digits_value(digits))
    } else {
        None
    }
}

/// The 32-bit number that a text writes in decimal, with or without a plus sign, where it does.
pub fn parse_u32(s: &str) -> (r: Option<u32>)
    ensures
        match r {
            Some(n) => unsigned_value(s@) == Some(n as nat),
            None => match unsigned_value(s@) {
                Some(n) => n > u32::MAX,
                None => true,
            },
        },
{
    let chars = to_chars(s);
    let start: usize = if chars.len() > 0 && chars[0] == '+' {
        1
    } else {
        0
    };
    let ghost digits = without_plus(s@);
    proof {
        assert(s@.skip(start as int) =~= digits);
        assert(digits.take(0) =~= Seq::<char>::empty());
    }
    if start == chars.len() {
        return None;
    }
    let mut value: u64 = 0;
    let mut i: usize = start;
    while i < chars.len()
        invariant
            chars@ == s@,
            start <= i <= chars@.len(),
            digits == without_plus(s@),
            digits == s@.skip(start as int),
            forall|j: int| 0 <= j < i - start ==> is_digit(#[trigger] digits[j]),
            value <= u32::MAX ==> value == digits_value(digits.take(i - start)),
            value <= u32::MAX + 1,
            value == u32::MAX + 1 ==> digits_value(digits.take(i - start)) > u32::MAX,
        decreases chars.len() - i,
    {
        let c = chars[i];
        let ghost k = i - start;
        assert(digits[k] == c);
        if !('0' <= c && c <= '9') {
            assert(!is_digit(digits[k]));
            return None;
        }
        assert(is_digit(digits[k]));
        assert(digits.take(k + 1).drop_last() =~= digits.take(k));
        let digit: u64 = (c as u32 - '0' as u32) as u64;
        if value <= 0xffff_ffff {
            value = 10 * value + digit;
            if value > 0xffff_ffff {
                value = 0x1_0000_0000;
            }
        }
        i += 1;
    }
    assert(digits.take(i - start) =~= digits);
    if value > 0xffff_ffff {
        return None;
    }
    Some(value as u32)
}

// --- Bytes ---

/// What `String::from_utf8_lossy` makes of the bytes.
pub uninterp spec fn lossy_text(bytes: Seq<u8>) -> Seq<char>;

/// The text that ASCII bytes spell, one character each.
pub open spec fn ascii_text(bytes: Seq<u8>) -> Seq<char> {
    Seq::new(bytes.len(), |i: int| bytes[i] as char)
}

/// All of the bytes are ASCII.
pub open spec fn is_ascii(bytes: Seq<u8>) -> bool {
    forall|i: int| 0 <= i < bytes.len() ==> #[trigger] bytes[i] < 128
}

/// ASCII bytes are UTF-8, and decode to one character each.
pub proof fn ascii_is_utf8(bytes: Seq<u8>)
    requires
        is_ascii(bytes),
    ensures
        vstd::utf8::valid_utf8(bytes),
        vstd::utf8::decode_utf8(bytes) == ascii_text(bytes),
{
    let text = ascii_text(bytes);
    assert forall|i: int| 0 <= i < text.len() implies '\0' <= #[trigger] text[i] <= '\u{7f}' by {
        assert(bytes[i] < 128);
    }
    assert(vstd::utf8::is_ascii_chars(text));
    vstd::utf8::is_ascii_chars_encode_utf8(text);
    assert forall|i: int| 0 <= i < bytes.len() implies vstd::utf8::encode_utf8(text)[i]
        == bytes[i] by {
        assert(bytes[i] < 128);
        assert(text[i] as u8 == vstd::utf8::encode_utf8(text)[i]);
    }
    assert(vstd::utf8::encode_utf8(text) =~= bytes);
    vstd::utf8::encode_utf8_valid_utf8(text);
    vstd::utf8::encode_utf8_decode_utf8(text);
}

/// Calls `String::from_utf8_lossy`: bytes that are UTF-8 become the text that they encode, and in
/// other bytes each invalid sequence becomes a replacement character.
#[verifier::external_body]
pub(crate) fn from_utf8_lossy(bytes: &[u8]) -> (r: String)
    ensures
        r@ == lossy_text(bytes@),
        vstd::utf8::valid_utf8(bytes@) ==> r@ == vstd::utf8::decode_utf8(bytes@),
{
    String::from_utf8_lossy(bytes).into_owned()
}

// --- Where the parts of a text stand ---

/// The text from `i` to `j` is a part between separators: it holds none, and stands between two of
/// them, or between one and an end of the text.
pub open spec fn is_part_at(s: Seq<char>, sep: char, i: int, j: int) -> bool {
    &&& 0 <= i <= j <= s.len()
    &&& i == 0 || s[i - 1] == sep
    &&& j == s.len() || s[j] == sep
    &&& forall|k: int| i <= k < j ==> #[trigger] s[k] != sep
}

/// Splitting gives exactly the texts that stand between separators.
pub proof fn split_gives_the_parts(s: Seq<char>, sep: char, part: Seq<char>)
    ensures
        split_parts(s, sep).contains(part) <==> exists|i: int, j: int| #[trigger]
            is_part_at(s, sep, i, j) && s.subrange(i, j) == part,
    decreases s.len(),
{
    let n = index_or_len(s, sep);
    index_or_len_is_first(s, sep);
    let parts = split_parts(s, sep);
    if n >= s.len() {
        assert(is_part_at(s, sep, 0, s.len() as int));
        assert(s.subrange(0, s.len() as int) =~= s);
        assert(parts[0] == s);
        if exists|i: int, j: int| #[trigger]
            is_part_at(s, sep, i, j) && s.subrange(i, j) == part {
            let (i, j) = choose|i: int, j: int| #[trigger]
                is_part_at(s, sep, i, j) && s.subrange(i, j) == part;
            if i > 0 {
                assert(s[i - 1] == sep);
            }
            if j < s.len() {
                assert(s[j] == sep);
            }
        }
    } else {
        let rest = s.skip(n + 1);
        let later = split_parts(rest, sep);
        split_gives_the_parts(rest, sep, part);
        assert(parts[0] == s.take(n));
        assert(s.subrange(0, n) =~= s.take(n));
        assert(is_part_at(s, sep, 0, n));
        assert(forall|k: int| 0 <= k < later.len() ==> parts[k + 1] == later[k]);
        if parts.contains(part) {
            let k = choose|k: int| 0 <= k < parts.len() && parts[k] == part;
            if k > 0 {
                assert(later[k - 1] == part);
                assert(later.contains(part));
                let (i, j) = choose|i: int, j: int| #[trigger]
                    is_part_at(rest, sep, i, j) && rest.subrange(i, j) == part;
                assert(s.subrange(i + n + 1, j + n + 1) =~= rest.subrange(i, j));
                assert forall|k: int| i + n + 1 <= k < j + n + 1 implies #[trigger] s[k] != sep by {
                    assert(rest[k - n - 1] == s[k]);
                }
                assert(is_part_at(s, sep, i + n + 1, j + n + 1));
            }
        }
        if exists|i: int, j: int| #[trigger]
            is_part_at(s, sep, i, j) && s.subrange(i, j) == part {
            let (i, j) = choose|i: int, j: int| #[trigger]
                is_part_at(s, sep, i, j) && s.subrange(i, j) == part;
            if i > n {
                assert forall|k: int| i - n - 1 <= k < j - n - 1 implies #[trigger] rest[k]
                    != sep by {
                    assert(rest[k] == s[k + n + 1]);
                }
                assert(is_part_at(rest, sep, i - n - 1, j - n - 1));
                assert(s.subrange(i, j) =~= rest.subrange(i - n - 1, j - n - 1));
                let k = choose|k: int| 0 <= k < later.len() && later[k] == part;
                assert(parts[k + 1] == part);
            } else {
                if i > 0 {
                    assert(s[i - 1] == sep);
                }
                if j > n {
                    assert(s[n] != sep);
                }
                if j < n {
                    assert(s[j] == sep);
                }
                assert(part =~= s.take(n));
            }
        }
    }
}

// --- What the operations on texts mean ---

/// Lowering moves each capital letter of ASCII by 32 and leaves every other character.
pub proof fn lowering_moves_capitals(s: Seq<char>, i: int)
    requires
        0 <= i < s.len(),
    ensures
        lowered(s).len() == s.len(),
        65 <= s[i] as u32 <= 90 ==> lowered(s)[i] as u32 == s[i] as u32 + 32,
        !(65 <= s[i] as u32 <= 90) ==> lowered(s)[i] == s[i],
{
}

/// A text stands where its characters follow each other.
pub proof fn text_stands_where_its_characters_do(s: Seq<char>, pat: Seq<char>, i: int)
    ensures
        occurs_at(s, pat, i) <==> 0 <= i && i + pat.len() <= s.len() && forall|k: int|
            0 <= k < pat.len() ==> s[i + k] == #[trigger] pat[k],
        has_text(s, pat) <==> exists|a: Seq<char>, b: Seq<char>| s == #[trigger] (a + pat + b),
{
    if 0 <= i && i + pat.len() <= s.len() {
        let part = s.subrange(i, i + pat.len());
        if forall|k: int| 0 <= k < pat.len() ==> s[i + k] == #[trigger] pat[k] {
            assert(part =~= pat);
        }
        if part == pat {
            assert forall|k: int| 0 <= k < pat.len() implies s[i + k] == #[trigger] pat[k] by {
                assert(part[k] == pat[k]);
            }
        }
    }
    if has_text(s, pat) {
        let j = choose|j: int| occurs_at(s, pat, j);
        let a = s.take(j);
        let b = s.skip(j + pat.len());
        assert forall|k: int| 0 <= k < pat.len() implies s[j + k] == #[trigger] pat[k] by {
            assert(s.subrange(j, j + pat.len())[k] == pat[k]);
        }
        assert(s =~= a + pat + b);
    }
    if exists|a: Seq<char>, b: Seq<char>| s == #[trigger] (a + pat + b) {
        let (a, b) = choose|a: Seq<char>, b: Seq<char>| s == #[trigger] (a + pat + b);
        assert(s.subrange(a.len() as int, (a.len() + pat.len()) as int) =~= pat);
        assert(occurs_at(s, pat, a.len() as int));
    }
}

/// Taking off a prefix undoes putting it on, and is possible only then.
pub proof fn prefix_comes_off(s: Seq<char>, prefix: Seq<char>, rest: Seq<char>)
    ensures
        without_prefix(s, prefix) == Some(rest) <==> s == prefix + rest,
{
    if prefix.is_prefix_of(s) {
        assert(s =~= prefix + s.skip(prefix.len() as int));
    }
    if s == prefix + rest {
        assert(prefix.is_prefix_of(s));
        assert(s.skip(prefix.len() as int) =~= rest);
    }
}

proof fn blank_start_comes_off(blank: Seq<char>, rest: Seq<char>)
    requires
        is_blank(blank),
        rest.len() > 0,
        !is_space(rest[0]),
    ensures
        trimmed_start(blank + rest) == rest,
    decreases blank.len(),
{
    if blank.len() == 0 {
        assert(blank + rest =~= rest);
    } else {
        assert(is_space(blank[0]));
        let fewer = blank.drop_first();
        assert forall|i: int| 0 <= i < fewer.len() implies is_space(#[trigger] fewer[i]) by {
            assert(fewer[i] == blank[i + 1]);
        }
        blank_start_comes_off(fewer, rest);
        assert((blank + rest).drop_first() =~= fewer + rest);
    }
}

proof fn blank_end_comes_off(rest: Seq<char>, blank: Seq<char>)
    requires
        is_blank(blank),
        rest.len() > 0,
        !is_space(rest.last()),
    ensures
        trimmed_end(rest + blank) == rest,
    decreases blank.len(),
{
    if blank.len() == 0 {
        assert(rest + blank =~= rest);
    } else {
        assert(is_space(blank[blank.len() - 1]));
        let fewer = blank.drop_last();
        assert forall|i: int| 0 <= i < fewer.len() implies is_space(#[trigger] fewer[i]) by {
            assert(fewer[i] == blank[i]);
        }
        blank_end_comes_off(rest, fewer);
        assert((rest + blank).drop_last() =~= rest + fewer);
    }
}

/// Trimming takes off exactly the white space around a text, and none within it.
pub proof fn trimming_takes_off_white_space(before: Seq<char>, core: Seq<char>, after: Seq<char>)
    requires
        is_blank(before),
        is_blank(after),
        core.len() > 0 ==> !is_space(core[0]) && !is_space(core.last()),
    ensures
        trimmed(before + core + after) == core,
{
    let s = before + core + after;
    if core.len() == 0 {
        assert forall|i: int| 0 <= i < s.len() implies is_space(#[trigger] s[i]) by {
            if i < before.len() {
                assert(s[i] == before[i]);
            } else {
                assert(s[i] == after[i - before.len()]);
            }
        }
        trimmed_is_empty_iff_blank(s);
        assert(trimmed(s) =~= core);
    } else {
        assert(s =~= before + (core + after));
        blank_start_comes_off(before, core + after);
        blank_end_comes_off(core, after);
    }
}

/// What is left of a text without a leading character does not begin with it, and what was taken
/// off is that character alone.
pub proof fn leading_characters_come_off(s: Seq<char>, c: char)
    ensures
        ({
            let n = s.len() - without_leading(s, c).len();
            &&& 0 <= n <= s.len()
            &&& without_leading(s, c) == s.skip(n)
            &&& forall|i: int| 0 <= i < n ==> #[trigger] s[i] == c
            &&& n < s.len() ==> s[n] != c
        }),
    decreases s.len(),
{
    if s.len() > 0 && s[0] == c {
        let t = s.drop_first();
        leading_characters_come_off(t, c);
        let n = t.len() - without_leading(t, c).len();
        assert(t.skip(n) =~= s.skip(n + 1));
        assert forall|i: int| 0 <= i < n + 1 implies #[trigger] s[i] == c by {
            if i > 0 {
                assert(t[i - 1] == c);
            }
        }
    } else {
        assert(s.skip(0) =~= s);
    }
}

/// A suffix comes off as often as it stands at the end, and no more.
pub proof fn suffixes_come_off(s: Seq<char>, suffix: Seq<char>)
    requires
        suffix.len() > 0,
    ensures
        !suffix.is_suffix_of(without_trailing(s, suffix)),
        without_trailing(s, suffix).is_prefix_of(s),
        !suffix.is_suffix_of(s) ==> without_trailing(s, suffix) == s,
        without_trailing(s + suffix, suffix) == without_trailing(s, suffix),
    decreases s.len(),
{
    assert(suffix.is_suffix_of(s + suffix));
    assert((s + suffix).take(s.len() as int) =~= s);
    if suffix.is_suffix_of(s) {
        suffixes_come_off(s.take(s.len() - suffix.len()), suffix);
    }
}

/// The lines of a text are what its line ends divide: a line end closes a line, and belongs to
/// none.
pub proof fn line_ends_divide(line: Seq<char>, rest: Seq<char>)
    requires
        !line.contains('\n'),
    ensures
        line.len() > 0 ==> lines(line) == seq![line],
        lines(Seq::empty()).len() == 0,
        line.len() == 0 || line.last() != '\r' ==> lines(line + seq!['\n'] + rest) == seq![line]
            + lines(rest),
        lines(line + seq!['\r', '\n'] + rest) == seq![line] + lines(rest),
{
    index_or_len_is_first(line, '\n');
    if index_or_len(line, '\n') < line.len() {
        assert(line.contains(line[index_or_len(line, '\n')]));
    }
    let plain = line + seq!['\n'] + rest;
    index_or_len_is_first(plain, '\n');
    assert(plain[line.len() as int] == '\n');
    let i = index_or_len(plain, '\n');
    if i < line.len() {
        assert(plain[i] == line[i]);
        assert(line.contains(line[i]));
    }
    assert(plain.take(i) =~= line);
    assert(plain.skip(i + 1) =~= rest);
    let dos = line + seq!['\r', '\n'] + rest;
    index_or_len_is_first(dos, '\n');
    assert(dos[line.len() as int + 1] == '\n');
    let j = index_or_len(dos, '\n');
    if j < line.len() {
        assert(dos[j] == line[j]);
        assert(line.contains(line[j]));
    }
    if j == line.len() {
        assert(dos[j] == '\r');
    }
    assert(j == line.len() + 1);
    assert(dos.take(j).drop_last() =~= line);
    assert(dos.take(j).last() == '\r');
    assert(dos.skip(j + 1) =~= rest);
}

/// A number is written with the digits that give it back, and no leading zero.
pub proof fn decimal_writes_the_number(n: nat)
    ensures
        unsigned_value(decimal(n)) == Some(n),
        decimal(n).len() > 0,
        decimal(n)[0] == '0' ==> n == 0,
        forall|i: int| 0 <= i < decimal(n).len() ==> is_digit(#[trigger] decimal(n)[i]),
    decreases n,
{
    let s = decimal(n);
    if n < 10 {
        assert(s.drop_last() =~= Seq::<char>::empty());
        assert(digits_value(s.drop_last()) == 0);
        assert(digits_value(s) == n);
    } else {
        decimal_writes_the_number(n / 10);
        let t = decimal(n / 10);
        assert(s.drop_last() =~= t);
        assert(s[0] == t[0]);
        assert(without_plus(t) == t);
        assert(digits_value(s) == digits_value(t) * 10 + n % 10);
        assert forall|i: int| 0 <= i < s.len() implies is_digit(#[trigger] s[i]) by {
            if i < t.len() {
                assert(s[i] == t[i]);
            }
        }
    }
    assert(without_plus(s) == s);
}

/// The value of a number with one more digit is ten times that of the others, and the digit. A plus
/// sign changes nothing, and a text without digits, or with anything else, is no number.
pub proof fn digits_count_by_tens(s: Seq<char>, d: int)
    requires
        0 <= d < 10,
    ensures
        unsigned_value(s) is Some ==> unsigned_value(s.push(digit_char(d))) == Some(
            (unsigned_value(s)->Some_0 * 10 + d) as nat,
        ),
        unsigned_value(seq![digit_char(d)]) == Some(d as nat),
        unsigned_value(s) is Some && s[0] != '+' ==> unsigned_value(seq!['+'] + s)
            == unsigned_value(s),
        unsigned_value(Seq::empty()) is None,
        s.len() > 0 && !is_digit(s.last()) ==> unsigned_value(s) is None,
{
    let digits = without_plus(s);
    let one = seq![digit_char(d)];
    assert(one.drop_last() =~= Seq::<char>::empty());
    assert(digits_value(one.drop_last()) == 0);
    assert(without_plus(one) == one);
    assert(digits_value(one) == d);
    if unsigned_value(s) is Some {
        let longer = s.push(digit_char(d));
        assert(without_plus(longer) =~= digits.push(digit_char(d)));
        assert(digits.push(digit_char(d)).drop_last() =~= digits);
        assert((seq!['+'] + s).drop_first() =~= s);
    }
    if s.len() > 0 && !is_digit(s.last()) && unsigned_value(s) is Some {
        assert(is_digit(digits[digits.len() - 1]));
    }
}

} // verus!
