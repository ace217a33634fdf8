//! Character-level text primitives.
//!
//! Configuration files and key lists are handled as sequences of characters.
//! Everything here is total and allocation-light: the executable functions work
//! on `&[char]` and hand back sub-slices, and each one is specified by a pure
//! function on `Seq<char>` of the same shape.

use vstd::prelude::*;
use vstd::slice::slice_subrange;

verus! {

/// `String::push` appends `ch` to the end of the string; nothing else changes.
pub assume_specification[ String::push ](s: &mut String, ch: char)
    ensures
        final(s)@ == old(s)@.push(ch),
;

/// The error of a failed UTF-8 conversion, never inspected.
#[verifier::external_type_specification]
#[verifier::external_body]
pub struct ExFromUtf8Error(std::string::FromUtf8Error);

/// `String::from_utf8` converts bytes to the string that they encode; it fails
/// on, and only on, bytes that are not valid UTF-8.
pub assume_specification[ String::from_utf8 ](vec: Vec<u8>) -> (r: std::result::Result<
    String,
    std::string::FromUtf8Error,
>)
    ensures
        match r {
            Ok(s) => vstd::utf8::valid_utf8(vec@) && s@ == vstd::utf8::decode_utf8(vec@),
            Err(_) => !vstd::utf8::valid_utf8(vec@),
        },
;

// ---------------------------------------------------------------------------
// Character classes
// ---------------------------------------------------------------------------

/// The Unicode `White_Space` property.
pub open spec fn whitespace(c: char) -> bool {
    let u = c as u32;
    ||| 0x09 <= u <= 0x0d
    ||| u == 0x20
    ||| u == 0x85
    ||| u == 0xa0
    ||| u == 0x1680
    ||| 0x2000 <= u <= 0x200a
    ||| u == 0x2028
    ||| u == 0x2029
    ||| u == 0x202f
    ||| u == 0x205f
    ||| u == 0x3000
}

/// The Unicode general category `Cc` (control codes).
pub open spec fn control(c: char) -> bool {
    let u = c as u32;
    u <= 0x1f || 0x7f <= u <= 0x9f
}

/// Whether `c` has the Unicode `White_Space` property.
pub fn is_whitespace(c: char) -> (r: bool)
    ensures
        r == whitespace(c),
{
    let u: u32 = c as u32;
    (0x09 <= u && u <= 0x0d) || u == 0x20 || u == 0x85 || u == 0xa0 || u == 0x1680 || (0x2000 <= u
        && u <= 0x200a) || u == 0x2028 || u == 0x2029 || u == 0x202f || u == 0x205f || u == 0x3000
}

/// Whether `c` is a control code.
pub fn is_control(c: char) -> (r: bool)
    ensures
        r == control(c),
{
    let u: u32 = c as u32;
    u <= 0x1f || (0x7f <= u && u <= 0x9f)
}

// ---------------------------------------------------------------------------
// Conversions
// ---------------------------------------------------------------------------

/// The characters of `s`, in order.
pub fn to_chars(s: &str) -> (r: Vec<char>)
    ensures
        r@ == s@,
{
    let mut out: Vec<char> = Vec::new();
    for c in it: s.chars()
        invariant
            out@ == it.seq().take(it.index()),
            it.seq() == s@,
    {
        out.push(c);
    }
    assert(s@.take(s@.len() as int) == s@);
    out
}

/// The string made of the characters `chars`.
pub fn from_chars(chars: &[char]) -> (r: String)
    ensures
        r@ == chars@,
{
    let mut out = String::new();
    let mut i: usize = 0;
    while i < chars.len()
        invariant
            i <= chars@.len(),
            out@ == chars@.take(i as int),
        decreases chars@.len() - i,
    {
        out.push(chars[i]);
        i += 1;
        assert(chars@.take(i as int) == chars@.take(i - 1).push(chars@[i - 1]));
    }
    assert(chars@.take(chars@.len() as int) == chars@);
    out
}

/// Whether the two character sequences are the same.
pub fn chars_eq(a: &[char], b: &[char]) -> (r: bool)
    ensures
        r == (a@ == b@),
{
    if a.len() != b.len() {
        return false;
    }
    let mut i: usize = 0;
    while i < a.len()
        invariant
            i <= a@.len(),
            a@.len() == b@.len(),
            forall|j: int| 0 <= j < i ==> a@[j] == b@[j],
        decreases a@.len() - i,
    {
        if a[i] != b[i] {
            return false;
        }
        i += 1;
    }
    assert(a@ == b@);
    true
}

/// Whether `s` is the text `literal`.
pub fn is_literal(s: &[char], literal: &str) -> (r: bool)
    ensures
        r == (s@ == literal@),
{
    let chars = to_chars(literal);
    chars_eq(s, chars.as_slice())
}

/// Whether the two byte sequences are the same.
pub fn bytes_eq(a: &[u8], b: &[u8]) -> (r: bool)
    ensures
        r == (a@ == b@),
{
    if a.len() != b.len() {
        return false;
    }
    let mut i: usize = 0;
    while i < a.len()
        invariant
            i <= a@.len(),
            a@.len() == b@.len(),
            forall|j: int| 0 <= j < i ==> a@[j] == b@[j],
        decreases a@.len() - i,
    {
        if a[i] != b[i] {
            return false;
        }
        i += 1;
    }
    assert(a@ == b@);
    true
}

// ---------------------------------------------------------------------------
// ASCII case
// ---------------------------------------------------------------------------

/// `c`, with an ASCII capital replaced by its small letter.
pub open spec fn ascii_lower(c: char) -> char {
    if 'A' <= c && c <= 'Z' {
        (c as u32 + 32) as char
    } else {
        c
    }
}

/// Equal up to the case of ASCII letters.
pub open spec fn same_ignoring_case(a: Seq<char>, b: Seq<char>) -> bool {
    a.len() == b.len() && forall|i: int|
        0 <= i < a.len() ==> ascii_lower(#[trigger] a[i]) == ascii_lower(b[i])
}

/// The small letter of an ASCII capital; any other character as it is.
pub fn to_ascii_lower(c: char) -> (r: char)
    ensures
        r == ascii_lower(c),
{
    if 'A' <= c && c <= 'Z' {
        let u: u8 = c as u8;
        (u + 32) as char
    } else {
        c
    }
}

/// Whether `s` is the text `literal` up to the case of ASCII letters.
pub fn eq_ignoring_case(s: &[char], literal: &str) -> (r: bool)
    ensures
        r == same_ignoring_case(s@, literal@),
{
    let other = to_chars(literal);
    if s.len() != other.len() {
        return false;
    }
    let mut i: usize = 0;
    while i < s.len()
        invariant
            i <= s@.len(),
            other@ == literal@,
            s@.len() == other@.len(),
            forall|j: int|
                0 <= j < i ==> ascii_lower(#[trigger] s@[j]) == ascii_lower(other@[j]),
        decreases s@.len() - i,
    {
        if to_ascii_lower(s[i]) != to_ascii_lower(other[i]) {
            return false;
        }
        i += 1;
    }
    true
}

// ---------------------------------------------------------------------------
// Trimming
// ---------------------------------------------------------------------------

/// `s` without its leading whitespace.
pub open spec fn trimmed_start(s: Seq<char>) -> Seq<char>
    decreases s.len(),
{
    if s.len() > 0 && whitespace(s[0]) {
        trimmed_start(s.skip(1))
    } else {
        s
    }
}

/// `s` without its trailing whitespace.
pub open spec fn trimmed_end(s: Seq<char>) -> Seq<char>
    decreases s.len(),
{
    if s.len() > 0 && whitespace(s.last()) {
        trimmed_end(s.drop_last())
    } else {
        s
    }
}

/// `s` without its leading and trailing whitespace.
pub open spec fn trimmed(s: Seq<char>) -> Seq<char> {
    trimmed_end(trimmed_start(s))
}

/// `s` without the run of `c` at its start.
pub open spec fn without_leading(s: Seq<char>, c: char) -> Seq<char>
    decreases s.len(),
{
    if s.len() > 0 && s[0] == c {
        without_leading(s.skip(1), c)
    } else {
        s
    }
}

/// `s` without the run of `c` at its end.
pub open spec fn without_trailing(s: Seq<char>, c: char) -> Seq<char>
    decreases s.len(),
{
    if s.len() > 0 && s.last() == c {
        without_trailing(s.drop_last(), c)
    } else {
        s
    }
}

/// Strips leading whitespace.
pub fn trim_start(s: &[char]) -> (r: &[char])
    ensures
        r@ == trimmed_start(s@),
{
    let mut i: usize = 0;
    assert(s@.skip(0) == s@);
    while i < s.len() && is_whitespace(s[i])
        invariant
            i <= s@.len(),
            trimmed_start(s@) == trimmed_start(s@.skip(i as int)),
        decreases s@.len() - i,
    {
        assert(s@.skip(i as int).skip(1) == s@.skip(i + 1));
        i += 1;
    }
    slice_subrange(s, i, s.len())
}

/// Strips trailing whitespace.
pub fn trim_end(s: &[char]) -> (r: &[char])
    ensures
        r@ == trimmed_end(s@),
{
    let mut n: usize = s.len();
    assert(s@.take(n as int) == s@);
    while n > 0 && is_whitespace(s[n - 1])
        invariant
            n <= s@.len(),
            trimmed_end(s@) == trimmed_end(s@.take(n as int)),
        decreases n,
    {
        assert(s@.take(n as int).drop_last() == s@.take(n - 1));
        n -= 1;
    }
    slice_subrange(s, 0, n)
}

/// Strips leading and trailing whitespace.
pub fn trim(s: &[char]) -> (r: &[char])
    ensures
        r@ == trimmed(s@),
{
    trim_end(trim_start(s))
}

/// Strips every `c` at the start.
pub fn strip_leading(s: &[char], c: char) -> (r: &[char])
    ensures
        r@ == without_leading(s@, c),
{
    let mut i: usize = 0;
    assert(s@.skip(0) == s@);
    while i < s.len() && s[i] == c
        invariant
            i <= s@.len(),
            without_leading(s@, c) == without_leading(s@.skip(i as int), c),
        decreases s@.len() - i,
    {
        assert(s@.skip(i as int).skip(1) == s@.skip(i + 1));
        i += 1;
    }
    slice_subrange(s, i, s.len())
}

/// Strips every `c` at the end.
pub fn strip_trailing(s: &[char], c: char) -> (r: &[char])
    ensures
        r@ == without_trailing(s@, c),
{
    let mut n: usize = s.len();
    assert(s@.take(n as int) == s@);
    while n > 0 && s[n - 1] == c
        invariant
            n <= s@.len(),
            without_trailing(s@, c) == without_trailing(s@.take(n as int), c),
        decreases n,
    {
        assert(s@.take(n as int).drop_last() == s@.take(n - 1));
        n -= 1;
    }
    slice_subrange(s, 0, n)
}

// ---------------------------------------------------------------------------
// Words
// ---------------------------------------------------------------------------

/// The length of the run of non-whitespace characters at the start of `s`.
pub open spec fn word_len(s: Seq<char>) -> nat
    decreases s.len(),
{
    if s.len() == 0 || whitespace(s[0]) {
        0
    } else {
        1 + word_len(s.skip(1))
    }
}

/// The run of non-whitespace characters at the start of `s`.
pub open spec fn first_word(s: Seq<char>) -> Seq<char> {
    s.take(word_len(s) as int)
}

/// What follows [`first_word`] in `s`.
pub open spec fn after_word(s: Seq<char>) -> Seq<char> {
    s.skip(word_len(s) as int)
}

/// The whitespace-separated words of `s`, in order.
pub open spec fn words(s: Seq<char>) -> Seq<Seq<char>>
    decreases s.len(),
{
    let t = trimmed_start(s);
    if t.len() == 0 {
        Seq::empty()
    } else {
        proof {
            lemma_trimmed_start(s);
            lemma_word_len(t);
        }
        seq![first_word(t)] + words(after_word(t))
    }
}

/// What [`trimmed_start`] does: it drops a prefix of whitespace and nothing
/// more.
pub proof fn lemma_trimmed_start(s: Seq<char>)
    ensures
        trimmed_start(s).len() <= s.len(),
        trimmed_start(s) == s.skip(s.len() - trimmed_start(s).len()),
        forall|i: int| 0 <= i < s.len() - trimmed_start(s).len() ==> whitespace(#[trigger] s[i]),
        trimmed_start(s).len() > 0 ==> !whitespace(trimmed_start(s)[0]),
    decreases s.len(),
{
    if s.len() > 0 && whitespace(s[0]) {
        lemma_trimmed_start(s.skip(1));
        let n = s.len() - trimmed_start(s).len();
        assert(s.skip(1).skip(n - 1) == s.skip(n));
        assert forall|i: int| 0 <= i < n implies whitespace(#[trigger] s[i]) by {
            if i > 0 {
                assert(s.skip(1)[i - 1] == s[i]);
            }
        }
    } else {
        assert(s.skip(0) == s);
    }
}

/// What [`trimmed_end`] does: it drops a suffix of whitespace and nothing more.
pub proof fn lemma_trimmed_end(s: Seq<char>)
    ensures
        trimmed_end(s).len() <= s.len(),
        trimmed_end(s) == s.take(trimmed_end(s).len() as int),
        forall|i: int| trimmed_end(s).len() <= i < s.len() ==> whitespace(#[trigger] s[i]),
        trimmed_end(s).len() > 0 ==> !whitespace(trimmed_end(s).last()),
    decreases s.len(),
{
    if s.len() > 0 && whitespace(s.last()) {
        lemma_trimmed_end(s.drop_last());
        let n = trimmed_end(s).len() as int;
        assert(s.drop_last().take(n) == s.take(n));
        assert forall|i: int| n <= i < s.len() implies whitespace(#[trigger] s[i]) by {
            if i < s.len() - 1 {
                assert(s.drop_last()[i] == s[i]);
            }
        }
    } else {
        assert(s.take(s.len() as int) == s);
    }
}

/// What [`word_len`] counts: a maximal run of non-whitespace.
pub proof fn lemma_word_len(s: Seq<char>)
    ensures
        word_len(s) <= s.len(),
        forall|i: int| 0 <= i < word_len(s) ==> !whitespace(#[trigger] s[i]),
        word_len(s) < s.len() ==> whitespace(s[word_len(s) as int]),
        s.len() > 0 && !whitespace(s[0]) ==> word_len(s) > 0,
    decreases s.len(),
{
    if s.len() > 0 && !whitespace(s[0]) {
        lemma_word_len(s.skip(1));
        assert forall|i: int| 0 <= i < word_len(s) implies !whitespace(#[trigger] s[i]) by {
            if i > 0 {
                assert(s.skip(1)[i - 1] == s[i]);
            }
        }
    }
}

/// Leading whitespace does not matter to [`words`], and what is not blank is its
/// first word and the words after it.
pub proof fn lemma_words_unfold(s: Seq<char>)
    ensures
        trimmed_start(trimmed_start(s)) == trimmed_start(s),
        words(trimmed_start(s)) == words(s),
        s.len() > 0 && s == trimmed_start(s) ==> {
            &&& words(s) == seq![first_word(s)] + words(after_word(s))
            &&& after_word(s).len() < s.len()
        },
{
    lemma_trimmed_start(s);
    lemma_word_len(s);
    if trimmed_start(s).len() > 0 {
        assert(trimmed_start(trimmed_start(s)) == trimmed_start(s));
    }
}

/// Splits off the run of non-whitespace characters at the start of `s`.
pub fn split_word(s: &[char]) -> (r: (&[char], &[char]))
    ensures
        r.0@ == first_word(s@),
        r.1@ == after_word(s@),
{
    let mut i: usize = 0;
    assert(s@.skip(0) == s@);
    while i < s.len() && !is_whitespace(s[i])
        invariant
            i <= s@.len(),
            word_len(s@) == i + word_len(s@.skip(i as int)),
        decreases s@.len() - i,
    {
        assert(s@.skip(i as int).skip(1) == s@.skip(i + 1));
        i += 1;
    }
    (slice_subrange(s, 0, i), slice_subrange(s, i, s.len()))
}

/// Text that neither begins nor ends with whitespace is trimmed.
pub proof fn lemma_already_trimmed(s: Seq<char>)
    requires
        s.len() > 0,
        !whitespace(s[0]),
        !whitespace(s.last()),
    ensures
        trimmed(s) == s,
        trimmed(seq![' '] + s) == s,
        trimmed_start(seq![' '] + s) == s,
{
    let padded = seq![' '] + s;
    assert(padded.skip(1) == s);
    assert(whitespace(padded[0]));
    assert(trimmed_start(s) == s);
    assert(trimmed_start(padded) == trimmed_start(s));
}

/// Trimming leaves a part of the text that neither begins nor ends with
/// whitespace, and trimming that again changes nothing.
pub proof fn lemma_trimmed(s: Seq<char>)
    ensures
        trimmed(s).len() <= trimmed_start(s).len() <= s.len(),
        trimmed(s) == s.subrange(
            s.len() - trimmed_start(s).len(),
            s.len() - trimmed_start(s).len() + trimmed(s).len(),
        ),
        trimmed(s).len() > 0 ==> !whitespace(trimmed(s)[0]) && !whitespace(trimmed(s).last()),
        trimmed(trimmed(s)) == trimmed(s),
{
    lemma_trimmed_start(s);
    lemma_trimmed_end(trimmed_start(s));
    if trimmed(s).len() > 0 {
        assert(trimmed(s)[0] == trimmed_start(s)[0]);
        lemma_already_trimmed(trimmed(s));
    }
}

/// The literal blank is one space.
pub proof fn lemma_space()
    ensures
        " "@ == seq![' '],
{
    reveal_strlit(" ");
    assert(" "@ == seq![' ']);
}

// ---------------------------------------------------------------------------
// Lines
// ---------------------------------------------------------------------------

/// The number of characters of `s` before its first newline.
pub open spec fn line_len(s: Seq<char>) -> nat
    decreases s.len(),
{
    if s.len() == 0 || s[0] == '\n' {
        0
    } else {
        1 + line_len(s.skip(1))
    }
}

/// `s` without one carriage return at its end.
pub open spec fn without_cr(s: Seq<char>) -> Seq<char> {
    if s.len() > 0 && s.last() == '\r' {
        s.drop_last()
    } else {
        s
    }
}

/// The lines of `s`: separated by `\n` or `\r\n`, the final line ending being
/// optional.
pub open spec fn lines(s: Seq<char>) -> Seq<Seq<char>>
    decreases s.len(),
{
    if s.len() == 0 {
        Seq::empty()
    } else if line_len(s) >= s.len() {
        seq![s]
    } else {
        seq![first_line(s)] + lines(after_line(s))
    }
}

/// The first line of the non-empty `s`, without its line ending.
pub open spec fn first_line(s: Seq<char>) -> Seq<char> {
    if line_len(s) >= s.len() {
        s
    } else {
        without_cr(s.take(line_len(s) as int))
    }
}

/// What follows the first line of `s` and its line ending.
pub open spec fn after_line(s: Seq<char>) -> Seq<char> {
    if line_len(s) >= s.len() {
        Seq::empty()
    } else {
        s.skip(line_len(s) as int + 1)
    }
}

/// What [`line_len`] counts: the characters up to the first newline.
pub proof fn lemma_line_len(s: Seq<char>)
    ensures
        line_len(s) <= s.len(),
        forall|i: int| 0 <= i < line_len(s) ==> #[trigger] s[i] != '\n',
        line_len(s) < s.len() ==> s[line_len(s) as int] == '\n',
    decreases s.len(),
{
    if s.len() > 0 && s[0] != '\n' {
        lemma_line_len(s.skip(1));
        assert forall|i: int| 0 <= i < line_len(s) implies #[trigger] s[i] != '\n' by {
            if i > 0 {
                assert(s.skip(1)[i - 1] == s[i]);
            }
        }
    }
}

/// A non-empty text is its first line and the lines after it.
pub proof fn lemma_lines_unfold(s: Seq<char>)
    requires
        s.len() > 0,
    ensures
        lines(s) == seq![first_line(s)] + lines(after_line(s)),
        after_line(s).len() < s.len(),
{
    if line_len(s) >= s.len() {
        assert(lines(after_line(s)) == Seq::<Seq<char>>::empty());
        assert(seq![s] + Seq::<Seq<char>>::empty() == seq![s]);
    }
}

/// A line, its newline and further text: the line comes first, and the lines of
/// the further text follow.
pub proof fn lemma_lines_of_line_and_rest(line: Seq<char>, rest: Seq<char>)
    requires
        !line.contains('\n'),
        line.len() > 0 ==> line.last() != '\r',
    ensures
        lines(line.push('\n') + rest) == seq![line] + lines(rest),
{
    let s = line.push('\n') + rest;
    lemma_line_len(s);
    let n = line_len(s) as int;
    if n < line.len() {
        assert(s[n] == line[n]);
    }
    if n > line.len() {
        assert(s[line.len() as int] == '\n');
    }
    assert(s.take(n) == line);
    assert(s.skip(n + 1) == rest);
    lemma_lines_unfold(s);
}

/// No line holds a newline.
pub proof fn lemma_lines_have_no_newline(s: Seq<char>)
    ensures
        forall|i: int| 0 <= i < lines(s).len() ==> !(#[trigger] lines(s)[i]).contains('\n'),
    decreases s.len(),
{
    if s.len() > 0 {
        lemma_lines_unfold(s);
        lemma_lines_have_no_newline(after_line(s));
        lemma_line_len(s);
        let line = first_line(s);
        assert forall|j: int| 0 <= j < line.len() implies #[trigger] line[j] != '\n' by {
            assert(line[j] == s[j]);
        }
        let rest = lines(after_line(s));
        assert forall|i: int| 0 <= i < lines(s).len() implies !(#[trigger] lines(
            s,
        )[i]).contains('\n') by {
            if i > 0 {
                assert(lines(s)[i] == rest[i - 1]);
            }
        }
    }
}

/// Splits the first line off the non-empty `s`.
pub fn split_line(s: &[char]) -> (r: (&[char], &[char]))
    requires
        s@.len() > 0,
    ensures
        r.0@ == first_line(s@),
        r.1@ == after_line(s@),
        r.1@.len() < s@.len(),
{
    let mut i: usize = 0;
    assert(s@.skip(0) == s@);
    while i < s.len() && s[i] != '\n'
        invariant
            i <= s@.len(),
            line_len(s@) == i + line_len(s@.skip(i as int)),
        decreases s@.len() - i,
    {
        assert(s@.skip(i as int).skip(1) == s@.skip(i + 1));
        i += 1;
    }
    let n: usize = s.len();
    if i >= n {
        assert(s@.subrange(0, n as int) == s@);
        assert(s@.subrange(n as int, n as int) == Seq::<char>::empty());
        (slice_subrange(s, 0, n), slice_subrange(s, n, n))
    } else {
        let end: usize = if i > 0 && s[i - 1] == '\r' {
            i - 1
        } else {
            i
        };
        assert(s@.take(i as int).len() > 0 ==> s@.take(i as int).drop_last() == s@.subrange(
            0,
            i - 1,
        ));
        (slice_subrange(s, 0, end), slice_subrange(s, i + 1, n))
    }
}

// ---------------------------------------------------------------------------
// Numbers
// ---------------------------------------------------------------------------

/// An ASCII decimal digit.
pub open spec fn digit(c: char) -> bool {
    '0' <= c && c <= '9'
}

/// The number that a sequence of decimal digits denotes.
pub open spec fn decimal_value(s: Seq<char>) -> nat
    decreases s.len(),
{
    if s.len() == 0 {
        0
    } else {
        decimal_value(s.drop_last()) * 10 + (s.last() as u32 - '0' as u32) as nat
    }
}

/// `s` without one `+` at its start.
pub open spec fn without_plus(s: Seq<char>) -> Seq<char> {
    if s.len() > 0 && s[0] == '+' {
        s.skip(1)
    } else {
        s
    }
}

/// The 32-bit number that `s` denotes: an optional `+` and at least one decimal
/// digit, nothing else, of a value that fits.
pub open spec fn parsed_u32(s: Seq<char>) -> Option<u32> {
    let digits = without_plus(s);
    if digits.len() == 0 {
        None
    } else if exists|i: int| 0 <= i < digits.len() && !digit(#[trigger] digits[i]) {
        None
    } else if decimal_value(digits) > u32::MAX {
        None
    } else {
        Some(decimal_value(digits) as u32)
    }
}

/// Parse an unsigned 32-bit decimal number.
pub fn parse_u32(s: &[char]) -> (r: Option<u32>)
    ensures
        r == parsed_u32(s@),
{
    let digits: &[char] = if s.len() > 0 && s[0] == '+' {
        slice_subrange(s, 1, s.len())
    } else {
        s
    };
    assert(digits@ == without_plus(s@));
    if digits.len() == 0 {
        return None;
    }
    let mut value: u64 = 0;
    let mut i: usize = 0;
    assert(digits@.take(0) == Seq::<char>::empty());
    while i < digits.len()
        invariant
            i <= digits@.len(),
            digits@ == without_plus(s@),
            digits@.len() > 0,
            forall|j: int| 0 <= j < i ==> digit(#[trigger] digits@[j]),
            value == decimal_value(digits@.take(i as int)),
            value <= u32::MAX,
        decreases digits@.len() - i,
    {
        let c: char = digits[i];
        if !('0' <= c && c <= '9') {
            return None;
        }
        value = value * 10 + (c as u64 - '0' as u64);
        proof {
            let so_far = digits@.take(i + 1);
            assert(so_far.drop_last() == digits@.take(i as int));
            assert(value == decimal_value(so_far));
            lemma_decimal_value_grows(digits@, i + 1);
        }
        if value > u32::MAX as u64 {
            return None;
        }
        i += 1;
    }
    assert(digits@.take(i as int) == digits@);
    Some(value as u32)
}

/// Further digits never make a number smaller.
proof fn lemma_decimal_value_grows(s: Seq<char>, n: int)
    requires
        0 <= n <= s.len(),
    ensures
        decimal_value(s.take(n)) <= decimal_value(s),
    decreases s.len() - n,
{
    if n < s.len() {
        lemma_decimal_value_grows(s, n + 1);
        assert(s.take(n + 1).drop_last() == s.take(n));
    } else {
        assert(s.take(n) == s);
    }
}

// ---------------------------------------------------------------------------
// Laws
// ---------------------------------------------------------------------------

/// Nothing but whitespace.
pub open spec fn blank(s: Seq<char>) -> bool {
    forall|i: int| 0 <= i < s.len() ==> whitespace(#[trigger] s[i])
}

/// Blank, or with `#` as its first character that is not whitespace.
pub open spec fn blank_or_comment(line: Seq<char>) -> bool {
    blank(line) || exists|k: int|
        0 <= k < line.len() && #[trigger] line[k] == '#' && forall|j: int|
            0 <= j < k ==> whitespace(#[trigger] line[j])
}

/// Trimming takes off exactly the whitespace around a text: whatever surrounds a
/// core that neither begins nor ends with whitespace, the core is what is left.
pub proof fn trimming_leaves_the_core(left: Seq<char>, core: Seq<char>, right: Seq<char>)
    requires
        blank(left),
        blank(right),
        core.len() > 0 ==> !whitespace(core[0]) && !whitespace(core.last()),
        core.len() == 0 ==> left.len() == 0,
    ensures
        trimmed(left + core + right) == core,
        trimmed_end(core + right) == core,
        core.len() > 0 ==> trimmed_start(left + core + right) == core + right,
{
    let whole = left + core + right;
    lemma_trimmed_start(whole);
    let from = whole.len() - trimmed_start(whole).len();
    if core.len() > 0 {
        if from < left.len() {
            assert(trimmed_start(whole)[0] == whole[from]);
            assert(whole[from] == left[from]);
        }
        if from > left.len() {
            assert(whole[left.len() as int] == core[0]);
        }
        assert(trimmed_start(whole) == core + right);
    } else {
        assert(whole == right);
        if trimmed_start(whole).len() > 0 {
            assert(trimmed_start(whole)[0] == right[from]);
        }
    }
    lemma_trimmed_end_of(core, right);
    if core.len() == 0 {
        assert(trimmed_start(whole) == Seq::<char>::empty());
        assert(trimmed(whole) == Seq::<char>::empty());
    }
}

/// What [`trimmed_end`] leaves, stated from its result.
pub(crate) proof fn lemma_trimmed_end_of(core: Seq<char>, right: Seq<char>)
    requires
        blank(right),
        core.len() > 0 ==> !whitespace(core.last()),
    ensures
        trimmed_end(core + right) == core,
{
    let s = core + right;
    lemma_trimmed_end(s);
    let n = trimmed_end(s).len() as int;
    if n < core.len() {
        assert(s[core.len() - 1] == core.last());
    }
    if n > core.len() {
        assert(trimmed_end(s).last() == s[n - 1]);
        assert(s[n - 1] == right[n - 1 - core.len()]);
    }
    assert(s.take(n) == core);
}

/// A text is left empty by trimming if and only if it is blank.
pub proof fn only_blank_text_trims_to_nothing(s: Seq<char>)
    ensures
        trimmed(s).len() == 0 <==> blank(s),
{
    lemma_trimmed_start(s);
    lemma_trimmed_end(trimmed_start(s));
    if blank(s) {
        assert(Seq::<char>::empty() + s == s);
        assert(Seq::<char>::empty() + Seq::<char>::empty() + s == s);
        trimming_leaves_the_core(Seq::empty(), Seq::empty(), s);
    }
    if trimmed(s).len() == 0 {
        assert forall|i: int| 0 <= i < s.len() implies whitespace(#[trigger] s[i]) by {
            let from = s.len() - trimmed_start(s).len();
            if i >= from {
                assert(trimmed_start(s)[i - from] == s[i]);
            }
        }
    }
}

/// Trimmed text is empty or begins with `#` if and only if the text is blank or a
/// comment.
pub proof fn comments_begin_with_a_hash(s: Seq<char>)
    ensures
        (trimmed(s).len() == 0 || trimmed(s)[0] == '#') <==> blank_or_comment(s),
{
    only_blank_text_trims_to_nothing(s);
    lemma_trimmed(s);
    lemma_trimmed_start(s);
    if trimmed(s).len() > 0 {
        let k = s.len() - trimmed_start(s).len();
        assert(trimmed(s)[0] == s[k]);
        if s[k] == '#' {
            assert(blank_or_comment(s));
        } else if blank_or_comment(s) {
            let m = choose|m: int|
                0 <= m < s.len() && #[trigger] s[m] == '#' && forall|j: int|
                    0 <= j < m ==> whitespace(#[trigger] s[j]);
            if m < k {
                assert(whitespace(s[m]));
            }
            if m > k {
                assert(whitespace(s[k]));
            }
        }
    }
}

/// The first line of a text is what stands before its first `\n` or `\r\n`, and
/// the lines of what stands behind follow.
pub proof fn lines_are_separated_by_line_endings(
    line: Seq<char>,
    ending: Seq<char>,
    rest: Seq<char>,
)
    requires
        !line.contains('\n'),
        ending == seq!['\r', '\n'] || ending == seq!['\n'] && (line.len() > 0 ==> line.last()
            != '\r'),
    ensures
        lines(line + ending + rest) == seq![line] + lines(rest),
{
    let s = line + ending + rest;
    lemma_line_len(s);
    let n = line_len(s) as int;
    let at = line.len() + ending.len() - 1;
    assert(s[at] == '\n');
    if n < at {
        if n < line.len() {
            assert(s[n] == line[n]);
        } else {
            assert(s[n] == '\r');
        }
    }
    assert(n == at);
    assert(s.skip(n + 1) == rest);
    if ending.len() == 1 {
        assert(s.take(n) == line);
    } else {
        assert(s.take(n).drop_last() == line);
        assert(s.take(n).last() == '\r');
    }
    lemma_lines_unfold(s);
}

/// A non-empty text without a newline is one line, and an empty text has none.
pub proof fn text_without_newline_is_one_line(s: Seq<char>)
    requires
        !s.contains('\n'),
    ensures
        lines(s) == if s.len() == 0 {
            Seq::empty()
        } else {
            seq![s]
        },
{
    lemma_line_len(s);
    if line_len(s) < s.len() {
        assert(s.contains(s[line_len(s) as int]));
    }
}

/// The words of a text: a run of characters that are not whitespace, after any
/// whitespace and before the end or more whitespace, is the first one, and the
/// words of what follows come after it.
pub proof fn words_are_separated_by_whitespace(
    left: Seq<char>,
    word: Seq<char>,
    rest: Seq<char>,
)
    requires
        blank(left),
        word.len() > 0,
        forall|i: int| 0 <= i < word.len() ==> !whitespace(#[trigger] word[i]),
        rest.len() == 0 || whitespace(rest[0]),
    ensures
        words(left + word + rest) == seq![word] + words(rest),
        first_word(word + rest) == word,
        after_word(word + rest) == rest,
{
    let t = word + rest;
    let s = left + word + rest;
    lemma_word_len(t);
    let n = word_len(t) as int;
    if n < word.len() {
        assert(t[n] == word[n]);
    }
    if n > word.len() {
        assert(t[word.len() as int] == rest[0]);
    }
    assert(t.take(n) == word);
    assert(t.skip(n) == rest);
    lemma_trimmed_start(s);
    let from = s.len() - trimmed_start(s).len();
    if from < left.len() {
        assert(trimmed_start(s)[0] == s[from]);
        assert(s[from] == left[from]);
    }
    if from > left.len() {
        assert(s[left.len() as int] == word[0]);
    }
    assert(trimmed_start(s) == t);
}

/// Blank text has no words.
pub proof fn blank_text_has_no_words(s: Seq<char>)
    requires
        blank(s),
    ensures
        words(s) == Seq::<Seq<char>>::empty(),
{
    lemma_trimmed_start(s);
    if trimmed_start(s).len() > 0 {
        let from = s.len() - trimmed_start(s).len();
        assert(trimmed_start(s)[0] == s[from]);
    }
}

/// The numbers that are parsed: a single digit is its value; a digit more makes
/// ten times the number and the digit, if that still fits in 32 bits; a `+` in
/// front of digits makes no difference; and text that is empty, or that holds
/// anything but digits behind such a `+`, is no number.
pub proof fn numbers_are_decimal(s: &[char], longer: &[char], r: Option<u32>, longer_r: Option<u32>)
    requires
        call_ensures(parse_u32, (s,), r),
        call_ensures(parse_u32, (longer,), longer_r),
    ensures
        s@.len() == 1 && '0' <= s@[0] <= '9' ==> r == Some((s@[0] as u32 - '0' as u32) as u32),
        longer@.len() == s@.len() + 1 && longer@.drop_last() == s@ && '0' <= longer@.last() <= '9'
            && s@.len() > 0 && s@ != seq!['+'] ==> longer_r == match r {
            Some(n) => {
                let m = n * 10 + (longer@.last() as u32 - '0' as u32);
                if m <= u32::MAX {
                    Some(m as u32)
                } else {
                    None
                }
            },
            None => None,
        },
        longer@ == seq!['+'] + s@ && s@.len() > 0 && s@[0] != '+' ==> longer_r == r,
        s@.len() == 0 || s@ == seq!['+'] ==> r is None,
        forall|i: int|
            0 <= i < s@.len() && !('0' <= #[trigger] s@[i] <= '9') && (i > 0 || s@[i] != '+')
                ==> r is None,
{
    let digits = without_plus(s@);
    let more = without_plus(longer@);
    if s@.len() == 1 && '0' <= s@[0] <= '9' {
        assert(digits == s@);
        assert(s@.drop_last() == Seq::<char>::empty());
        assert(decimal_value(s@.drop_last()) == 0);
        assert(decimal_value(s@) == s@[0] as u32 - '0' as u32);
    }
    if longer@.len() == s@.len() + 1 && longer@.drop_last() == s@ && '0' <= longer@.last() <= '9'
        && s@.len() > 0 && s@ != seq!['+'] {
        assert(longer@[0] == s@[0]);
        if s@.len() == 1 && s@[0] == '+' {
            assert(s@ == seq!['+']);
        }
        assert(more.drop_last() == digits);
        assert(more.last() == longer@.last());
        assert(forall|i: int| 0 <= i < digits.len() ==> #[trigger] digits[i] == more[i]);
        assert(forall|i: int| 0 <= i < more.len() - 1 ==> #[trigger] more[i] == digits[i]);
        assert(decimal_value(more) == decimal_value(digits) * 10 + (longer@.last() as u32
            - '0' as u32));
    }
    if longer@ == seq!['+'] + s@ {
        assert(longer@.skip(1) == s@);
    }
    assert forall|i: int|
        0 <= i < s@.len() && !('0' <= #[trigger] s@[i] <= '9') && (i > 0 || s@[i]
            != '+') implies r is None by {
        if s@[0] == '+' {
            assert(digits[i - 1] == s@[i]);
        } else {
            assert(digits[i] == s@[i]);
        }
    }
}

/// Whether two texts are as long and differ, character by character, at most in
/// the case of an ASCII letter.
pub open spec fn same_up_to_case(a: Seq<char>, b: Seq<char>) -> bool {
    a.len() == b.len() && forall|i: int|
        0 <= i < a.len() ==> {
            ||| #[trigger] a[i] == b[i]
            ||| 'A' <= a[i] <= 'Z' && b[i] as int == a[i] as int + 32
            ||| 'A' <= b[i] <= 'Z' && a[i] as int == b[i] as int + 32
        }
}

/// Case is ignored in ASCII letters, and in nothing else.
pub proof fn case_is_ignored_in_letters_only(s: &[char], literal: &str, same: bool)
    requires
        call_ensures(eq_ignoring_case, (s, literal), same),
    ensures
        same <==> same_up_to_case(s@, literal@),
{
    lemma_same_up_to_case(s@, literal@);
}

/// [`same_ignoring_case`] is [`same_up_to_case`].
pub(crate) proof fn lemma_same_up_to_case(a: Seq<char>, b: Seq<char>)
    ensures
        same_ignoring_case(a, b) <==> same_up_to_case(a, b),
{
}

/// What [`without_trailing`] and [`without_leading`] leave: everything but the
/// run of `c` at that end.
pub proof fn stripping_leaves_the_core(run: Seq<char>, core: Seq<char>, c: char)
    requires
        forall|i: int| 0 <= i < run.len() ==> #[trigger] run[i] == c,
    ensures
        core.len() == 0 || core.last() != c ==> without_trailing(core + run, c) == core,
        core.len() == 0 || core[0] != c ==> without_leading(run + core, c) == core,
    decreases run.len(),
{
    if run.len() == 0 {
        assert(core + run == core);
        assert(run + core == core);
    } else {
        stripping_leaves_the_core(run.drop_last(), core, c);
        assert((core + run).drop_last() == core + run.drop_last());
        assert((core + run).last() == c);
        assert((run + core)[0] == c);
        assert((run + core).skip(1) == run.drop_last() + core) by {
            assert forall|i: int| 0 <= i < run.len() - 1 implies #[trigger] (run + core).skip(1)[i]
                == (run.drop_last() + core)[i] by {
                assert(run[i + 1] == c && run[i] == c);
            }
        }
    }
}

/// A text is what [`without_trailing`] leaves of it, which does not end in `c`,
/// and a run of `c`.
pub proof fn stripped_text_does_not_end_in_the_stripped(s: Seq<char>, c: char)
    ensures
        without_trailing(s, c).len() <= s.len(),
        s == without_trailing(s, c) + s.skip(without_trailing(s, c).len() as int),
        without_trailing(s, c).len() == 0 || without_trailing(s, c).last() != c,
        forall|i: int| without_trailing(s, c).len() <= i < s.len() ==> #[trigger] s[i] == c,
    decreases s.len(),
{
    if s.len() > 0 && s.last() == c {
        stripped_text_does_not_end_in_the_stripped(s.drop_last(), c);
        let n = without_trailing(s, c).len() as int;
        assert forall|i: int| n <= i < s.len() implies #[trigger] s[i] == c by {
            if i < s.len() - 1 {
                assert(s.drop_last()[i] == s[i]);
            }
        }
        assert forall|i: int| 0 <= i < n implies #[trigger] s[i] == without_trailing(s, c)[i] by {
            assert(s.drop_last()[i] == s[i]);
        }
    }
    assert(s == without_trailing(s, c) + s.skip(without_trailing(s, c).len() as int));
}

/// The code points of the 25 characters that count as whitespace.
pub open spec fn whitespace_code_points() -> Seq<u32> {
    seq![
        9u32,
        10,
        11,
        12,
        13,
        32,
        133,
        160,
        5760,
        8192,
        8193,
        8194,
        8195,
        8196,
        8197,
        8198,
        8199,
        8200,
        8201,
        8202,
        8232,
        8233,
        8239,
        8287,
        12288,
    ]
}

/// The character classes, code point by code point: whitespace is the 25 characters
/// of that Unicode property; control codes are the 32 first ones, `DEL`, and the 32
/// that follow it.
pub proof fn character_classes_are_exact(c: char, white: bool, code: bool)
    requires
        call_ensures(is_whitespace, (c,), white),
        call_ensures(is_control, (c,), code),
    ensures
        white <==> whitespace_code_points().contains(c as u32),
        code <==> (c as u32) < 32 || 127 <= c as u32 && (c as u32) < 160,
{
    let all = whitespace_code_points();
    let u = c as u32;
    if white {
        if 9 <= u <= 13 {
            assert(all[u - 9] == u);
        } else if 8192 <= u <= 8202 {
            assert(all[u - 8192 + 9] == u);
        } else {
            assert(all[5] == 32 && all[6] == 133 && all[7] == 160 && all[8] == 5760);
            assert(all[20] == 8232 && all[21] == 8233 && all[22] == 8239 && all[23] == 8287);
            assert(all[24] == 12288);
        }
    }
}

} // verus!
