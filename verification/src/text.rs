//! Text as sequences of characters: the string operations that messages,
//! commands and identifiers are made of.

use vstd::prelude::*;
use vstd::string::*;
use vstd::utf8::*;

verus! {

// ---------------------------------------------------------------------------
// Characters
// ---------------------------------------------------------------------------

/// The Unicode `White_Space` property.
pub open spec fn white(c: char) -> bool {
    ||| '\u{9}' <= c <= '\u{d}'
    ||| c == ' '
    ||| c == '\u{85}'
    ||| c == '\u{a0}'
    ||| c == '\u{1680}'
    ||| '\u{2000}' <= c <= '\u{200a}'
    ||| c == '\u{2028}'
    ||| c == '\u{2029}'
    ||| c == '\u{202f}'
    ||| c == '\u{205f}'
    ||| c == '\u{3000}'
}

/// Whether a character is white space.
pub fn is_white(c: char) -> (r: bool)
    ensures
        r == white(c),
{
    ('\u{9}' <= c && c <= '\u{d}') || c == ' ' || c == '\u{85}' || c == '\u{a0}' || c == '\u{1680}'
        || ('\u{2000}' <= c && c <= '\u{200a}') || c == '\u{2028}' || c == '\u{2029}'
        || c == '\u{202f}' || c == '\u{205f}' || c == '\u{3000}'
}

/// An ASCII decimal digit.
pub open spec fn digit(c: char) -> bool {
    '0' <= c <= '9'
}

// ---------------------------------------------------------------------------
// Standard string functions
// ---------------------------------------------------------------------------

/// `String::push` appends one character to the end of the string.
pub assume_specification[ String::push ](s: &mut String, c: char)
    ensures
        final(s)@ == old(s)@.push(c),
;

/// `str == str`: two string slices are equal when they hold the same characters.
pub assume_specification[ <str as PartialEq>::eq ](s: &str, other: &str) -> (r: bool)
    ensures
        r == (s@ == other@),
;

/// What `str::to_lowercase` gives for a text.
pub uninterp spec fn lowercase(s: Seq<char>) -> Seq<char>;

/// An ASCII letter in lower case; any other character as it is.
pub open spec fn ascii_lower(c: char) -> char {
    if 'A' <= c <= 'Z' {
        ((c as u32 + 32) as u32) as char
    } else {
        c
    }
}

/// `str::to_lowercase`: the lower-case form that Unicode gives the text, which
/// depends on the text alone. A text of ASCII characters has its letters
/// lowered one by one.
#[verifier::external_body]
pub(crate) fn to_lowercase(s: &str) -> (r: String)
    ensures
        r@ == lowercase(s@),
        is_ascii_chars(s@) ==> r@ == s@.map_values(|c: char| ascii_lower(c)),
{
    s.to_lowercase()
}

/// What `String::from_utf8_lossy` gives for some bytes.
pub uninterp spec fn utf8_lossy(bytes: Seq<u8>) -> Seq<char>;

/// `String::from_utf8_lossy`: the text of the bytes, with every invalid part
/// replaced by U+FFFD. Valid UTF-8 comes back as the text that it encodes.
#[verifier::external_body]
pub(crate) fn from_utf8_lossy(bytes: &[u8]) -> (r: String)
    ensures
        r@ == utf8_lossy(bytes@),
        valid_utf8(bytes@) ==> r@ == decode_utf8(bytes@),
{
    String::from_utf8_lossy(bytes).into_owned()
}

// ---------------------------------------------------------------------------
// Characters in and out of strings
// ---------------------------------------------------------------------------

/// The characters of a string.
pub fn chars_of(s: &str) -> (r: Vec<char>)
    ensures
        r@ == s@,
{
    let mut r: Vec<char> = Vec::new();
    for c in it: s.chars()
        invariant
            it.seq() == s@,
            r@ == s@.take(it.index() as int),
    {
        r.push(c);
    }
    r
}

/// The string of a run of characters.
pub fn text_between(cs: &Vec<char>, from: usize, to: usize) -> (r: String)
    requires
        from <= to <= cs@.len(),
    ensures
        r@ == cs@.subrange(from as int, to as int),
{
    let mut r = String::new();
    let mut i: usize = from;
    while i < to
        invariant
            from <= i <= to <= cs@.len(),
            r@ == cs@.subrange(from as int, i as int),
        decreases to - i,
    {
        r.push(cs[i]);
        i += 1;
    }
    r
}

/// The number of bytes that a string takes in UTF-8.
pub fn byte_len(s: &str) -> (r: usize)
    ensures
        r == encode_utf8(s@).len(),
{
    s.as_bytes().len()
}

// ---------------------------------------------------------------------------
// Trimming
// ---------------------------------------------------------------------------

/// The text without its leading white space.
pub open spec fn trim_start(s: Seq<char>) -> Seq<char>
    decreases s.len(),
{
    if s.len() > 0 && white(s[0]) {
        trim_start(s.skip(1))
    } else {
        s
    }
}

/// The text without its trailing white space.
pub open spec fn trim_end(s: Seq<char>) -> Seq<char>
    decreases s.len(),
{
    if s.len() > 0 && white(s.last()) {
        trim_end(s.drop_last())
    } else {
        s
    }
}

/// The text without white space at either end.
pub open spec fn trim(s: Seq<char>) -> Seq<char> {
    trim_end(trim_start(s))
}

/// Dropping white characters one by one reaches the trimmed text.
pub proof fn lemma_trim_start(s: Seq<char>, i: int)
    requires
        0 <= i <= s.len(),
        forall|j: int| 0 <= j < i ==> white(#[trigger] s[j]),
        i < s.len() ==> !white(s[i]),
    ensures
        trim_start(s) == s.skip(i),
    decreases i,
{
    if i == 0 {
        assert(s.skip(0) == s);
    } else {
        assert(white(s[0]));
        let t = s.skip(1);
        assert forall|j: int| 0 <= j < i - 1 implies white(#[trigger] t[j]) by {
            assert(t[j] == s[j + 1]);
        }
        lemma_trim_start(t, i - 1);
        assert(t.skip(i - 1) == s.skip(i));
    }
}

proof fn lemma_trim_end(s: Seq<char>, i: int)
    requires
        0 <= i <= s.len(),
        forall|j: int| i <= j < s.len() ==> white(#[trigger] s[j]),
        i > 0 ==> !white(s[i - 1]),
    ensures
        trim_end(s) == s.take(i),
    decreases s.len() - i,
{
    if i == s.len() {
        assert(s.take(i) == s);
    } else {
        assert(white(s[s.len() - 1]));
        let t = s.drop_last();
        lemma_trim_end(t, i);
        assert(t.take(i) == s.take(i));
    }
}

/// A text that neither starts nor ends in white space is its own trimmed form.
pub proof fn lemma_trim_unchanged(s: Seq<char>)
    requires
        s.len() > 0 ==> !white(s[0]) && !white(s.last()),
    ensures
        trim(s) == s,
{
    reveal_with_fuel(trim_start, 1);
    reveal_with_fuel(trim_end, 1);
}

/// What trimming leaves begins and ends with something visible.
pub proof fn lemma_trim_ends(s: Seq<char>)
    ensures
        trim(s).len() > 0 ==> !white(trim(s)[0]) && !white(trim(s).last()),
        trim(s).len() <= s.len(),
{
    lemma_trim_start_len(s);
    lemma_trim_end_props(trim_start(s));
}

/// What is left without leading white space is an end of the text.
pub proof fn lemma_trim_start_len(s: Seq<char>)
    ensures
        trim_start(s).len() <= s.len(),
        trim_start(s).len() > 0 ==> !white(trim_start(s)[0]),
        trim_start(s) == s.skip(s.len() - trim_start(s).len()),
        forall|j: int| 0 <= j < s.len() - trim_start(s).len() ==> white(#[trigger] s[j]),
    decreases s.len(),
{
    if s.len() > 0 && white(s[0]) {
        let rest = s.skip(1);
        lemma_trim_start_len(rest);
        assert forall|j: int| 0 <= j < s.len() - trim_start(s).len() implies white(
            #[trigger] s[j],
        ) by {
            if j > 0 {
                assert(s[j] == rest[j - 1]);
            }
        }
        assert(rest.skip(rest.len() - trim_start(rest).len()) == s.skip(
            s.len() - trim_start(rest).len(),
        ));
    } else {
        assert(s.skip(0) == s);
    }
}

/// What is left without trailing white space is a beginning of the text.
pub proof fn lemma_trim_end_props(s: Seq<char>)
    ensures
        trim_end(s).len() <= s.len(),
        trim_end(s).len() > 0 ==> !white(trim_end(s).last()) && trim_end(s)[0] == s[0],
        trim_end(s) == s.take(trim_end(s).len() as int),
    decreases s.len(),
{
    if s.len() > 0 && white(s.last()) {
        lemma_trim_end_props(s.drop_last());
        assert(s.drop_last().take(trim_end(s).len() as int) == s.take(trim_end(s).len() as int));
    } else {
        assert(s.take(s.len() as int) == s);
    }
}

/// A text that begins with something visible has an end to trim to.
pub proof fn lemma_trim_end_visible(s: Seq<char>)
    requires
        s.len() > 0,
        !white(s[0]),
    ensures
        trim_end(s).len() > 0,
    decreases s.len(),
{
    if white(s.last()) {
        lemma_trim_end_visible(s.drop_last());
    }
}

/// White space at the front of a text is cut off up to what is visible.
pub proof fn lemma_trim_start_before(a: Seq<char>, s: Seq<char>)
    requires
        s.len() > 0,
        !white(s[0]),
    ensures
        trim_start(a + s) == trim_start(a) + s,
    decreases a.len(),
{
    if a.len() == 0 {
        assert(a + s == s);
        assert(trim_start(a) + s == s);
    } else {
        assert((a + s)[0] == a[0]);
        if white(a[0]) {
            assert((a + s).skip(1) == a.skip(1) + s);
            lemma_trim_start_before(a.skip(1), s);
        }
    }
}

/// White space at the end of a text is cut off down to what is visible.
pub proof fn lemma_trim_end_behind(a: Seq<char>, s: Seq<char>)
    ensures
        trim_end(s).len() > 0 ==> trim_end(a + s) == a + trim_end(s),
        trim_end(s).len() == 0 ==> trim_end(a + s) == trim_end(a),
    decreases s.len(),
{
    if s.len() == 0 {
        assert(a + s == a);
    } else {
        assert((a + s).last() == s.last());
        if white(s.last()) {
            assert((a + s).drop_last() == a + s.drop_last());
            lemma_trim_end_behind(a, s.drop_last());
        }
    }
}

/// White space before a text makes no difference once it is trimmed.
pub proof fn lemma_trim_white_before(a: Seq<char>, s: Seq<char>)
    requires
        forall|i: int| 0 <= i < a.len() ==> white(#[trigger] a[i]),
    ensures
        trim(a + s) == trim(s),
    decreases a.len(),
{
    if a.len() == 0 {
        assert(a + s == s);
    } else {
        assert((a + s)[0] == a[0]);
        assert(white(a[0]));
        assert((a + s).skip(1) == a.skip(1) + s);
        assert forall|i: int| 0 <= i < a.skip(1).len() implies white(#[trigger] a.skip(1)[i]) by {
            assert(a.skip(1)[i] == a[i + 1]);
        }
        lemma_trim_white_before(a.skip(1), s);
    }
}

/// White space around a text makes no difference to what trimming leaves of it:
/// what is left at its end begins with white space and goes on with the trimmed
/// text.
pub proof fn lemma_trim_parts(s: Seq<char>) -> (w: Seq<char>)
    ensures
        forall|i: int| 0 <= i < w.len() ==> white(#[trigger] w[i]),
        trim(s).len() == 0 ==> trim_end(s).len() == 0 && trim_start(s).len() == 0,
        trim(s).len() > 0 ==> trim_end(s) == w + trim(s) && !white(trim(s)[0]),
{
    let body = trim_start(s);
    lemma_trim_start_len(s);
    lemma_trim_end_props(s);
    let w = s.take(s.len() - body.len());
    assert(s == w + body);
    if body.len() == 0 {
        assert(trim(s).len() == 0);
        if trim_end(s).len() > 0 {
            assert(trim_end(s).last() == s[trim_end(s).len() - 1]);
        }
    } else {
        lemma_trim_end_visible(body);
        lemma_trim_end_behind(w, body);
        lemma_trim_end_props(body);
    }
    w
}

/// Nothing is left of white space.
pub proof fn lemma_trim_white(w: Seq<char>)
    requires
        forall|i: int| 0 <= i < w.len() ==> white(#[trigger] w[i]),
    ensures
        trim_start(w).len() == 0,
        trim_end(w).len() == 0,
{
    lemma_trim_start(w, w.len() as int);
    lemma_trim_end(w, 0);
}

/// Cuts the white space off the front of a string.
pub fn trimmed_start<'a>(s: &'a str) -> (r: &'a str)
    ensures
        r@ == trim_start(s@),
{
    let cs = chars_of(s);
    let n: usize = cs.len();
    let mut i: usize = 0;
    while i < n && is_white(cs[i])
        invariant
            i <= n == cs@.len(),
            cs@ == s@,
            forall|j: int| 0 <= j < i ==> white(#[trigger] s@[j]),
        decreases n - i,
    {
        i += 1;
    }
    proof {
        lemma_trim_start(s@, i as int);
    }
    s.substring_char(i, n)
}

/// Cuts the white space off the end of a string.
pub fn trimmed_end<'a>(s: &'a str) -> (r: &'a str)
    ensures
        r@ == trim_end(s@),
{
    let cs = chars_of(s);
    let mut i: usize = cs.len();
    while i > 0 && is_white(cs[i - 1])
        invariant
            i <= cs@.len(),
            cs@ == s@,
            forall|j: int| i <= j < s@.len() ==> white(#[trigger] s@[j]),
        decreases i,
    {
        i -= 1;
    }
    proof {
        lemma_trim_end(s@, i as int);
    }
    s.substring_char(0, i)
}

/// Cuts the white space off both ends of a string.
pub fn trimmed<'a>(s: &'a str) -> (r: &'a str)
    ensures
        r@ == trim(s@),
{
    trimmed_end(trimmed_start(s))
}

/// Trimming takes white space off both ends of a text and nothing else: what it
/// leaves is a stretch of the text with white space only before and behind it, and
/// begins and ends with something visible, unless nothing is left.
pub proof fn trimming_takes_off_white_space_only(s: Seq<char>)
    ensures
        exists|i: int, j: int|
            0 <= i <= j <= s.len() && trim(s) == #[trigger] s.subrange(i, j) && (forall|k: int|
                0 <= k < i || j <= k < s.len() ==> white(#[trigger] s[k])) && (i < j ==> !white(s[i])
                && !white(s[j - 1])),
        trim_end(s).len() <= s.len() && trim_end(s) == s.take(trim_end(s).len() as int),
        forall|k: int| trim_end(s).len() <= k < s.len() ==> white(#[trigger] s[k]),
        trim_end(s).len() > 0 ==> !white(s[trim_end(s).len() - 1]),
{
    lemma_trim_start_len(s);
    let body = trim_start(s);
    lemma_trim_end_props(body);
    lemma_trim_end_props(s);
    lemma_trim_end_white(s);
    lemma_trim_end_white(body);
    let i = s.len() - body.len();
    let j = i + trim(s).len();
    assert(trim(s) == s.subrange(i, j));
    assert forall|k: int| 0 <= k < i || j <= k < s.len() implies white(#[trigger] s[k]) by {
        if k >= j {
            assert(body[k - i] == s[k]);
        }
    }
    if i < j {
        assert(s[i] == body[0]);
        assert(s[j - 1] == trim(s).last());
    }
    if trim_end(s).len() > 0 {
        assert(trim_end(s).last() == s[trim_end(s).len() - 1]);
    }
}

proof fn lemma_trim_end_white(s: Seq<char>)
    ensures
        forall|k: int| trim_end(s).len() <= k < s.len() ==> white(#[trigger] s[k]),
    decreases s.len(),
{
    if s.len() > 0 && white(s.last()) {
        let front = s.drop_last();
        lemma_trim_end_white(front);
        assert forall|k: int| trim_end(s).len() <= k < s.len() implies white(#[trigger] s[k]) by {
            if k < front.len() {
                assert(front[k] == s[k]);
            }
        }
    }
}

/// Blanks, tabs and line breaks of all kinds are white space; letters, digits, signs
/// and all other characters are not.
pub proof fn blanks_are_white_space(c: char)
    ensures
        white(' ') && white('\t') && white('\n') && white('\r') && white('\u{b}') && white('\u{c}'),
        white('\u{85}') && white('\u{a0}') && white('\u{1680}') && white('\u{2028}') && white(
            '\u{2029}',
        ) && white('\u{202f}') && white('\u{205f}') && white('\u{3000}'),
        '\u{2000}' <= c <= '\u{200a}' ==> white(c),
        c <= '\u{8}' || '\u{e}' <= c <= '\u{1f}' || '!' <= c <= '\u{84}' ==> !white(c),
        '\u{86}' <= c <= '\u{9f}' || '\u{a1}' <= c <= '\u{167f}' || '\u{1681}' <= c <= '\u{1fff}'
            ==> !white(c),
        '\u{200b}' <= c <= '\u{2027}' || '\u{202a}' <= c <= '\u{202e}' || '\u{2030}' <= c
            <= '\u{205e}' || '\u{2060}' <= c <= '\u{2fff}' || c >= '\u{3001}' ==> !white(c),
        digit(c) <==> '0' <= c <= '9',
{
}

/// Lower case changes the capital letters of ASCII, each to its own small letter,
/// and no other character.
pub proof fn capitals_are_lowered(c: char)
    ensures
        'A' <= c <= 'Z' ==> 'a' <= ascii_lower(c) <= 'z' && ascii_lower(c) as u32 - 'a' as u32 == c
            as u32 - 'A' as u32,
        !('A' <= c <= 'Z') ==> ascii_lower(c) == c,
{
}

/// White space behind a text makes no difference to what trimming leaves of it.
pub proof fn lemma_trim_white_behind(s: Seq<char>, w: Seq<char>)
    requires
        forall|i: int| 0 <= i < w.len() ==> white(#[trigger] w[i]),
    ensures
        trim(s + w) == trim(s),
    decreases s.len(),
{
    lemma_trim_white(w);
    if s.len() == 0 {
        assert(s + w == w);
        assert(trim_start(w) == Seq::<char>::empty());
        assert(s == Seq::<char>::empty());
    } else if white(s[0]) {
        assert((s + w).skip(1) == s.skip(1) + w);
        lemma_trim_white_behind(s.skip(1), w);
    } else {
        lemma_trim_end_behind(s, w);
    }
}

}
