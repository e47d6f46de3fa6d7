//! Taking text apart and putting it together.

use crate::text::{chars_of, is_white, text_between, white};
use vstd::prelude::*;
use vstd::string::*;

verus! {

/// The texts of some strings.
pub open spec fn texts(v: Seq<String>) -> Seq<Seq<char>> {
    v.map_values(|s: String| s@)
}

/// The text of an optional string.
pub open spec fn opt_text(o: Option<String>) -> Option<Seq<char>> {
    match o {
        Some(s) => Some(s@),
        None => None,
    }
}

/// A copy of an optional string.
pub fn copy_opt(o: &Option<String>) -> (r: Option<String>)
    ensures
        opt_text(r) == opt_text(*o),
{
    match o {
        Some(s) => Some(s.clone()),
        None => None,
    }
}

/// A copy of a list of strings.
pub fn copy_all(v: &Vec<String>) -> (r: Vec<String>)
    ensures
        texts(r@) == texts(v@),
{
    let mut r: Vec<String> = Vec::new();
    let mut i: usize = 0;
    while i < v.len()
        invariant
            i <= v@.len(),
            texts(r@) == texts(v@).take(i as int),
        decreases v@.len() - i,
    {
        r.push(v[i].clone());
        assert(texts(r@) == texts(v@).take(i as int).push(v@[i as int]@));
        i += 1;
    }
    r
}

/// Two pieces of text, one after the other.
pub fn cat(a: &str, b: &str) -> (r: String)
    ensures
        r@ == a@ + b@,
{
    let mut r = a.to_string();
    r.append(b);
    r
}

/// Three pieces of text, one after the other.
pub fn cat3(a: &str, b: &str, c: &str) -> (r: String)
    ensures
        r@ == a@ + b@ + c@,
{
    let mut r = cat(a, b);
    r.append(c);
    r
}

/// Four pieces of text, one after the other.
pub fn cat4(a: &str, b: &str, c: &str, d: &str) -> (r: String)
    ensures
        r@ == a@ + b@ + c@ + d@,
{
    let mut r = cat3(a, b, c);
    r.append(d);
    r
}

/// Five pieces of text, one after the other.
pub fn cat5(a: &str, b: &str, c: &str, d: &str, e: &str) -> (r: String)
    ensures
        r@ == a@ + b@ + c@ + d@ + e@,
{
    let mut r = cat4(a, b, c, d);
    r.append(e);
    r
}

/// Whether a list holds a text.
pub fn lists(v: &Vec<String>, s: &str) -> (r: bool)
    ensures
        r == texts(v@).contains(s@),
{
    let mut i: usize = 0;
    while i < v.len()
        invariant
            i <= v@.len(),
            forall|j: int| 0 <= j < i ==> #[trigger] texts(v@)[j] != s@,
        decreases v@.len() - i,
    {
        if same(v[i].as_str(), s) {
            proof {
                assert(texts(v@)[i as int] == s@);
            }
            return true;
        }
        i += 1;
    }
    false
}

/// Whether an optional text is a given one.
pub fn is_text(o: &Option<String>, s: &str) -> (r: bool)
    ensures
        r == (opt_text(*o) == Some(s@)),
{
    match o {
        Some(t) => same(t.as_str(), s),
        None => false,
    }
}

/// Whether two texts are the same.
pub fn same(a: &str, b: &str) -> (r: bool)
    ensures
        r == (a@ == b@),
{
    a.eq(b)
}

// ---------------------------------------------------------------------------
// The first of a character
// ---------------------------------------------------------------------------

/// Where a character first stands in a text; the text's length if nowhere.
pub open spec fn first_pos(s: Seq<char>, c: char) -> int
    decreases s.len(),
{
    if s.len() == 0 || s[0] == c {
        0
    } else {
        1 + first_pos(s.skip(1), c)
    }
}

/// `first_pos` is the one position that has the character, or the end, and
/// nothing but other characters before it.
pub proof fn lemma_first_pos(s: Seq<char>, c: char, i: int)
    requires
        0 <= i <= s.len(),
        forall|j: int| 0 <= j < i ==> #[trigger] s[j] != c,
        i < s.len() ==> s[i] == c,
    ensures
        first_pos(s, c) == i,
    decreases i,
{
    if i > 0 {
        assert(s[0] != c);
        let t = s.skip(1);
        assert forall|j: int| 0 <= j < i - 1 implies #[trigger] t[j] != c by {
            assert(t[j] == s[j + 1]);
        }
        lemma_first_pos(t, c, i - 1);
    }
}

/// `first_pos` lies within the text, or at its end.
pub proof fn lemma_first_pos_bounds(s: Seq<char>, c: char)
    ensures
        0 <= first_pos(s, c) <= s.len(),
    decreases s.len(),
{
    if s.len() > 0 && s[0] != c {
        lemma_first_pos_bounds(s.skip(1), c);
    }
}

/// What stands before a text and lacks the character only shifts its place.
pub proof fn lemma_first_pos_behind(a: Seq<char>, s: Seq<char>, c: char)
    requires
        forall|j: int| 0 <= j < a.len() ==> #[trigger] a[j] != c,
    ensures
        first_pos(a + s, c) == a.len() + first_pos(s, c),
    decreases a.len(),
{
    if a.len() == 0 {
        assert(a + s == s);
    } else {
        let b = a.skip(1);
        assert((a + s).skip(1) == b + s);
        assert forall|j: int| 0 <= j < b.len() implies #[trigger] b[j] != c by {
            assert(b[j] == a[j + 1]);
        }
        lemma_first_pos_behind(b, s, c);
    }
}

/// What stands before the first `c`, and what follows it if there is one.
pub open spec fn cut(s: Seq<char>, c: char) -> (Seq<char>, Option<Seq<char>>) {
    let i = first_pos(s, c);
    (
        s.take(i),
        if i < s.len() {
            Some(s.skip(i + 1))
        } else {
            None
        },
    )
}

/// Where a character first stands in a text, as an index into its characters.
pub fn position(cs: &Vec<char>, c: char) -> (r: usize)
    ensures
        r == first_pos(cs@, c),
        r <= cs@.len(),
{
    let mut i: usize = 0;
    while i < cs.len() && cs[i] != c
        invariant
            i <= cs@.len(),
            forall|j: int| 0 <= j < i ==> #[trigger] cs@[j] != c,
        decreases cs@.len() - i,
    {
        i += 1;
    }
    proof {
        lemma_first_pos(cs@, c, i as int);
    }
    i
}

/// Cuts a text in two at the first `c`, which neither part keeps.
pub fn cut_at(s: &str, c: char) -> (r: (String, Option<String>))
    ensures
        (r.0@, opt_text(r.1)) == cut(s@, c),
{
    let cs = chars_of(s);
    let i: usize = position(&cs, c);
    let head = text_between(&cs, 0, i);
    if i < cs.len() {
        let tail = text_between(&cs, i + 1, cs.len());
        (head, Some(tail))
    } else {
        (head, None)
    }
}

// ---------------------------------------------------------------------------
// Prefixes
// ---------------------------------------------------------------------------

/// What follows a prefix, if the text begins with it.
pub open spec fn after_prefix(s: Seq<char>, prefix: Seq<char>) -> Option<Seq<char>> {
    if prefix.is_prefix_of(s) {
        Some(s.skip(prefix.len() as int))
    } else {
        None
    }
}

/// Whether `pat` stands at position `at` of a text.
pub fn stands_at(cs: &Vec<char>, at: usize, pat: &Vec<char>) -> (r: bool)
    requires
        at <= cs@.len(),
    ensures
        r == pat@.is_prefix_of(cs@.skip(at as int)),
{
    let n: usize = cs.len();
    if pat.len() > n - at {
        return false;
    }
    let mut i: usize = 0;
    while i < pat.len()
        invariant
            i <= pat@.len(),
            at + pat@.len() <= n == cs@.len(),
            forall|j: int| 0 <= j < i ==> #[trigger] pat@[j] == cs@[at + j],
        decreases pat@.len() - i,
    {
        if pat[i] != cs[at + i] {
            proof {
                assert(cs@.skip(at as int)[i as int] == cs@[at + i]);
                assert(cs@.skip(at as int).subrange(0, pat@.len() as int)[i as int] != pat@[i as int]);
            }
            return false;
        }
        i += 1;
    }
    proof {
        assert(cs@.skip(at as int).subrange(0, pat@.len() as int) == pat@);
    }
    true
}

/// Takes a prefix off a text that begins with it.
pub fn strip_prefix(s: &str, prefix: &str) -> (r: Option<String>)
    ensures
        opt_text(r) == after_prefix(s@, prefix@),
{
    let cs = chars_of(s);
    let ps = chars_of(prefix);
    proof {
        assert(s@.skip(0) == s@);
    }
    if stands_at(&cs, 0, &ps) {
        Some(text_between(&cs, ps.len(), cs.len()))
    } else {
        None
    }
}

// ---------------------------------------------------------------------------
// Removing a pattern
// ---------------------------------------------------------------------------

/// The text with every occurrence of `pat` cut out, from left to right.
pub open spec fn without(s: Seq<char>, pat: Seq<char>) -> Seq<char>
    decreases s.len(),
{
    if s.len() == 0 {
        Seq::empty()
    } else if pat.len() > 0 && pat.is_prefix_of(s) {
        without(s.skip(pat.len() as int), pat)
    } else {
        seq![s[0]] + without(s.skip(1), pat)
    }
}

/// Cuts every occurrence of a non-empty `pat` out of a text.
pub fn remove_all(s: &str, pat: &str) -> (r: String)
    requires
        pat@.len() > 0,
    ensures
        r@ == without(s@, pat@),
{
    let cs = chars_of(s);
    let ps = chars_of(pat);
    let mut r = String::new();
    let mut i: usize = 0;
    proof {
        assert(cs@.skip(0) == cs@);
    }
    while i < cs.len()
        invariant
            i <= cs@.len(),
            ps@.len() > 0,
            r@ + without(cs@.skip(i as int), ps@) == without(cs@, ps@),
        decreases cs@.len() - i,
    {
        let ghost rest = cs@.skip(i as int);
        let ghost before = r@;
        if stands_at(&cs, i, &ps) {
            proof {
                assert(rest.skip(ps@.len() as int) == cs@.skip(i + ps@.len()));
            }
            i += ps.len();
        } else {
            r.push(cs[i]);
            proof {
                assert(rest.skip(1) == cs@.skip(i + 1));
                assert(rest[0] == cs@[i as int]);
                assert(before + (seq![rest[0]] + without(rest.skip(1), ps@)) == r@ + without(
                    rest.skip(1),
                    ps@,
                ));
            }
            i += 1;
        }
    }
    proof {
        assert(r@ + without(cs@.skip(i as int), ps@) == r@);
    }
    r
}

// ---------------------------------------------------------------------------
// Joining
// ---------------------------------------------------------------------------

/// Pieces of text with a separator between each two.
pub open spec fn joined(parts: Seq<Seq<char>>, sep: Seq<char>) -> Seq<char>
    decreases parts.len(),
{
    if parts.len() == 0 {
        Seq::empty()
    } else if parts.len() == 1 {
        parts[0]
    } else {
        joined(parts.drop_last(), sep) + sep + parts.last()
    }
}

/// Joins pieces of text, with a separator between each two.
pub fn join(parts: &Vec<String>, sep: &str) -> (r: String)
    ensures
        r@ == joined(texts(parts@), sep@),
{
    let mut r = String::new();
    let mut i: usize = 0;
    while i < parts.len()
        invariant
            i <= parts@.len(),
            r@ == joined(texts(parts@).take(i as int), sep@),
        decreases parts@.len() - i,
    {
        let ghost so_far = texts(parts@).take(i + 1);
        proof {
            assert(so_far.drop_last() == texts(parts@).take(i as int));
            assert(so_far.last() == parts@[i as int]@);
        }
        if i > 0 {
            r.append(sep);
        }
        r.append(parts[i].as_str());
        proof {
            if i == 0 {
                assert(r@ == so_far[0]);
            }
        }
        i += 1;
    }
    proof {
        assert(texts(parts@).take(parts@.len() as int) == texts(parts@));
    }
    r
}

/// One more piece without a separator is appended to the text.
pub proof fn lemma_joined_push(parts: Seq<Seq<char>>, part: Seq<char>)
    ensures
        joined(parts.push(part), Seq::empty()) == joined(parts, Seq::empty()) + part,
{
    let all = parts.push(part);
    assert(all.drop_last() == parts);
    let sum = joined(parts, Seq::empty());
    if parts.len() == 0 {
        assert(sum + part == part);
    } else {
        assert(sum + Seq::<char>::empty() + part == sum + part);
    }
}

// ---------------------------------------------------------------------------
// Subsequences
// ---------------------------------------------------------------------------

/// Whether a text is left of another when some of its characters are struck out.
pub open spec fn is_subsequence(a: Seq<char>, b: Seq<char>) -> bool
    decreases b.len(),
{
    a.len() == 0 || (b.len() > 0 && ((a[0] == b[0] && is_subsequence(a.skip(1), b.skip(1)))
        || is_subsequence(a, b.skip(1))))
}

/// Striking out twice is striking out.
pub proof fn lemma_subsequence_transitive(a: Seq<char>, b: Seq<char>, c: Seq<char>)
    requires
        is_subsequence(a, b),
        is_subsequence(b, c),
    ensures
        is_subsequence(a, c),
    decreases c.len(),
{
    if a.len() > 0 {
        let (b1, c1) = (b.skip(1), c.skip(1));
        if b[0] == c[0] && is_subsequence(b1, c1) {
            if a[0] == b[0] && is_subsequence(a.skip(1), b1) {
                lemma_subsequence_transitive(a.skip(1), b1, c1);
            } else {
                lemma_subsequence_transitive(a, b1, c1);
            }
        } else {
            lemma_subsequence_transitive(a, b, c1);
        }
    }
}

/// An end of a text is left of it when its beginning is struck out.
pub proof fn lemma_subsequence_skip(s: Seq<char>, i: int)
    requires
        0 <= i <= s.len(),
    ensures
        is_subsequence(s.skip(i), s),
    decreases s.len(),
{
    if i < s.len() {
        let rest = s.skip(1);
        if i == 0 {
            assert(s.skip(0) == s);
            assert(rest.skip(0) == rest);
            lemma_subsequence_skip(rest, 0);
        } else {
            assert(rest.skip(i - 1) == s.skip(i));
            lemma_subsequence_skip(rest, i - 1);
        }
    }
}

/// A beginning of a text is left of it when its end is struck out.
pub proof fn lemma_subsequence_take(s: Seq<char>, i: int)
    requires
        0 <= i <= s.len(),
    ensures
        is_subsequence(s.take(i), s),
    decreases s.len(),
{
    if i > 0 {
        assert(s.take(i).skip(1) == s.skip(1).take(i - 1));
        lemma_subsequence_take(s.skip(1), i - 1);
    }
}

// ---------------------------------------------------------------------------
// Words
// ---------------------------------------------------------------------------

/// How many characters stand before the first white one.
pub open spec fn word_len(s: Seq<char>) -> int
    decreases s.len(),
{
    if s.len() == 0 || white(s[0]) {
        0
    } else {
        1 + word_len(s.skip(1))
    }
}

/// The words of a text: its longest runs of characters that are not white.
pub open spec fn words(s: Seq<char>) -> Seq<Seq<char>>
    decreases s.len(),
{
    if s.len() == 0 {
        Seq::empty()
    } else if white(s[0]) {
        words(s.skip(1))
    } else if word_len(s) <= 0 || word_len(s) > s.len() {
        Seq::empty()
    } else {
        seq![s.take(word_len(s))] + words(s.skip(word_len(s)))
    }
}

/// A word is part of its text.
pub proof fn lemma_word_len_bounds(s: Seq<char>)
    ensures
        0 <= word_len(s) <= s.len(),
    decreases s.len(),
{
    if s.len() > 0 {
        lemma_word_len_bounds(s.skip(1));
    }
}

/// `word_len` is how far the text goes without white space.
pub proof fn lemma_word_len(s: Seq<char>, n: int)
    requires
        0 <= n <= s.len(),
        forall|j: int| 0 <= j < n ==> !white(#[trigger] s[j]),
        n < s.len() ==> white(s[n]),
    ensures
        word_len(s) == n,
    decreases n,
{
    if n > 0 {
        assert(!white(s[0]));
        let t = s.skip(1);
        assert forall|j: int| 0 <= j < n - 1 implies !white(#[trigger] t[j]) by {
            assert(t[j] == s[j + 1]);
        }
        lemma_word_len(t, n - 1);
    }
}

/// The words of a text, in order.
pub fn split_words(s: &str) -> (r: Vec<String>)
    ensures
        texts(r@) == words(s@),
{
    let cs = chars_of(s);
    let mut r: Vec<String> = Vec::new();
    let mut i: usize = 0;
    proof {
        assert(cs@.skip(0) == cs@);
    }
    while i < cs.len()
        invariant
            i <= cs@.len(),
            texts(r@) + words(cs@.skip(i as int)) == words(cs@),
        decreases cs@.len() - i,
    {
        let ghost rest = cs@.skip(i as int);
        if is_white(cs[i]) {
            proof {
                assert(rest.skip(1) == cs@.skip(i + 1));
            }
            i += 1;
        } else {
            let mut end: usize = i + 1;
            while end < cs.len() && !is_white(cs[end])
                invariant
                    i < end <= cs@.len(),
                    forall|j: int| i <= j < end ==> !white(#[trigger] cs@[j]),
                decreases cs@.len() - end,
            {
                end += 1;
            }
            let ghost before = texts(r@);
            let word = text_between(&cs, i, end);
            proof {
                lemma_word_len(rest, end - i);
                assert(rest.take(end - i) == word@);
                assert(rest.skip(end - i) == cs@.skip(end as int));
            }
            r.push(word);
            proof {
                assert(texts(r@) == before.push(word@));
                assert(before + (seq![word@] + words(cs@.skip(end as int))) == texts(r@) + words(
                    cs@.skip(end as int),
                ));
            }
            i = end;
        }
    }
    proof {
        assert(texts(r@) + words(cs@.skip(i as int)) == texts(r@));
    }
    r
}

// ---------------------------------------------------------------------------
// Pieces of bounded length
// ---------------------------------------------------------------------------

/// A text in pieces of `n` characters, the last of which may be shorter.
pub open spec fn pieces(s: Seq<char>, n: nat) -> Seq<Seq<char>>
    decreases s.len(),
{
    if s.len() == 0 || n == 0 {
        Seq::empty()
    } else if s.len() <= n {
        seq![s]
    } else {
        seq![s.take(n as int)] + pieces(s.skip(n as int), n)
    }
}

/// Splits a text into pieces of `n` characters.
pub fn split_pieces(s: &str, n: usize) -> (r: Vec<String>)
    requires
        n > 0,
    ensures
        texts(r@) == pieces(s@, n as nat),
{
    let cs = chars_of(s);
    let mut r: Vec<String> = Vec::new();
    let mut i: usize = 0;
    proof {
        assert(cs@.skip(0) == cs@);
    }
    while i < cs.len()
        invariant
            i <= cs@.len(),
            n > 0,
            texts(r@) + pieces(cs@.skip(i as int), n as nat) == pieces(cs@, n as nat),
        decreases cs@.len() - i,
    {
        let ghost rest = cs@.skip(i as int);
        let ghost before = texts(r@);
        let end: usize = if cs.len() - i <= n {
            cs.len()
        } else {
            i + n
        };
        let piece = text_between(&cs, i, end);
        r.push(piece);
        proof {
            assert(texts(r@) == before.push(piece@));
            if rest.len() <= n {
                assert(rest == piece@);
                assert(pieces(cs@.skip(end as int), n as nat) == Seq::<Seq<char>>::empty());
                assert(before + seq![rest] == texts(r@) + pieces(cs@.skip(end as int), n as nat));
            } else {
                assert(rest.take(n as int) == piece@);
                assert(rest.skip(n as int) == cs@.skip(end as int));
                assert(before + (seq![piece@] + pieces(cs@.skip(end as int), n as nat)) == texts(r@)
                    + pieces(cs@.skip(end as int), n as nat));
            }
        }
        i = end;
    }
    proof {
        assert(texts(r@) + pieces(cs@.skip(i as int), n as nat) == texts(r@));
    }
    r
}

/// The pieces of a text put together again are the text, none of them is empty
/// or longer than asked for, and there are as few as can be.
pub proof fn pieces_make_up_the_text(s: Seq<char>, n: nat)
    requires
        n > 0,
    ensures
        joined(pieces(s, n), Seq::empty()) == s,
        forall|i: int|
            0 <= i < pieces(s, n).len() ==> 0 < (#[trigger] pieces(s, n)[i]).len() <= n,
        pieces(s, n).len() == (s.len() + n - 1) / (n as int),
    decreases s.len(),
{
    if s.len() == 0 {
        assert((n - 1) / (n as int) == 0) by (nonlinear_arith)
            requires
                n > 0,
        ;
    } else if s.len() <= n {
        assert((s.len() + n - 1) / (n as int) == 1) by (nonlinear_arith)
            requires
                0 < s.len() <= n,
        ;
    } else {
        let t = s.skip(n as int);
        pieces_make_up_the_text(t, n);
        assert((s.len() + n - 1) / (n as int) == 1 + (t.len() + n - 1) / (n as int))
            by (nonlinear_arith)
            requires
                s.len() == t.len() + n,
                n > 0,
        ;
        lemma_joined_front(s.take(n as int), pieces(t, n), Seq::empty());
        assert(s.take(n as int) + t == s);
        if pieces(t, n).len() == 0 {
            assert(t.len() == 0);
        }
    }
}

/// Joining with one more piece in front.
pub proof fn lemma_joined_front(first: Seq<char>, rest: Seq<Seq<char>>, sep: Seq<char>)
    ensures
        joined(seq![first] + rest, sep) == if rest.len() == 0 {
            first
        } else {
            first + sep + joined(rest, sep)
        },
    decreases rest.len(),
{
    let all = seq![first] + rest;
    if rest.len() == 1 {
        assert(all.drop_last() == seq![first]);
        assert(joined(all.drop_last(), sep) == first);
    } else if rest.len() > 1 {
        lemma_joined_front(first, rest.drop_last(), sep);
        assert(all.drop_last() == seq![first] + rest.drop_last());
        assert(first + sep + joined(rest.drop_last(), sep) + sep + rest.last() == first + sep + (
        joined(rest.drop_last(), sep) + sep + rest.last()));
    }
}

// ---------------------------------------------------------------------------
// Shortening
// ---------------------------------------------------------------------------

/// A text of at most `max` characters: a longer one loses its end to an
/// ellipsis.
pub open spec fn clipped(s: Seq<char>, max: int) -> Seq<char> {
    if s.len() > max {
        s.take(max - 3) + "..."@
    } else {
        s
    }
}

/// Shortens a text to `max` characters, an ellipsis in place of what is lost.
pub fn clip(s: &str, max: usize) -> (r: String)
    requires
        max >= 3,
    ensures
        r@ == clipped(s@, max as int),
{
    let cs = chars_of(s);
    if cs.len() > max {
        let head = text_between(&cs, 0, max - 3);
        cat(head.as_str(), "...")
    } else {
        s.to_string()
    }
}

/// A clipped text is never longer than the limit, and a text within the limit
/// is left as it is.
pub proof fn clipped_is_within_limit(s: Seq<char>, max: int)
    requires
        max >= 3,
    ensures
        clipped(s, max).len() <= max,
        s.len() <= max ==> clipped(s, max) == s,
        s.len() > max ==> clipped(s, max).take(max - 3) == s.take(max - 3),
{
    reveal_strlit("...");
    if s.len() > max {
        assert(clipped(s, max).take(max - 3) == s.take(max - 3));
    }
}

/// A text is cut at the first of a character: what stands before it, which lacks
/// the character, and all that follows it. One that lacks it is not cut.
pub proof fn texts_are_cut_at_the_first(head: Seq<char>, c: char, tail: Seq<char>)
    requires
        !head.contains(c),
    ensures
        cut(head + seq![c] + tail, c) == (head, Some(tail)),
        cut(head, c) == (head, None::<Seq<char>>),
{
    let s = head + seq![c] + tail;
    assert forall|j: int| 0 <= j < head.len() implies #[trigger] s[j] != c && head[j] != c by {
        assert(head.contains(head[j]));
        assert(s[j] == head[j]);
    }
    lemma_first_pos(s, c, head.len() as int);
    lemma_first_pos(head, c, head.len() as int);
    assert(s.take(head.len() as int) == head);
    assert(s.skip(head.len() as int + 1) == tail);
    assert(head.take(head.len() as int) == head);
}

/// Pieces are joined in their order, with the separator between each two and
/// nowhere else.
pub proof fn separators_stand_between(parts: Seq<Seq<char>>, part: Seq<char>, sep: Seq<char>)
    ensures
        joined(Seq::empty(), sep) == Seq::<char>::empty(),
        joined(seq![part], sep) == part,
        parts.len() > 0 ==> joined(parts.push(part), sep) == joined(parts, sep) + sep + part,
{
    assert(parts.push(part).drop_last() == parts);
}

/// Words are what white space parts: a word at the head of a text is its first,
/// and white space before it makes no difference.
pub proof fn white_space_parts_words(word: Seq<char>, blank: char, rest: Seq<char>)
    requires
        word.len() > 0,
        forall|i: int| 0 <= i < word.len() ==> !white(#[trigger] word[i]),
        white(blank),
    ensures
        words(seq![blank] + rest) == words(rest),
        words(word + (seq![blank] + rest)) == seq![word] + words(rest),
        words(word) == seq![word],
        words(Seq::empty()).len() == 0,
{
    let behind = seq![blank] + rest;
    assert(behind.skip(1) == rest);
    let s = word + behind;
    assert forall|j: int| 0 <= j < word.len() implies !white(#[trigger] s[j]) by {
        assert(s[j] == word[j]);
    }
    lemma_word_len(s, word.len() as int);
    assert(s.take(word.len() as int) == word);
    assert(s.skip(word.len() as int) == behind);
    lemma_word_len(word, word.len() as int);
    assert(word.take(word.len() as int) == word);
    assert(word.skip(word.len() as int) == Seq::<char>::empty());
    assert(words(Seq::<char>::empty()) == Seq::<Seq<char>>::empty());
    assert(seq![word] + Seq::<Seq<char>>::empty() == seq![word]);
}

/// What follows a prefix is the rest of the text; a text that does not begin with
/// the prefix has no such rest.
pub proof fn prefixes_are_taken_off(prefix: Seq<char>, rest: Seq<char>, s: Seq<char>)
    ensures
        after_prefix(prefix + rest, prefix) == Some(rest),
        after_prefix(s, prefix) matches Some(r) ==> s == prefix + r,
{
    let all = prefix + rest;
    assert(all.subrange(0, prefix.len() as int) == prefix);
    assert(all.skip(prefix.len() as int) == rest);
    if prefix.is_prefix_of(s) {
        assert(s == s.subrange(0, prefix.len() as int) + s.skip(prefix.len() as int));
    }
}

/// What stands before the first character of a pattern stays as it is.
pub proof fn lemma_without_behind(head: Seq<char>, s: Seq<char>, pat: Seq<char>)
    requires
        pat.len() > 0,
        !head.contains(pat[0]),
    ensures
        without(head + s, pat) == head + without(s, pat),
    decreases head.len(),
{
    let all = head + s;
    if head.len() == 0 {
        assert(all == s);
        assert(head + without(s, pat) == without(s, pat));
    } else {
        assert(head.contains(head[0]));
        assert(all[0] == head[0]);
        if pat.is_prefix_of(all) {
            assert(all.subrange(0, pat.len() as int)[0] == all[0]);
        }
        let rest = head.skip(1);
        assert forall|i: int| 0 <= i < rest.len() implies #[trigger] rest[i] != pat[0] by {
            assert(head.contains(head[i + 1]));
        }
        lemma_without_behind(rest, s, pat);
        assert(all.skip(1) == rest + s);
        assert(seq![head[0]] + (rest + without(s, pat)) == head + without(s, pat));
    }
}

/// A pattern is taken out of a text wherever it stands, and what stands around it
/// stays. A text in which the pattern's first character does not occur is left as
/// it is.
pub proof fn patterns_are_taken_out(head: Seq<char>, pat: Seq<char>, tail: Seq<char>)
    requires
        pat.len() > 0,
        !head.contains(pat[0]),
    ensures
        without(head + (pat + tail), pat) == head + without(tail, pat),
        without(head, pat) == head,
{
    lemma_without_behind(head, pat + tail, pat);
    lemma_without_behind(head, Seq::empty(), pat);
    assert((pat + tail).subrange(0, pat.len() as int) == pat);
    assert((pat + tail).skip(pat.len() as int) == tail);
    assert(without(Seq::empty(), pat) == Seq::<char>::empty());
    assert(head + Seq::<char>::empty() == head);
}

/// All pieces of a text but the last are as long as they may be.
pub proof fn pieces_are_full(s: Seq<char>, n: nat, i: int)
    requires
        n > 0,
        0 <= i < pieces(s, n).len() - 1,
    ensures
        pieces(s, n)[i].len() == n,
    decreases s.len(),
{
    if s.len() > n && i > 0 {
        let t = s.skip(n as int);
        assert(pieces(s, n)[i] == pieces(t, n)[i - 1]);
        pieces_are_full(t, n, i - 1);
    }
}

/// A text that is too long ends in three dots where it was cut off, and has just
/// the length that is allowed.
pub proof fn clipped_texts_end_in_dots(s: Seq<char>, max: int)
    requires
        max >= 3,
    ensures
        s.len() > max ==> clipped(s, max) == s.take(max - 3) + seq!['.', '.', '.'],
        s.len() > max ==> clipped(s, max).len() == max,
        s.len() <= max ==> clipped(s, max) == s,
{
    reveal_strlit("...");
    assert("..."@ =~= seq!['.', '.', '.']);
}

/// Several texts are taken each by its characters, in their order.
pub proof fn texts_are_taken_in_order(v: Seq<String>, i: int)
    requires
        0 <= i < v.len(),
    ensures
        texts(v).len() == v.len(),
        texts(v)[i] == v[i]@,
{
}

/// Texts are put together in their order, and compared by all their characters.
pub proof fn texts_are_put_together(
    a: &str,
    b: &str,
    c: &str,
    d: &str,
    e: &str,
    r: String,
    v: &Vec<String>,
    o: &Option<String>,
    yes: bool,
)
    ensures
        call_ensures(cat, (a, b), r) ==> r@ == a@ + b@,
        call_ensures(cat3, (a, b, c), r) ==> r@ == a@ + b@ + c@,
        call_ensures(cat4, (a, b, c, d), r) ==> r@ == a@ + b@ + c@ + d@,
        call_ensures(cat5, (a, b, c, d, e), r) ==> r@ == a@ + b@ + c@ + d@ + e@,
        call_ensures(same, (a, b), yes) ==> (yes <==> a@ == b@),
        call_ensures(is_text, (o, a), yes) ==> (yes <==> *o is Some && (*o)->0@ == a@),
        call_ensures(lists, (v, a), yes) ==> (yes <==> exists|i: int|
            0 <= i < v@.len() && (#[trigger] v@[i])@ == a@),
{
    if call_ensures(lists, (v, a), yes) {
        if yes {
            let i = texts(v@).index_of(a@);
            assert(v@[i]@ == a@);
        }
        assert forall|i: int| 0 <= i < v@.len() && (#[trigger] v@[i])@ == a@ implies yes by {
            assert(texts(v@)[i] == a@);
        }
    }
}

/// A prefix that is taken off a text with it leaves the rest, and a text is cut at the
/// first of a character.
pub proof fn texts_are_taken_apart(
    s: &str,
    prefix: &str,
    rest: Seq<char>,
    stripped: Option<String>,
    c: char,
    head: Seq<char>,
    parts: (String, Option<String>),
)
    ensures
        call_ensures(strip_prefix, (s, prefix), stripped) && s@ == prefix@ + rest
            ==> stripped is Some && stripped->0@ == rest,
        call_ensures(strip_prefix, (s, prefix), stripped) && !prefix@.is_prefix_of(s@)
            ==> stripped is None,
        call_ensures(cut_at, (s, c), parts) && s@ == head + seq![c] + rest && !head.contains(c)
            ==> parts.0@ == head && parts.1 is Some && parts.1->0@ == rest,
        call_ensures(cut_at, (s, c), parts) && !s@.contains(c) ==> parts.0@ == s@ && parts.1 is None,
{
    prefixes_are_taken_off(prefix@, rest, s@);
    if !head.contains(c) {
        texts_are_cut_at_the_first(head, c, rest);
    }
    if !s@.contains(c) {
        texts_are_cut_at_the_first(s@, c, rest);
    }
}

/// Texts are joined with the separator between them, a text is split into its words, and
/// one that is too long is cut off behind dots.
pub proof fn texts_are_joined_and_split(
    v: &Vec<String>,
    sep: &str,
    r: String,
    s: &str,
    w: Vec<String>,
    n: usize,
    o: &Option<String>,
    copy: Option<String>,
)
    ensures
        call_ensures(join, (v, sep), r) && v@.len() == 2 ==> r@ == v@[0]@ + sep@ + v@[1]@,
        call_ensures(join, (v, sep), r) ==> r@ == joined(texts(v@), sep@),
        call_ensures(split_words, (s,), w) ==> texts(w@) == words(s@),
        call_ensures(split_pieces, (s, n), w) && n > 0 ==> joined(texts(w@), Seq::empty()) == s@,
        call_ensures(clip, (s, n), r) && n >= 3 && s@.len() > n ==> r@ == s@.take(n - 3) + seq![
            '.',
            '.',
            '.',
        ],
        call_ensures(clip, (s, n), r) && n >= 3 && s@.len() <= n ==> r@ == s@,
        call_ensures(remove_all, (s, sep), r) ==> r@ == without(s@, sep@),
        call_ensures(copy_opt, (o,), copy) ==> opt_text(copy) == opt_text(*o),
        call_ensures(copy_all, (v,), w) ==> texts(w@) == texts(v@),
{
    if v@.len() == 2 {
        let a = texts(v@);
        separators_stand_between(seq![a[0]], a[1], sep@);
        separators_stand_between(seq![a[0]], a[0], sep@);
        assert(a == seq![a[0]].push(a[1]));
    }
    if n >= 3 {
        clipped_texts_end_in_dots(s@, n as int);
    }
    if n > 0 {
        pieces_make_up_the_text(s@, n as nat);
    }
}

}
