//! Text primitives: trimming, prefixes, words and numerals over `str`.
//!
//! Every function is specified on the sequence of characters of its argument.

use vstd::prelude::*;
use vstd::utf8::decode_utf8;
use vstd::utf8::is_ascii_chars;
use vstd::utf8::valid_utf8;

verus! {

/// `String::push` appends one character at the end of the string.
pub assume_specification[ String::push ](s: &mut String, c: char)
    ensures
        final(s)@ == old(s)@.push(c),
;

// ---------------------------------------------------------------------------
// Characters
// ---------------------------------------------------------------------------

/// The Unicode `White_Space` property.
pub open spec fn is_space(c: char) -> bool {
    let n = c as u32;
    ||| 0x9 <= n <= 0xd
    ||| n == 0x20
    ||| n == 0x85
    ||| n == 0xa0
    ||| n == 0x1680
    ||| 0x2000 <= n <= 0x200a
    ||| n == 0x2028
    ||| n == 0x2029
    ||| n == 0x202f
    ||| n == 0x205f
    ||| n == 0x3000
}

/// Tells whether `c` is white space.
pub fn char_is_space(c: char) -> (r: bool)
    ensures
        r == is_space(c),
{
    let n: u32 = c as u32;
    (0x9 <= n && n <= 0xd) || n == 0x20 || n == 0x85 || n == 0xa0 || n == 0x1680 || (0x2000 <= n
        && n <= 0x200a) || n == 0x2028 || n == 0x2029 || n == 0x202f || n == 0x205f || n == 0x3000
}

/// The characters of `s`, in order.
pub fn chars_of(s: &str) -> (r: Vec<char>)
    ensures
        r@ == s@,
{
    let mut out: Vec<char> = Vec::new();
    for c in it: s.chars()
        invariant
            out@ == it.seq().take(it.index() as int),
            it.seq() == s@,
    {
        out.push(c);
    }
    out
}

/// The text whose characters are `chars[from..to]`.
pub fn text_of(chars: &Vec<char>, from: usize, to: usize) -> (r: String)
    requires
        from <= to <= chars@.len(),
    ensures
        r@ == chars@.subrange(from as int, to as int),
{
    let mut out = String::new();
    let mut i: usize = from;
    while i < to
        invariant
            from <= i <= to <= chars@.len(),
            out@ == chars@.subrange(from as int, i as int),
        decreases to - i,
    {
        out.push(chars[i]);
        i += 1;
        assert(out@ =~= chars@.subrange(from as int, i as int));
    }
    out
}

// ---------------------------------------------------------------------------
// Comparison, prefixes and suffixes
// ---------------------------------------------------------------------------

/// `s` begins with `p`.
pub open spec fn has_prefix(s: Seq<char>, p: Seq<char>) -> bool {
    p.len() <= s.len() && s.take(p.len() as int) == p
}

/// `s` ends with `p`.
pub open spec fn has_suffix(s: Seq<char>, p: Seq<char>) -> bool {
    p.len() <= s.len() && s.skip(s.len() - p.len()) == p
}

/// `chars[at..]` begins with `p`, for `at` within `chars`.
fn matches_at(chars: &Vec<char>, at: usize, p: &Vec<char>) -> (r: bool)
    requires
        at <= chars@.len(),
    ensures
        r == has_prefix(chars@.skip(at as int), p@),
{
    let n = chars.len();
    if p.len() > n - at {
        return false;
    }
    let ghost rest = chars@.skip(at as int);
    let mut i: usize = 0;
    while i < p.len()
        invariant
            i <= p@.len() <= n - at,
            at <= n == chars@.len(),
            rest == chars@.skip(at as int),
            rest.take(i as int) == p@.take(i as int),
        decreases p@.len() - i,
    {
        if chars[at + i] != p[i] {
            assert(rest.take(p@.len() as int)[i as int] != p@[i as int]);
            return false;
        }
        i += 1;
        assert(rest.take(i as int) =~= p@.take(i as int));
    }
    assert(p@.take(p@.len() as int) =~= p@);
    true
}

/// Tells whether two texts are the same.
pub fn same_text(a: &str, b: &str) -> (r: bool)
    ensures
        r == (a@ == b@),
{
    let x = chars_of(a);
    let y = chars_of(b);
    if x.len() != y.len() {
        return false;
    }
    let r = matches_at(&x, 0, &y);
    assert(x@.skip(0) =~= x@);
    assert(x@.take(y@.len() as int) =~= x@);
    r
}

/// Tells whether `s` begins with `p`.
pub fn starts_with(s: &str, p: &str) -> (r: bool)
    ensures
        r == has_prefix(s@, p@),
{
    let chars = chars_of(s);
    assert(chars@.skip(0) =~= chars@);
    matches_at(&chars, 0, &chars_of(p))
}

/// Tells whether `s` ends with `p`.
pub fn ends_with(s: &str, p: &str) -> (r: bool)
    ensures
        r == has_suffix(s@, p@),
{
    let chars = chars_of(s);
    let suffix = chars_of(p);
    if suffix.len() > chars.len() {
        return false;
    }
    let at: usize = chars.len() - suffix.len();
    assert(chars@.skip(at as int).take(suffix@.len() as int) =~= chars@.skip(at as int));
    matches_at(&chars, at, &suffix)
}

/// What follows `p` in a text that begins with it.
pub open spec fn after_prefix(s: Seq<char>, p: Seq<char>) -> Option<Seq<char>> {
    if has_prefix(s, p) {
        Some(s.skip(p.len() as int))
    } else {
        None
    }
}

/// What follows `p` in `s`, where `s` begins with `p`.
pub fn strip_prefix<'a>(s: &'a str, p: &str) -> (r: Option<&'a str>)
    ensures
        match r {
            Some(rest) => after_prefix(s@, p@) == Some(rest@),
            None => after_prefix(s@, p@) is None,
        },
{
    if starts_with(s, p) {
        let from = chars_of(p).len();
        let to = s.unicode_len();
        assert(s@.subrange(from as int, to as int) =~= s@.skip(from as int));
        Some(s.substring_char(from, to))
    } else {
        None
    }
}

// ---------------------------------------------------------------------------
// Trimming and words
// ---------------------------------------------------------------------------

/// `s` without the white space at its start.
pub open spec fn trimmed_start(s: Seq<char>) -> Seq<char>
    decreases s.len(),
{
    if s.len() > 0 && is_space(s[0]) {
        trimmed_start(s.drop_first())
    } else {
        s
    }
}

/// `s` without the white space at its end.
pub open spec fn trimmed_end(s: Seq<char>) -> Seq<char>
    decreases s.len(),
{
    if s.len() > 0 && is_space(s.last()) {
        trimmed_end(s.drop_last())
    } else {
        s
    }
}

/// `s` without the white space at both ends.
pub open spec fn trimmed(s: Seq<char>) -> Seq<char> {
    trimmed_end(trimmed_start(s))
}

/// `s` without the white space at both ends.
pub fn trim<'a>(s: &'a str) -> (r: &'a str)
    ensures
        r@ == trimmed(s@),
{
    let chars = chars_of(s);
    let n = chars.len();
    let mut i: usize = 0;
    assert(s@.skip(0) =~= s@);
    while i < n && char_is_space(chars[i])
        invariant
            i <= n == chars@.len(),
            chars@ == s@,
            trimmed_start(s@) == trimmed_start(s@.skip(i as int)),
        decreases n - i,
    {
        assert(s@.skip(i as int).drop_first() =~= s@.skip(i + 1));
        i += 1;
    }
    let ghost t = s@.skip(i as int);
    assert(trimmed_start(s@) == t);
    let mut j: usize = n;
    assert(t.take(j - i) =~= t);
    while j > i && char_is_space(chars[j - 1])
        invariant
            i <= j <= n == chars@.len(),
            chars@ == s@,
            t == s@.skip(i as int),
            trimmed_end(t) == trimmed_end(t.take(j - i)),
        decreases j,
    {
        assert(t.take(j - i).drop_last() =~= t.take(j - i - 1));
        assert(t.take(j - i).last() == chars@[j - 1]);
        j -= 1;
    }
    assert(t.take(j - i) =~= s@.subrange(i as int, j as int));
    s.substring_char(i, j)
}

/// Tells whether `s` holds nothing but white space.
pub fn is_blank(s: &str) -> (r: bool)
    ensures
        r == (trimmed(s@).len() == 0),
{
    trim(s).unicode_len() == 0
}

/// The number of characters before the first white space.
pub open spec fn word_len(s: Seq<char>) -> nat
    decreases s.len(),
{
    if s.len() == 0 || is_space(s[0]) {
        0
    } else {
        1 + word_len(s.drop_first())
    }
}

pub proof fn lemma_word_len(s: Seq<char>)
    ensures
        word_len(s) <= s.len(),
        forall|i: int| 0 <= i < word_len(s) ==> !is_space(#[trigger] s[i]),
        word_len(s) < s.len() ==> is_space(s[word_len(s) as int]),
    decreases s.len(),
{
    if s.len() > 0 && !is_space(s[0]) {
        let t = s.drop_first();
        lemma_word_len(t);
        assert forall|i: int| 0 <= i < word_len(s) implies !is_space(#[trigger] s[i]) by {
            if i > 0 {
                assert(s[i] == t[i - 1]);
            }
        }
    }
}

/// The words of `s`: its maximal runs without white space.
pub open spec fn words_of(s: Seq<char>) -> Seq<Seq<char>>
    decreases s.len(),
{
    if s.len() == 0 {
        Seq::empty()
    } else if is_space(s[0]) {
        words_of(s.drop_first())
    } else {
        proof {
            lemma_word_len(s);
        }
        seq![s.take(word_len(s) as int)] + words_of(s.skip(word_len(s) as int))
    }
}

/// The contents of a list of texts.
pub open spec fn texts(v: Seq<String>) -> Seq<Seq<char>> {
    v.map_values(|s: String| s@)
}

pub proof fn lemma_texts_push(v: Seq<String>, s: String)
    ensures
        texts(v.push(s)) == texts(v).push(s@),
{
    assert(texts(v.push(s)) =~= texts(v).push(s@));
}

/// The content of an optional text.
pub open spec fn optional_text(s: Option<String>) -> Option<Seq<char>> {
    match s {
        Some(s) => Some(s@),
        None => None,
    }
}

/// Copies an optional text.
pub fn copied(s: &Option<String>) -> (r: Option<String>)
    ensures
        optional_text(r) == optional_text(*s),
{
    match s {
        Some(s) => Some(s.clone()),
        None => None,
    }
}

/// The pieces of `s` between its separators.
pub open spec fn pieces_of(s: Seq<char>, separator: char) -> Seq<Seq<char>>
    decreases s.len(),
{
    if s.len() == 0 {
        seq![Seq::empty()]
    } else {
        let before = pieces_of(s.drop_last(), separator);
        if s.last() == separator {
            before.push(Seq::empty())
        } else {
            before.drop_last().push(before.last().push(s.last()))
        }
    }
}

pub proof fn lemma_pieces_not_empty(s: Seq<char>, separator: char)
    ensures
        pieces_of(s, separator).len() > 0,
    decreases s.len(),
{
    if s.len() > 0 {
        lemma_pieces_not_empty(s.drop_last(), separator);
    }
}

/// Splits `s` at each separator.
pub fn split(s: &str, separator: char) -> (r: Vec<String>)
    ensures
        texts(r@) == pieces_of(s@, separator),
{
    let chars = chars_of(s);
    let mut out: Vec<String> = Vec::new();
    let mut piece = String::new();
    let mut i: usize = 0;
    assert(texts(out@).push(piece@) =~= pieces_of(s@.take(0), separator));
    while i < chars.len()
        invariant
            i <= chars@.len(),
            chars@ == s@,
            texts(out@).push(piece@) == pieces_of(s@.take(i as int), separator),
        decreases chars@.len() - i,
    {
        let c = chars[i];
        let ghost before = texts(out@).push(piece@);
        proof {
            assert(s@.take(i + 1).drop_last() =~= s@.take(i as int));
            assert(before.drop_last() =~= texts(out@));
        }
        if c == separator {
            proof {
                lemma_texts_push(out@, piece);
            }
            out.push(piece);
            piece = String::new();
            assert(texts(out@).push(piece@) =~= before.push(Seq::empty()));
        } else {
            piece.push(c);
        }
        i += 1;
    }
    assert(s@.take(i as int) =~= s@);
    proof {
        lemma_texts_push(out@, piece);
    }
    out.push(piece);
    out
}

/// Adds `s` to a list of texts.
pub fn push_text(list: &mut Vec<String>, s: &str)
    ensures
        texts(final(list)@) == texts(old(list)@).push(s@),
{
    let owned = String::from_str(s);
    proof {
        lemma_texts_push(list@, owned);
    }
    list.push(owned);
}

/// Splits `s` at white space.
pub fn words(s: &str) -> (r: Vec<String>)
    ensures
        texts(r@) == words_of(s@),
{
    let chars = chars_of(s);
    let n = chars.len();
    let mut out: Vec<String> = Vec::new();
    let mut i: usize = 0;
    assert(s@.skip(0) =~= s@);
    assert(texts(out@) + words_of(s@) =~= words_of(s@));
    while i < n
        invariant
            i <= n == chars@.len(),
            chars@ == s@,
            words_of(s@) == texts(out@) + words_of(s@.skip(i as int)),
        decreases n - i,
    {
        let ghost rest = s@.skip(i as int);
        if char_is_space(chars[i]) {
            assert(rest.drop_first() =~= s@.skip(i + 1));
            i += 1;
        } else {
            let mut j: usize = i;
            assert(rest =~= s@.skip(j as int));
            while j < n && !char_is_space(chars[j])
                invariant
                    i <= j <= n == chars@.len(),
                    chars@ == s@,
                    rest == s@.skip(i as int),
                    word_len(rest) == (j - i) + word_len(s@.skip(j as int)),
                decreases n - j,
            {
                assert(s@.skip(j as int).drop_first() =~= s@.skip(j + 1));
                j += 1;
            }
            proof {
                lemma_word_len(rest);
            }
            let word = text_of(&chars, i, j);
            assert(word@ =~= rest.take(j - i));
            assert(rest.skip(j - i) =~= s@.skip(j as int));
            proof {
                lemma_texts_push(out@, word);
            }
            assert(texts(out@) + (seq![word@] + words_of(s@.skip(j as int))) =~= texts(out@).push(
                word@,
            ) + words_of(s@.skip(j as int)));
            out.push(word);
            i = j;
        }
    }
    assert(s@.skip(n as int).len() == 0);
    assert(texts(out@) + words_of(s@.skip(n as int)) =~= texts(out@));
    out
}

// ---------------------------------------------------------------------------
// Letter case and encodings
// ---------------------------------------------------------------------------

/// What `str::to_lowercase` makes of a text, by the Unicode tables.
pub uninterp spec fn unicode_lowercase(s: Seq<char>) -> Seq<char>;

/// `c` with an ASCII capital made small.
pub open spec fn ascii_lower(c: char) -> char {
    if 'A' <= c <= 'Z' {
        (c as u8 + 32) as char
    } else {
        c
    }
}

/// `s` in lower case.
pub open spec fn lowercase(s: Seq<char>) -> Seq<char> {
    if is_ascii_chars(s) {
        s.map_values(|c: char| ascii_lower(c))
    } else {
        unicode_lowercase(s)
    }
}

/// `str::to_lowercase`. An ASCII text has its capitals made small, letter by
/// letter; any other text becomes what the Unicode tables give, which is named
/// and not spelled out. As each character has a small form of one or more
/// characters, a text that is not empty stays so. That the small form of a text is
/// its own small form is not stated beyond ASCII.
#[verifier::external_body]
pub(crate) fn to_lowercase(s: &str) -> (r: String)
    ensures
        is_ascii_chars(s@) ==> r@ == s@.map_values(|c: char| ascii_lower(c)),
        !is_ascii_chars(s@) ==> r@ == unicode_lowercase(s@),
        s@.len() > 0 ==> r@.len() > 0,
{
    s.to_lowercase()
}

/// `str::from_utf8`. The text that the bytes encode, where they are UTF-8.
#[verifier::external_body]
pub(crate) fn utf8_text(data: &[u8]) -> (r: Option<&str>)
    ensures
        match r {
            Some(s) => valid_utf8(data@) && s@ == decode_utf8(data@),
            None => !valid_utf8(data@),
        },
{
    std::str::from_utf8(data).ok()
}

// ---------------------------------------------------------------------------
// Laws
// ---------------------------------------------------------------------------

/// `s` neither begins nor ends with white space.
pub open spec fn is_trimmed(s: Seq<char>) -> bool {
    s.len() > 0 ==> !is_space(s[0]) && !is_space(s.last())
}

pub proof fn lemma_trimmed_end_append(a: Seq<char>, b: Seq<char>)
    requires
        a.len() > 0,
        !is_space(a.last()),
    ensures
        trimmed_end(a + b) == a + trimmed_end(b),
    decreases b.len(),
{
    if b.len() == 0 {
        assert(a + b =~= a);
        assert(a + trimmed_end(b) =~= a);
    } else {
        assert((a + b).last() == b.last());
        if is_space(b.last()) {
            assert((a + b).drop_last() =~= a + b.drop_last());
            lemma_trimmed_end_append(a, b.drop_last());
        }
    }
}

pub proof fn lemma_trimmed_start_ends(s: Seq<char>)
    ensures
        trimmed_start(s).len() > 0 ==> !is_space(trimmed_start(s)[0]) && trimmed_start(s).last()
            == s.last(),
    decreases s.len(),
{
    if s.len() > 0 && is_space(s[0]) {
        lemma_trimmed_start_ends(s.drop_first());
    }
}

pub proof fn lemma_trimmed_end_ends(s: Seq<char>)
    ensures
        trimmed_end(s).len() > 0 ==> !is_space(trimmed_end(s).last()) && trimmed_end(s)[0] == s[0],
    decreases s.len(),
{
    if s.len() > 0 && is_space(s.last()) {
        lemma_trimmed_end_ends(s.drop_last());
    }
}

/// `s` holds nothing but white space.
pub open spec fn all_space(s: Seq<char>) -> bool {
    forall|i: int| 0 <= i < s.len() ==> is_space(#[trigger] s[i])
}

pub proof fn lemma_trimmed_start_of_space(a: Seq<char>, b: Seq<char>)
    requires
        all_space(a),
    ensures
        trimmed_start(a + b) == trimmed_start(b),
    decreases a.len(),
{
    if a.len() == 0 {
        assert(a + b =~= b);
    } else {
        assert((a + b)[0] == a[0]);
        assert((a + b).drop_first() =~= a.drop_first() + b);
        lemma_trimmed_start_of_space(a.drop_first(), b);
    }
}

pub proof fn lemma_trimmed_end_of_space(a: Seq<char>, b: Seq<char>)
    requires
        all_space(b),
    ensures
        trimmed_end(a + b) == trimmed_end(a),
    decreases b.len(),
{
    if b.len() == 0 {
        assert(a + b =~= a);
    } else {
        assert((a + b).last() == b.last());
        assert((a + b).drop_last() =~= a + b.drop_last());
        lemma_trimmed_end_of_space(a, b.drop_last());
    }
}

/// A text is the white space at its beginning and what is left without it.
pub proof fn lemma_trimmed_start_splits(s: Seq<char>) -> (space: Seq<char>)
    ensures
        all_space(space),
        s == space + trimmed_start(s),
    decreases s.len(),
{
    if s.len() > 0 && is_space(s[0]) {
        let rest = lemma_trimmed_start_splits(s.drop_first());
        let space = seq![s[0]] + rest;
        assert forall|i: int| 0 <= i < space.len() implies is_space(#[trigger] space[i]) by {
            if i > 0 {
                assert(space[i] == rest[i - 1]);
            }
        }
        assert(s =~= seq![s[0]] + s.drop_first());
        assert(s =~= space + trimmed_start(s));
        space
    } else {
        assert(s =~= Seq::empty() + s);
        Seq::empty()
    }
}

/// A text is what is left without the white space at its end, and that white space.
pub proof fn lemma_trimmed_end_splits(s: Seq<char>) -> (space: Seq<char>)
    ensures
        all_space(space),
        s == trimmed_end(s) + space,
    decreases s.len(),
{
    if s.len() > 0 && is_space(s.last()) {
        let rest = lemma_trimmed_end_splits(s.drop_last());
        let space = rest.push(s.last());
        assert(s =~= s.drop_last().push(s.last()));
        assert(s =~= trimmed_end(s) + space);
        space
    } else {
        assert(s =~= s + Seq::empty());
        Seq::empty()
    }
}

/// White space around a text is trimmed away.
pub proof fn law_padding_is_trimmed(before: Seq<char>, s: Seq<char>, after: Seq<char>)
    requires
        all_space(before),
        all_space(after),
    ensures
        trimmed(before + s + after) == trimmed(s),
{
    let t = s + after;
    assert(before + s + after =~= before + t);
    lemma_trimmed_start_of_space(before, t);
    let space = lemma_trimmed_start_splits(s);
    let core = trimmed_start(s);
    assert(t =~= space + (core + after));
    lemma_trimmed_start_of_space(space, core + after);
    lemma_trimmed_start_ends(s);
    if core.len() > 0 {
        assert((core + after)[0] == core[0]);
        assert(trimmed_start(core + after) == core + after);
        lemma_trimmed_end_of_space(core, after);
    } else {
        assert(core + after =~= after + Seq::empty());
        lemma_trimmed_start_of_space(after, Seq::empty());
    }
}

/// A trimmed text neither begins nor ends with white space, and trimming it again
/// changes nothing.
pub proof fn law_trimmed(s: Seq<char>)
    ensures
        is_trimmed(trimmed(s)),
        trimmed(trimmed(s)) == trimmed(s),
{
    lemma_trimmed_start_ends(s);
    lemma_trimmed_end_ends(trimmed_start(s));
}

/// Making small letters of an ASCII text a second time changes nothing, and keeps
/// its white space where it is.
pub proof fn law_ascii_lowercase(s: Seq<char>)
    requires
        is_ascii_chars(s),
    ensures
        is_ascii_chars(lowercase(s)),
        lowercase(lowercase(s)) == lowercase(s),
        lowercase(s).len() == s.len(),
        forall|i: int|
            0 <= i < s.len() ==> is_space(#[trigger] lowercase(s)[i]) == is_space(s[i]),
        is_trimmed(s) ==> is_trimmed(lowercase(s)),
{
    let t = lowercase(s);
    assert forall|i: int| 0 <= i < t.len() implies ascii_lower(#[trigger] t[i]) == t[i] && is_space(
        t[i],
    ) == is_space(s[i]) && t[i] <= '\u{7f}' by {
        assert(t[i] == ascii_lower(s[i]));
    }
    assert(is_ascii_chars(t));
    assert(lowercase(t) =~= t);
}

/// A text begins with another if and only if it is that one and something after it,
/// which is then what is left without it.
pub proof fn law_prefix(s: Seq<char>, p: Seq<char>, rest: Seq<char>)
    ensures
        s == p + rest ==> has_prefix(s, p) && after_prefix(s, p) == Some(rest),
        has_prefix(s, p) ==> s == p + s.skip(p.len() as int),
        has_prefix(s, p) <==> after_prefix(s, p) is Some,
{
    if s == p + rest {
        assert(s.take(p.len() as int) =~= p);
        assert(s.skip(p.len() as int) =~= rest);
    }
    if has_prefix(s, p) {
        assert(s =~= s.take(p.len() as int) + s.skip(p.len() as int));
    }
}

/// A text ends with another if and only if it is something and that one after it.
pub proof fn law_suffix(s: Seq<char>, front: Seq<char>, p: Seq<char>)
    ensures
        s == front + p ==> has_suffix(s, p),
        has_suffix(s, p) ==> s == s.take(s.len() - p.len()) + p,
{
    if s == front + p {
        assert(s.skip(s.len() - p.len()) =~= p);
    }
    if has_suffix(s, p) {
        assert(s =~= s.take(s.len() - p.len()) + s.skip(s.len() - p.len()));
    }
}

/// A text is its trimmed form with white space around it.
pub proof fn law_trimmed_within(s: Seq<char>) -> (around: (Seq<char>, Seq<char>))
    ensures
        s == around.0 + trimmed(s) + around.1,
        all_space(around.0),
        all_space(around.1),
{
    let before = lemma_trimmed_start_splits(s);
    let after = lemma_trimmed_end_splits(trimmed_start(s));
    assert(s =~= before + trimmed(s) + after);
    (before, after)
}

/// White space before a text does not change its words, a text without white space
/// is one word, and a word ends where white space begins.
pub proof fn law_words(space: char, word: Seq<char>, rest: Seq<char>)
    requires
        is_space(space),
        word.len() > 0,
        forall|i: int| 0 <= i < word.len() ==> !is_space(#[trigger] word[i]),
    ensures
        words_of(Seq::empty()).len() == 0,
        words_of(seq![space] + rest) == words_of(rest),
        words_of(word) == seq![word],
        words_of(word + (seq![space] + rest)) == seq![word] + words_of(rest),
{
    let spaced = seq![space] + rest;
    assert(spaced.drop_first() =~= rest);
    let whole = word + spaced;
    lemma_word_of(word, Seq::empty());
    assert(word + Seq::<char>::empty() =~= word);
    assert(word.take(word.len() as int) =~= word);
    assert(word.skip(word.len() as int) =~= Seq::empty());
    assert(words_of(Seq::<char>::empty()) =~= Seq::empty());
    assert(words_of(word) =~= seq![word]);
    lemma_word_of(word, spaced);
    assert(whole[0] == word[0]);
    assert(whole.take(word.len() as int) =~= word);
    assert(whole.skip(word.len() as int) =~= spaced);
}

proof fn lemma_word_of(word: Seq<char>, rest: Seq<char>)
    requires
        forall|i: int| 0 <= i < word.len() ==> !is_space(#[trigger] word[i]),
        rest.len() > 0 ==> is_space(rest[0]),
    ensures
        word_len(word + rest) == word.len(),
    decreases word.len(),
{
    let whole = word + rest;
    if word.len() == 0 {
        assert(whole =~= rest);
    } else {
        assert(whole[0] == word[0]);
        assert(whole.drop_first() =~= word.drop_first() + rest);
        lemma_word_of(word.drop_first(), rest);
    }
}

/// A text without a separator is one piece, and a separator parts the pieces before
/// it from those after it.
pub proof fn law_pieces(a: Seq<char>, b: Seq<char>, separator: char)
    ensures
        !a.contains(separator) ==> pieces_of(a, separator) == seq![a],
        pieces_of(a + seq![separator] + b, separator) == pieces_of(a, separator) + pieces_of(
            b,
            separator,
        ),
{
    if !a.contains(separator) {
        lemma_single_piece(a, separator);
    }
    lemma_pieces_around(a, b, separator);
}

proof fn lemma_single_piece(s: Seq<char>, separator: char)
    requires
        !s.contains(separator),
    ensures
        pieces_of(s, separator) == seq![s],
    decreases s.len(),
{
    if s.len() > 0 {
        assert(s[s.len() - 1] != separator);
        assert(!s.drop_last().contains(separator)) by {
            if s.drop_last().contains(separator) {
                let k = choose|k: int| 0 <= k < s.drop_last().len() && s.drop_last()[k] == separator;
                assert(s[k] == separator);
            }
        }
        lemma_single_piece(s.drop_last(), separator);
        assert(s.drop_last().push(s.last()) =~= s);
        assert(pieces_of(s, separator) =~= seq![s]);
    } else {
        assert(s =~= Seq::empty());
    }
}

proof fn lemma_pieces_around(a: Seq<char>, b: Seq<char>, separator: char)
    ensures
        pieces_of(a + seq![separator] + b, separator) == pieces_of(a, separator) + pieces_of(
            b,
            separator,
        ),
    decreases b.len(),
{
    let s = a + seq![separator] + b;
    if b.len() == 0 {
        assert(s.drop_last() =~= a);
        assert(pieces_of(a, separator).push(Seq::empty()) =~= pieces_of(a, separator) + pieces_of(
            b,
            separator,
        ));
    } else {
        lemma_pieces_not_empty(b.drop_last(), separator);
        assert(s.drop_last() =~= a + seq![separator] + b.drop_last());
        lemma_pieces_around(a, b.drop_last(), separator);
        let x = pieces_of(a, separator);
        let y = pieces_of(b.drop_last(), separator);
        assert((x + y).last() == y.last());
        if b.last() == separator {
            assert((x + y).push(Seq::empty()) =~= x + y.push(Seq::empty()));
        } else {
            let longer = y.last().push(b.last());
            assert((x + y).drop_last().push(longer) =~= x + y.drop_last().push(longer));
        }
    }
}

/// In small letters an ASCII text has each of its capitals moved by 32, and every
/// other character as it was.
pub proof fn law_small_letters(s: Seq<char>, i: int)
    requires
        is_ascii_chars(s),
        0 <= i < s.len(),
    ensures
        lowercase(s).len() == s.len(),
        'A' <= s[i] <= 'Z' ==> lowercase(s)[i] as nat == s[i] as nat + 32,
        !('A' <= s[i] <= 'Z') ==> lowercase(s)[i] == s[i],
{
}

/// A list of texts is read in its order, and an optional text as what it holds.
pub proof fn law_texts_as_they_are(list: Seq<String>, i: int, s: Option<String>)
    ensures
        texts(list).len() == list.len(),
        0 <= i < list.len() ==> texts(list)[i] == list[i]@,
        s matches Some(t) ==> optional_text(s) == Some(t@),
        s is None ==> optional_text(s) is None,
{
}

/// White space is what Unicode calls so.
pub proof fn law_white_space(c: char)
    ensures
        is_space(c) <==> c == ' ' || '\t' <= c <= '\r' || c == '\u{85}' || c == '\u{a0}' || c
            == '\u{1680}' || '\u{2000}' <= c <= '\u{200a}' || c == '\u{2028}' || c == '\u{2029}'
            || c == '\u{202f}' || c == '\u{205f}' || c == '\u{3000}',
{
}

/// Outside ASCII the small letters of a text are those of the Unicode tables.
pub proof fn law_other_small_letters(s: Seq<char>)
    requires
        !is_ascii_chars(s),
    ensures
        lowercase(s) == unicode_lowercase(s),
{
}

} // verus!
