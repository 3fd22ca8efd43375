//! Character sequences: the plain values on which the parsers work.

use vstd::prelude::*;
use vstd::slice::{slice_subrange, slice_to_vec};

verus! {

/// The characters of `s`, in order.
pub fn chars_of(s: &str) -> (v: Vec<char>)
    ensures
        v@ == s@,
{
    let mut v: Vec<char> = Vec::new();
    for c in it: s.chars()
        invariant
            v@ == it.seq().take(it.index() as int),
            it.seq() == s@,
    {
        v.push(c);
    }
    v
}

/// A copy of the characters `from..to` of `s`.
pub(crate) fn copy_range(s: &[char], from: usize, to: usize) -> (v: Vec<char>)
    requires
        from <= to <= s@.len(),
    ensures
        v@ == s@.subrange(from as int, to as int),
{
    slice_to_vec(slice_subrange(s, from, to))
}

/// Whether two texts hold the same characters.
pub fn same_text(a: &[char], b: &[char]) -> (r: bool)
    ensures
        r == (a@ == b@),
{
    if a.len() != b.len() {
        return false;
    }
    let mut i: usize = 0;
    while i < a.len()
        invariant
            i <= a@.len(),
            a@.len() == b@.len(),
            forall|j: int| 0 <= j < i ==> a@[j] == b@[j],
        decreases a@.len() - i,
    {
        if a[i] != b[i] {
            return false;
        }
        i += 1;
    }
    assert(a@ =~= b@);
    true
}

/// Whether `text` is exactly `word`.
pub fn text_is(text: &[char], word: &str) -> (r: bool)
    ensures
        r == (text@ == word@),
{
    let w = chars_of(word);
    same_text(text, w.as_slice())
}

/// Whether `sep` stands in `s` at position `at`.
pub open spec fn occurs_at(s: Seq<char>, sep: Seq<char>, at: int) -> bool {
    0 <= at && at + sep.len() <= s.len() && s.subrange(at, at + sep.len()) == sep
}

/// The pieces of `s` from `start` on, where no separator begins in `start..pos`.
pub open spec fn split_from(s: Seq<char>, sep: Seq<char>, start: int, pos: int) -> Seq<Seq<char>>
    decreases s.len() - pos,
{
    if sep.len() == 0 || pos + sep.len() > s.len() {
        seq![s.subrange(start, s.len() as int)]
    } else if occurs_at(s, sep, pos) {
        seq![s.subrange(start, pos)] + split_from(s, sep, pos + sep.len(), pos + sep.len())
    } else {
        split_from(s, sep, start, pos + 1)
    }
}

/// The pieces into which the occurrences of `sep` cut `s`, found from left to
/// right without overlap. There is always at least one piece; an empty separator
/// cuts nothing.
pub open spec fn split(s: Seq<char>, sep: Seq<char>) -> Seq<Seq<char>> {
    split_from(s, sep, 0, 0)
}

/// The pieces put together again, with `sep` between each two.
pub open spec fn join(pieces: Seq<Seq<char>>, sep: Seq<char>) -> Seq<char>
    decreases pieces.len(),
{
    if pieces.len() == 0 {
        Seq::empty()
    } else if pieces.len() == 1 {
        pieces[0]
    } else {
        pieces[0] + sep + join(pieces.drop_first(), sep)
    }
}

/// Whether `sep` stands nowhere in `s`.
pub open spec fn free_of(s: Seq<char>, sep: Seq<char>) -> bool {
    forall|at: int| !occurs_at(s, sep, at)
}

proof fn lemma_split_from_joins_back(s: Seq<char>, sep: Seq<char>, start: int, pos: int)
    requires
        0 <= start <= pos <= s.len(),
    ensures
        split_from(s, sep, start, pos).len() >= 1,
        join(split_from(s, sep, start, pos), sep) == s.subrange(start, s.len() as int),
    decreases s.len() - pos,
{
    if sep.len() == 0 || pos + sep.len() > s.len() {
    } else if occurs_at(s, sep, pos) {
        let next = pos + sep.len();
        let rest = split_from(s, sep, next, next);
        lemma_split_from_joins_back(s, sep, next, next);
        let all = seq![s.subrange(start, pos)] + rest;
        assert(all.drop_first() =~= rest);
        assert(all[0] == s.subrange(start, pos));
        assert(s.subrange(start, pos) + sep + s.subrange(next, s.len() as int) =~= s.subrange(
            start,
            s.len() as int,
        ));
    } else {
        lemma_split_from_joins_back(s, sep, start, pos + 1);
    }
}

/// Cutting a text gives at least one piece, and the pieces put together again
/// with the separator between them give the text back.
pub proof fn lemma_split_joins_back(s: Seq<char>, sep: Seq<char>)
    ensures
        split(s, sep).len() >= 1,
        join(split(s, sep), sep) == s,
{
    lemma_split_from_joins_back(s, sep, 0, 0);
    assert(s.subrange(0, s.len() as int) =~= s);
}

proof fn lemma_split_from_pieces_are_free(
    s: Seq<char>,
    sep: Seq<char>,
    start: int,
    pos: int,
    i: int,
)
    requires
        sep.len() > 0,
        0 <= start <= pos <= s.len(),
        forall|at: int| start <= at < pos ==> !occurs_at(s, sep, at),
        0 <= i < split_from(s, sep, start, pos).len(),
    ensures
        free_of(split_from(s, sep, start, pos)[i], sep),
    decreases s.len() - pos,
{
    let m = sep.len() as int;
    if pos + m > s.len() {
        let piece = s.subrange(start, s.len() as int);
        assert forall|at: int| !occurs_at(piece, sep, at) by {
            if occurs_at(piece, sep, at) {
                assert(piece.subrange(at, at + m) =~= s.subrange(start + at, start + at + m));
                assert(occurs_at(s, sep, start + at));
            }
        }
    } else if occurs_at(s, sep, pos) {
        if i == 0 {
            let piece = s.subrange(start, pos);
            assert forall|at: int| !occurs_at(piece, sep, at) by {
                if occurs_at(piece, sep, at) {
                    assert(piece.subrange(at, at + m) =~= s.subrange(start + at, start + at + m));
                    assert(occurs_at(s, sep, start + at));
                }
            }
        } else {
            lemma_split_from_pieces_are_free(s, sep, pos + m, pos + m, i - 1);
        }
    } else {
        lemma_split_from_pieces_are_free(s, sep, start, pos + 1, i);
    }
}

/// No piece that a separator cuts off holds the separator.
pub proof fn lemma_split_pieces_are_free(s: Seq<char>, sep: Seq<char>, i: int)
    requires
        sep.len() > 0,
        0 <= i < split(s, sep).len(),
    ensures
        free_of(split(s, sep)[i], sep),
{
    lemma_split_from_pieces_are_free(s, sep, 0, 0, i);
}

/// The texts held by a list of pieces.
pub open spec fn texts(pieces: Seq<Vec<char>>) -> Seq<Seq<char>> {
    Seq::new(pieces.len(), |i: int| pieces[i]@)
}

/// Whether `sep` stands in `s` at position `at`.
pub fn check_occurs_at(s: &[char], sep: &[char], at: usize) -> (r: bool)
    ensures
        r == occurs_at(s@, sep@, at as int),
{
    let n = s.len();
    let m = sep.len();
    if at > n || m > n - at {
        return false;
    }
    let mut j: usize = 0;
    while j < m
        invariant
            j <= m,
            m == sep@.len(),
            n == s@.len(),
            at + m <= n,
            forall|k: int| 0 <= k < j ==> s@[at + k] == sep@[k],
        decreases m - j,
    {
        if s[at + j] != sep[j] {
            assert(s@.subrange(at as int, at + m)[j as int] == s@[at + j]);
            return false;
        }
        j += 1;
    }
    assert(s@.subrange(at as int, at + m) =~= sep@);
    true
}

/// Cuts `s` at every occurrence of `sep`.
pub fn split_text(s: &[char], sep: &[char]) -> (pieces: Vec<Vec<char>>)
    ensures
        texts(pieces@) == split(s@, sep@),
{
    let n = s.len();
    let m = sep.len();
    let mut pieces: Vec<Vec<char>> = Vec::new();
    let mut start: usize = 0;
    let mut pos: usize = 0;
    assert(texts(pieces@) + split_from(s@, sep@, 0, 0) =~= split(s@, sep@));
    while m > 0 && m <= n - pos
        invariant
            start <= pos <= n,
            n == s@.len(),
            m == sep@.len(),
            split(s@, sep@) == texts(pieces@) + split_from(s@, sep@, start as int, pos as int),
        decreases n - pos,
    {
        if check_occurs_at(s, sep, pos) {
            let piece = copy_range(s, start, pos);
            let ghost before = pieces@;
            pieces.push(piece);
            pos = pos + m;
            assert(texts(pieces@) =~= texts(before) + seq![s@.subrange(start as int, pos - m)]);
            assert(texts(pieces@) + split_from(s@, sep@, pos as int, pos as int) =~= texts(before)
                + (seq![s@.subrange(start as int, pos - m)] + split_from(
                s@,
                sep@,
                pos as int,
                pos as int,
            )));
            start = pos;
        } else {
            pos = pos + 1;
        }
    }
    let piece = copy_range(s, start, n);
    let ghost before = pieces@;
    pieces.push(piece);
    assert(texts(pieces@) =~= texts(before) + seq![s@.subrange(start as int, n as int)]);
    pieces
}

/// Whether `c` has the Unicode property White_Space.
pub open spec fn is_whitespace(c: char) -> bool {
    ||| '\u{9}' <= c <= '\u{D}'
    ||| c == ' '
    ||| c == '\u{85}'
    ||| c == '\u{A0}'
    ||| c == '\u{1680}'
    ||| '\u{2000}' <= c <= '\u{200A}'
    ||| c == '\u{2028}'
    ||| c == '\u{2029}'
    ||| c == '\u{202F}'
    ||| c == '\u{205F}'
    ||| c == '\u{3000}'
}

/// Whether `c` has the Unicode property White_Space.
pub fn check_whitespace(c: char) -> (r: bool)
    ensures
        r == is_whitespace(c),
{
    (c >= '\u{9}' && c <= '\u{D}') || c == ' ' || c == '\u{85}' || c == '\u{A0}' || c == '\u{1680}'
        || (c >= '\u{2000}' && c <= '\u{200A}') || c == '\u{2028}' || c == '\u{2029}' || c
        == '\u{202F}' || c == '\u{205F}' || c == '\u{3000}'
}

/// `s` without the whitespace at its start.
pub open spec fn trim_start(s: Seq<char>) -> Seq<char>
    decreases s.len(),
{
    if s.len() > 0 && is_whitespace(s.first()) {
        trim_start(s.drop_first())
    } else {
        s
    }
}

/// `s` without the whitespace at its end.
pub open spec fn trim_end(s: Seq<char>) -> Seq<char>
    decreases s.len(),
{
    if s.len() > 0 && is_whitespace(s.last()) {
        trim_end(s.drop_last())
    } else {
        s
    }
}

/// `s` without the whitespace at either end.
pub open spec fn trim(s: Seq<char>) -> Seq<char> {
    trim_end(trim_start(s))
}

/// What is left after trimming is a stretch of the text, and begins and ends with
/// a character that is no whitespace, unless nothing is left.
pub proof fn lemma_trim_keeps_the_inside(s: Seq<char>)
    ensures
        exists|from: int, to: int|
            0 <= from <= to <= s.len() && trim(s) == #[trigger] s.subrange(from, to),
        trim(s).len() > 0 ==> !is_whitespace(trim(s).first()) && !is_whitespace(trim(s).last()),
{
    let from = lemma_trim_start_is_a_tail(s);
    let tail = trim_start(s);
    let len = lemma_trim_end_is_a_head(tail);
    assert(tail.take(len) =~= s.subrange(from, from + len));
    if trim(s).len() > 0 {
        assert(trim(s).first() == tail.first());
    }
}

proof fn lemma_trim_start_is_a_tail(s: Seq<char>) -> (from: int)
    ensures
        0 <= from <= s.len(),
        trim_start(s) == s.skip(from),
        trim_start(s).len() > 0 ==> !is_whitespace(trim_start(s).first()),
    decreases s.len(),
{
    if s.len() > 0 && is_whitespace(s.first()) {
        let inner = lemma_trim_start_is_a_tail(s.drop_first());
        assert(s.drop_first().skip(inner) =~= s.skip(inner + 1));
        inner + 1
    } else {
        assert(s.skip(0) =~= s);
        0
    }
}

proof fn lemma_trim_end_is_a_head(s: Seq<char>) -> (len: int)
    ensures
        0 <= len <= s.len(),
        trim_end(s) == s.take(len),
        trim_end(s).len() > 0 ==> !is_whitespace(trim_end(s).last()),
    decreases s.len(),
{
    if s.len() > 0 && is_whitespace(s.last()) {
        let inner = lemma_trim_end_is_a_head(s.drop_last());
        assert(s.drop_last().take(inner) =~= s.take(inner));
        inner
    } else {
        assert(s.take(s.len() as int) =~= s);
        s.len() as int
    }
}

/// A copy of `s` without the whitespace at either end.
pub fn trim_text(s: &[char]) -> (t: Vec<char>)
    ensures
        t@ == trim(s@),
{
    let n = s.len();
    let mut lo: usize = 0;
    assert(s@.subrange(0, n as int) =~= s@);
    while lo < n && check_whitespace(s[lo])
        invariant
            lo <= n,
            n == s@.len(),
            trim_start(s@) == trim_start(s@.subrange(lo as int, n as int)),
        decreases n - lo,
    {
        assert(s@.subrange(lo as int, n as int).drop_first() =~= s@.subrange(lo + 1, n as int));
        lo += 1;
    }
    assert(trim_start(s@) == s@.subrange(lo as int, n as int));
    let mut hi: usize = n;
    while lo < hi && check_whitespace(s[hi - 1])
        invariant
            lo <= hi <= n,
            n == s@.len(),
            trim(s@) == trim_end(s@.subrange(lo as int, hi as int)),
        decreases hi - lo,
    {
        assert(s@.subrange(lo as int, hi as int).drop_last() =~= s@.subrange(lo as int, hi - 1));
        hi -= 1;
    }
    copy_range(s, lo, hi)
}

/// Whether `c` is an ASCII decimal digit.
pub open spec fn is_digit(c: char) -> bool {
    '0' <= c <= '9'
}

/// The number that the decimal digit `c` stands for; 0 for any other character.
pub open spec fn digit_of(c: char) -> nat {
    if is_digit(c) {
        (c as nat - '0' as nat) as nat
    } else {
        0
    }
}

/// The number that the decimal digits `s` write.
pub open spec fn digits_value(s: Seq<char>) -> nat
    decreases s.len(),
{
    if s.len() == 0 {
        0
    } else {
        digits_value(s.drop_last()) * 10 + digit_of(s.last())
    }
}

/// Whether every character of `s` is a decimal digit.
pub open spec fn all_digits(s: Seq<char>) -> bool {
    forall|i: int| 0 <= i < s.len() ==> is_digit(#[trigger] s[i])
}

/// `s` without a plus sign at its start.
pub open spec fn unsigned_part(s: Seq<char>) -> Seq<char> {
    if s.len() > 0 && s[0] == '+' {
        s.skip(1)
    } else {
        s
    }
}

/// The number that `s` writes in decimal, where it is one or more digits, with or
/// without a plus sign before them, and the number fits in 32 bits.
pub open spec fn decimal_u32(s: Seq<char>) -> Option<u32> {
    let digits = unsigned_part(s);
    if digits.len() > 0 && all_digits(digits) && digits_value(digits) <= u32::MAX {
        Some(digits_value(digits) as u32)
    } else {
        None
    }
}

/// A longer run of digits writes no smaller a number than its beginning.
pub proof fn lemma_digits_value_grows(s: Seq<char>, k: int)
    requires
        0 <= k <= s.len(),
    ensures
        digits_value(s.take(k)) <= digits_value(s),
    decreases s.len(),
{
    if k < s.len() {
        assert(s.drop_last().take(k) =~= s.take(k));
        lemma_digits_value_grows(s.drop_last(), k);
    } else {
        assert(s.take(k) =~= s);
    }
}

/// Whether `c` is an ASCII decimal digit.
pub fn check_digit(c: char) -> (r: bool)
    ensures
        r == is_digit(c),
{
    c >= '0' && c <= '9'
}

/// The number that the decimal digit `c` stands for; 0 for any other character.
pub fn digit_value(c: char) -> (d: u8)
    ensures
        d == digit_of(c),
        d <= 9,
{
    if check_digit(c) {
        (c as u32 - '0' as u32) as u8
    } else {
        0
    }
}

/// Reads a 32-bit number written in decimal.
pub fn parse_u32(s: &[char]) -> (r: Option<u32>)
    ensures
        r == decimal_u32(s@),
{
    let n = s.len();
    let first: usize = if n > 0 && s[0] == '+' {
        1
    } else {
        0
    };
    let ghost digits = unsigned_part(s@);
    assert(digits =~= s@.subrange(first as int, n as int));
    if first == n {
        return None;
    }
    let mut value: u32 = 0;
    let mut i: usize = first;
    while i < n
        invariant
            first <= i <= n,
            n == s@.len(),
            digits == unsigned_part(s@),
            digits == s@.subrange(first as int, n as int),
            all_digits(digits.take(i - first)),
            value == digits_value(digits.take(i - first)),
        decreases n - i,
    {
        let c = s[i];
        assert(digits[i - first] == c);
        if !check_digit(c) {
            return None;
        }
        let d = digit_value(c);
        let ghost longer = digits.take(i - first + 1);
        assert(longer.drop_last() =~= digits.take(i - first));
        assert(longer.last() == c);
        assert(digits_value(longer) == value * 10 + d);
        if value > 429496729 || (value == 429496729 && d > 5) {
            proof {
                lemma_digits_value_grows(digits, i - first + 1);
            }
            return None;
        }
        value = value * 10 + d as u32;
        i += 1;
    }
    assert(digits.take(n - first) =~= digits);
    Some(value)
}

} // verus!
