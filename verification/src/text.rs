//! Text: comparison, numerals, and the string functions of the standard
//! library that name matching and record conversion lean on.

use std::collections::hash_map::DefaultHasher;
use std::hash::Hash;
use vstd::prelude::*;
use vstd::string::*;

verus! {

/// Tells whether two strings hold the same characters.
pub fn same_text(a: &str, b: &str) -> (r: bool)
    ensures
        r == (a@ == b@),
{
    let x: String = a.to_owned();
    let y: String = b.to_owned();
    x == y
}

/// The character that stands for a digit below sixteen, letters in lower case.
pub open spec fn digit_char(d: int) -> char {
    if d == 0 {
        '0'
    } else if d == 1 {
        '1'
    } else if d == 2 {
        '2'
    } else if d == 3 {
        '3'
    } else if d == 4 {
        '4'
    } else if d == 5 {
        '5'
    } else if d == 6 {
        '6'
    } else if d == 7 {
        '7'
    } else if d == 8 {
        '8'
    } else if d == 9 {
        '9'
    } else if d == 10 {
        'a'
    } else if d == 11 {
        'b'
    } else if d == 12 {
        'c'
    } else if d == 13 {
        'd'
    } else if d == 14 {
        'e'
    } else {
        'f'
    }
}

/// The decimal numeral of `n`, most significant digit first, without leading
/// zeros; zero is written "0".
pub open spec fn decimal_numeral(n: nat) -> Seq<char>
    decreases n,
{
    if n < 10 {
        seq![digit_char(n as int)]
    } else {
        decimal_numeral(n / 10).push(digit_char((n % 10) as int))
    }
}

/// The hexadecimal numeral of `n` in lower case, most significant digit
/// first, without leading zeros; zero is written "0".
pub open spec fn hex_numeral(n: nat) -> Seq<char>
    decreases n,
{
    if n < 16 {
        seq![digit_char(n as int)]
    } else {
        hex_numeral(n / 16).push(digit_char((n % 16) as int))
    }
}

/// The one-character string of a digit.
fn digit_text(d: u64) -> (s: &'static str)
    requires
        d < 16,
    ensures
        s@ == seq![digit_char(d as int)],
{
    proof {
        reveal_strlit("0");
        reveal_strlit("1");
        reveal_strlit("2");
        reveal_strlit("3");
        reveal_strlit("4");
        reveal_strlit("5");
        reveal_strlit("6");
        reveal_strlit("7");
        reveal_strlit("8");
        reveal_strlit("9");
        reveal_strlit("a");
        reveal_strlit("b");
        reveal_strlit("c");
        reveal_strlit("d");
        reveal_strlit("e");
        reveal_strlit("f");
    }
    let s: &'static str = if d == 0 {
        "0"
    } else if d == 1 {
        "1"
    } else if d == 2 {
        "2"
    } else if d == 3 {
        "3"
    } else if d == 4 {
        "4"
    } else if d == 5 {
        "5"
    } else if d == 6 {
        "6"
    } else if d == 7 {
        "7"
    } else if d == 8 {
        "8"
    } else if d == 9 {
        "9"
    } else if d == 10 {
        "a"
    } else if d == 11 {
        "b"
    } else if d == 12 {
        "c"
    } else if d == 13 {
        "d"
    } else if d == 14 {
        "e"
    } else {
        "f"
    };
    assert(s@ =~= seq![digit_char(d as int)]);
    s
}

/// Appends the decimal numeral of `n` to `out`.
pub fn append_decimal(out: &mut String, n: u64)
    ensures
        final(out)@ == old(out)@ + decimal_numeral(n as nat),
    decreases n,
{
    if n >= 10 {
        append_decimal(out, n / 10);
    }
    out.append(digit_text(n % 10));
    assert(out@ =~= old(out)@ + decimal_numeral(n as nat));
}

/// Appends the hexadecimal numeral of `n` to `out`.
pub fn append_hex(out: &mut String, n: u64)
    ensures
        final(out)@ == old(out)@ + hex_numeral(n as nat),
    decreases n,
{
    if n >= 16 {
        append_hex(out, n / 16);
    }
    out.append(digit_text(n % 16));
    assert(out@ =~= old(out)@ + hex_numeral(n as nat));
}

/// The decimal numeral of `n`.
pub fn decimal(n: u64) -> (s: String)
    ensures
        s@ == decimal_numeral(n as nat),
{
    let mut s: String = String::new();
    append_decimal(&mut s, n);
    assert(s@ =~= decimal_numeral(n as nat));
    s
}

/// The hexadecimal numeral of `n`, in lower case.
pub fn hexadecimal(n: u64) -> (s: String)
    ensures
        s@ == hex_numeral(n as nat),
{
    let mut s: String = String::new();
    append_hex(&mut s, n);
    assert(s@ =~= hex_numeral(n as nat));
    s
}

/// `needle` occurs in `hay` as a run of consecutive characters.
pub open spec fn is_substring(hay: Seq<char>, needle: Seq<char>) -> bool {
    exists|i: int|
        0 <= i <= hay.len() - needle.len() && #[trigger] hay.subrange(i, i + needle.len()) == needle
}

/// `s` with every occurrence of the non-empty pattern `from` replaced by
/// `to`, the occurrences taken from the left and not overlapping.
pub open spec fn replaced(s: Seq<char>, from: Seq<char>, to: Seq<char>) -> Seq<char>
    recommends
        from.len() > 0,
    decreases s.len(),
{
    if from.len() == 0 || s.len() < from.len() {
        s
    } else if s.subrange(0, from.len() as int) == from {
        to + replaced(s.subrange(from.len() as int, s.len() as int), from, to)
    } else {
        seq![s[0]] + replaced(s.subrange(1, s.len() as int), from, to)
    }
}

/// The words of `words`, written one after another with a single space
/// between neighbours.
pub open spec fn joined(words: Seq<Seq<char>>) -> Seq<char>
    decreases words.len(),
{
    if words.len() == 0 {
        Seq::empty()
    } else if words.len() == 1 {
        words[0]
    } else {
        joined(words.drop_last()) + seq![' '] + words.last()
    }
}

/// The text of each string of a list.
pub open spec fn texts(words: Seq<String>) -> Seq<Seq<char>> {
    words.map_values(|w: String| w@)
}

/// What `str::to_lowercase` makes of a text: each character replaced by
/// its lower-case form, as Unicode defines it.
pub uninterp spec fn lowercase_of(s: Seq<char>) -> Seq<char>;

/// The character is white space: it has the Unicode property White_Space,
/// which these twenty-five characters have.
pub open spec fn is_white_space(c: char) -> bool {
    let u = c as u32;
    (0x09 <= u <= 0x0D) || u == 0x20 || u == 0x85 || u == 0xA0 || u == 0x1680 || (0x2000 <= u
        <= 0x200A) || u == 0x2028 || u == 0x2029 || u == 0x202F || u == 0x205F || u == 0x3000
}

/// Tells whether a character is white space.
pub fn white_space(c: char) -> (b: bool)
    ensures
        b == is_white_space(c),
{
    let u: u32 = c as u32;
    (0x09 <= u && u <= 0x0D) || u == 0x20 || u == 0x85 || u == 0xA0 || u == 0x1680 || (0x2000 <= u
        && u <= 0x200A) || u == 0x2028 || u == 0x2029 || u == 0x202F || u == 0x205F || u == 0x3000
}

/// A text without the white space at its start.
pub open spec fn trimmed_start(s: Seq<char>) -> Seq<char>
    decreases s.len(),
{
    if s.len() > 0 && is_white_space(s[0]) {
        trimmed_start(s.subrange(1, s.len() as int))
    } else {
        s
    }
}

/// A text without the white space at its end.
pub open spec fn trimmed_end(s: Seq<char>) -> Seq<char>
    decreases s.len(),
{
    if s.len() > 0 && is_white_space(s.last()) {
        trimmed_end(s.drop_last())
    } else {
        s
    }
}

/// A text without the white space at its two ends.
pub open spec fn trimmed(s: Seq<char>) -> Seq<char> {
    trimmed_end(trimmed_start(s))
}

/// The words of a text that follow a word begun with `current`: a word ends
/// at white space and at the end of the text, and there are no empty words.
pub open spec fn words_after(s: Seq<char>, current: Seq<char>) -> Seq<Seq<char>>
    decreases s.len(),
{
    let done = if current.len() > 0 {
        seq![current]
    } else {
        Seq::<Seq<char>>::empty()
    };
    if s.len() == 0 {
        done
    } else if is_white_space(s[0]) {
        done + words_after(s.subrange(1, s.len() as int), Seq::empty())
    } else {
        words_after(s.subrange(1, s.len() as int), current.push(s[0]))
    }
}

/// The words of a text: its maximal runs of characters that are not white
/// space, in order.
pub open spec fn whitespace_words(s: Seq<char>) -> Seq<Seq<char>> {
    words_after(s, Seq::empty())
}

/// What a `DefaultHasher` has taken in once a text was hashed into it.
pub uninterp spec fn hashed_text(state: Seq<Seq<u8>>, text: Seq<char>) -> Seq<Seq<u8>>;

/// `str::to_lowercase`. Believed: the result is a function of the text alone.
#[verifier::external_body]
pub(crate) fn lowercase(s: &str) -> (r: String)
    ensures
        r@ == lowercase_of(s@),
{
    s.to_lowercase()
}

/// `str::trim`. Believed: the result is the text without the characters of
/// the Unicode property White_Space at its start and at its end.
#[verifier::external_body]
pub(crate) fn trim(s: &str) -> (r: &str)
    ensures
        r@ == trimmed(s@),
{
    s.trim()
}

/// `str::split_whitespace`, its words copied into a list. Believed: the
/// words are the maximal runs of characters without the Unicode property
/// White_Space, in the order of the text.
#[verifier::external_body]
pub(crate) fn split_words(s: &str) -> (r: Vec<String>)
    ensures
        texts(r@) == whitespace_words(s@),
{
    s.split_whitespace().map(|w| w.to_string()).collect()
}

/// `str::replace` with a string pattern. Believed: every match of the
/// pattern, found from the left without overlap, is replaced.
#[verifier::external_body]
pub(crate) fn replace_all(s: &str, from: &str, to: &str) -> (r: String)
    requires
        from@.len() > 0,
    ensures
        r@ == replaced(s@, from@, to@),
{
    s.replace(from, to)
}

/// `str::contains` with a string pattern. Believed: true exactly when the
/// pattern matches a run of characters of the text.
#[verifier::external_body]
pub(crate) fn has_substring(hay: &str, needle: &str) -> (r: bool)
    ensures
        r == is_substring(hay@, needle@),
{
    hay.contains(needle)
}

/// `Hash::hash` of a `str` into a `DefaultHasher`. Believed: what the hasher
/// takes in depends on what it held and on the text alone.
#[verifier::external_body]
pub(crate) fn hash_text(state: &mut DefaultHasher, text: &str)
    ensures
        final(state)@ == hashed_text(old(state)@, text@),
{
    text.hash(state)
}

/// `String::push`. Believed: the character is appended to the end of the
/// string.
#[verifier::external_body]
pub(crate) fn push_char(out: &mut String, c: char)
    ensures
        final(out)@ == old(out)@.push(c),
{
    out.push(c)
}

/// Writes the words of a list one after another, single spaces between them.
pub fn join_words(words: &Vec<String>) -> (r: String)
    ensures
        r@ == joined(texts(words@)),
{
    let mut r: String = String::new();
    let n: usize = words.len();
    let mut i: usize = 0;
    while i < n
        invariant
            n == words.len(),
            i <= n,
            r@ == joined(texts(words@).subrange(0, i as int)),
        decreases n - i,
    {
        let ghost prefix = texts(words@).subrange(0, i as int);
        let ghost next = texts(words@).subrange(0, i + 1);
        assert(next.drop_last() =~= prefix);
        assert(next.last() == words@[i as int]@);
        if i > 0 {
            r.append(" ");
            proof {
                reveal_strlit(" ");
                assert(" "@ =~= seq![' ']);
            }
        }
        r.append(words[i].as_str());
        assert(r@ =~= joined(next));
        i = i + 1;
    }
    assert(texts(words@).subrange(0, n as int) =~= texts(words@));
    r
}

} // verus!
