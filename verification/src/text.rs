//! Character-level helpers: comparing, trimming, searching and building the
//! short texts the cluster reads and shows.

use vstd::prelude::*;
use vstd::string::StringSliceAdditionalSpecFns;
use vstd::utf8::{decode_utf8, encode_utf8, encode_utf8_decode_utf8, valid_utf8};

verus! {

// ----- bytes to text -----------------------------------------------------------

/// What `String::from_utf8_lossy` makes of bytes that are not valid UTF-8.
pub uninterp spec fn utf8_lossy(bytes: Seq<u8>) -> Seq<char>;

/// The text that `bytes` stand for, torn sequences replaced.
pub open spec fn text_of(bytes: Seq<u8>) -> Seq<char> {
    if valid_utf8(bytes) {
        decode_utf8(bytes)
    } else {
        utf8_lossy(bytes)
    }
}

/// How the text `s` shows `bytes`: a replacement character stands for what is
/// torn, a NUL character for nothing but a zero byte, and the text begins with
/// that of every beginning of `bytes` that is whole.
pub open spec fn shows(s: Seq<char>, bytes: Seq<u8>) -> bool {
    &&& !valid_utf8(bytes) ==> s.contains('\u{fffd}')
    &&& !bytes.contains(0u8) ==> !s.contains('\0')
    &&& forall|n: int|
        0 <= n <= bytes.len() && valid_utf8(#[trigger] bytes.take(n)) ==> decode_utf8(
            bytes.take(n),
        ).is_prefix_of(s)
}

/// `String::from_utf8_lossy`: valid UTF-8 comes back as the text it encodes. In
/// any other bytes what is invalid is replaced by U+FFFD, so that character is
/// there; what is valid stays, so the text begins as the bytes do, and a NUL
/// character comes from a zero byte only. How many replacement characters stand
/// for one torn sequence is not stated, only that the text depends on the bytes
/// alone.
#[verifier::external_body]
pub(crate) fn lossy(bytes: &[u8]) -> (s: String)
    ensures
        s@ == if valid_utf8(bytes@) {
            decode_utf8(bytes@)
        } else {
            utf8_lossy(bytes@)
        },
        shows(s@, bytes@),
{
    String::from_utf8_lossy(bytes).into_owned()
}

// ----- the standard library's wording -------------------------------------------

/// A text as `{:?}` prints it.
pub uninterp spec fn debug_text(s: Seq<char>) -> Seq<char>;

/// The `Debug` form of a `str`, by `format!`: the text in quotes, with what
/// cannot be printed escaped. Only that it depends on the text alone is
/// claimed.
#[verifier::external_body]
pub(crate) fn quoted(s: &str) -> (q: String)
    ensures
        q@ == debug_text(s@),
{
    format!("{:?}", s)
}

// ----- characters --------------------------------------------------------------

/// `String::push`: appends one character.
pub assume_specification[ std::string::String::push ](s: &mut std::string::String, c: char)
    ensures
        final(s)@ == old(s)@.push(c),
;

/// The characters of `s`.
pub fn chars(s: &str) -> (v: Vec<char>)
    ensures
        v@ == s@,
{
    let mut v: Vec<char> = Vec::new();
    for c in it: s.chars()
        invariant
            it.seq() == s@,
            v@ == s@.take(it.index() as int),
    {
        v.push(c);
    }
    v
}

/// The string made of `v`.
pub fn collect(v: &[char]) -> (s: String)
    ensures
        s@ == v@,
{
    let mut s: String = String::new();
    let mut i: usize = 0;
    while i < v.len()
        invariant
            i <= v@.len(),
            s@ == v@.take(i as int),
        decreases v@.len() - i,
    {
        s.push(v[i]);
        i = i + 1;
    }
    s
}

/// Whether `a` and `b` are the same text.
pub fn same(a: &str, b: &str) -> (r: bool)
    ensures
        r == (a@ == b@),
{
    proof {
        encode_utf8_decode_utf8(a@);
        encode_utf8_decode_utf8(b@);
    }
    let x: &[u8] = a.as_bytes();
    let y: &[u8] = b.as_bytes();
    if x.len() != y.len() {
        return false;
    }
    let mut i: usize = 0;
    while i < x.len()
        invariant
            x@ == encode_utf8(a@),
            y@ == encode_utf8(b@),
            x@.len() == y@.len(),
            i <= x@.len(),
            x@.take(i as int) == y@.take(i as int),
        decreases x@.len() - i,
    {
        if x[i] != y[i] {
            assert(x@ != y@);
            return false;
        }
        assert(x@.take(i + 1) == x@.take(i as int).push(x@[i as int]));
        assert(y@.take(i + 1) == y@.take(i as int).push(y@[i as int]));
        i = i + 1;
    }
    assert(x@.take(i as int) == x@);
    assert(y@.take(i as int) == y@);
    true
}

/// `a` followed by `b`.
pub fn append(a: &str, b: &str) -> (s: String)
    ensures
        s@ == a@ + b@,
{
    let mut v: Vec<char> = chars(a);
    let tail: Vec<char> = chars(b);
    let mut i: usize = 0;
    while i < tail.len()
        invariant
            tail@ == b@,
            i <= tail@.len(),
            v@ == a@ + b@.take(i as int),
        decreases tail@.len() - i,
    {
        v.push(tail[i]);
        i = i + 1;
        assert(b@.take(i as int) == b@.take(i - 1).push(b@[i - 1]));
    }
    assert(b@.take(i as int) == b@);
    collect(v.as_slice())
}

/// The characters of `v` from `from` up to `to`, as a string.
pub fn slice(v: &[char], from: usize, to: usize) -> (s: String)
    requires
        from <= to <= v@.len(),
    ensures
        s@ == v@.subrange(from as int, to as int),
{
    collect(vstd::slice::slice_subrange(v, from, to))
}

// ----- searching ---------------------------------------------------------------

/// Where `c` first stands in `s` at or after `i`, or the end of `s`.
pub open spec fn position(s: Seq<char>, c: char, i: int) -> int
    decreases s.len() - i,
{
    if i >= s.len() || s[i] == c {
        i
    } else {
        position(s, c, i + 1)
    }
}

/// Where `c` first stands in `v` at or after `from`, or the end of `v`.
pub fn find_char(v: &[char], c: char, from: usize) -> (i: usize)
    requires
        from <= v@.len(),
    ensures
        i == position(v@, c, from as int),
        from <= i <= v@.len(),
{
    let mut i: usize = from;
    while i < v.len() && v[i] != c
        invariant
            from <= i <= v@.len(),
            position(v@, c, i as int) == position(v@, c, from as int),
        decreases v@.len() - i,
    {
        i = i + 1;
    }
    i
}

/// Whether `word` stands in `s` at `i`.
pub open spec fn stands_at(s: Seq<char>, word: Seq<char>, i: int) -> bool {
    0 <= i && i + word.len() <= s.len() && s.subrange(i, i + word.len()) == word
}

/// Where `word` first stands in `s` at or after `i`.
pub open spec fn first_from(s: Seq<char>, word: Seq<char>, i: int) -> Option<int>
    decreases s.len() - i,
{
    if stands_at(s, word, i) {
        Some(i)
    } else if i >= s.len() {
        None
    } else {
        first_from(s, word, i + 1)
    }
}

/// Whether `word` stands anywhere in `s`.
pub open spec fn contains(s: Seq<char>, word: Seq<char>) -> bool {
    exists|i: int| stands_at(s, word, i)
}

/// A first occurrence is an occurrence, and none comes before it.
pub proof fn first_is_first(s: Seq<char>, word: Seq<char>, i: int)
    requires
        0 <= i,
    ensures
        first_from(s, word, i) matches Some(at) ==> i <= at && stands_at(s, word, at),
        first_from(s, word, i) matches Some(at) ==> forall|j: int|
            i <= j < at ==> !stands_at(s, word, j),
        first_from(s, word, i) is None ==> forall|j: int| i <= j ==> !stands_at(s, word, j),
    decreases s.len() - i,
{
    if !stands_at(s, word, i) && i < s.len() {
        first_is_first(s, word, i + 1);
    }
}

/// Whether `word` stands in `v` at `i`.
fn is_at(v: &[char], word: &[char], i: usize) -> (r: bool)
    requires
        i <= v@.len(),
    ensures
        r == stands_at(v@, word@, i as int),
{
    if word.len() > v.len() - i {
        return false;
    }
    let mut k: usize = 0;
    while k < word.len()
        invariant
            i + word.len() <= v.len(),
            k <= word.len(),
            forall|j: int| 0 <= j < k ==> v@[i + j] == word@[j],
        decreases word@.len() - k,
    {
        if v[i + k] != word[k] {
            assert(v@.subrange(i as int, i + word@.len())[k as int] != word@[k as int]);
            return false;
        }
        k = k + 1;
    }
    assert(v@.subrange(i as int, i + word@.len()) == word@);
    true
}

/// Where `word` first stands in `v`.
pub fn find(v: &[char], word: &[char]) -> (at: Option<usize>)
    ensures
        at is Some == first_from(v@, word@, 0) is Some,
        at is Some ==> at->0 == first_from(v@, word@, 0)->0 && stands_at(
            v@,
            word@,
            at->0 as int,
        ),
        at is Some == contains(v@, word@),
{
    let mut i: usize = 0;
    loop
        invariant
            i <= v@.len(),
            first_from(v@, word@, i as int) == first_from(v@, word@, 0),
        decreases v@.len() - i,
    {
        if is_at(v, word, i) {
            return Some(i);
        }
        if i == v.len() {
            proof {
                first_is_first(v@, word@, 0);
            }
            return None;
        }
        i = i + 1;
    }
}

// ----- trimming ----------------------------------------------------------------

/// The characters with the Unicode property `White_Space`.
pub open spec fn is_white(c: char) -> bool {
    ||| '\u{9}' <= c <= '\u{d}'
    ||| c == ' '
    ||| c == '\u{85}'
    ||| c == '\u{a0}'
    ||| c == '\u{1680}'
    ||| '\u{2000}' <= c <= '\u{200a}'
    ||| c == '\u{2028}'
    ||| c == '\u{2029}'
    ||| c == '\u{202f}'
    ||| c == '\u{205f}'
    ||| c == '\u{3000}'
}

fn white(c: char) -> (r: bool)
    ensures
        r == is_white(c),
{
    ('\u{9}' <= c && c <= '\u{d}') || c == ' ' || c == '\u{85}' || c == '\u{a0}' || c == '\u{1680}'
        || ('\u{2000}' <= c && c <= '\u{200a}') || c == '\u{2028}' || c == '\u{2029}' || c
        == '\u{202f}' || c == '\u{205f}' || c == '\u{3000}'
}

/// `s` without the white space at its start.
pub open spec fn trim_start(s: Seq<char>) -> Seq<char>
    decreases s.len(),
{
    if s.len() > 0 && is_white(s[0]) {
        trim_start(s.drop_first())
    } else {
        s
    }
}

/// `s` without the white space at its end.
pub open spec fn trim_end(s: Seq<char>) -> Seq<char>
    decreases s.len(),
{
    if s.len() > 0 && is_white(s.last()) {
        trim_end(s.drop_last())
    } else {
        s
    }
}

/// `s` without the characters `c` at its end.
pub open spec fn strip_end(s: Seq<char>, c: char) -> Seq<char>
    decreases s.len(),
{
    if s.len() > 0 && s.last() == c {
        strip_end(s.drop_last(), c)
    } else {
        s
    }
}

/// `s` without white space around it.
pub open spec fn trimmed(s: Seq<char>) -> Seq<char> {
    trim_end(trim_start(s))
}

/// `v` without white space around it.
pub fn trim(v: &[char]) -> (t: &[char])
    ensures
        t@ == trimmed(v@),
{
    let mut from: usize = 0;
    let mut to: usize = v.len();
    assert(v@.subrange(0, to as int) == v@);
    while from < to && white(v[from])
        invariant
            from <= to == v@.len(),
            trim_start(v@.subrange(from as int, to as int)) == trim_start(v@),
        decreases to - from,
    {
        assert(v@.subrange(from as int, to as int).drop_first() == v@.subrange(
            from + 1,
            to as int,
        ));
        from = from + 1;
    }
    let ghost start = v@.subrange(from as int, to as int);
    assert(trim_start(v@) == start);
    while from < to && white(v[to - 1])
        invariant
            from <= to <= v@.len(),
            trim_end(v@.subrange(from as int, to as int)) == trim_end(start),
        decreases to - from,
    {
        assert(v@.subrange(from as int, to as int).drop_last() == v@.subrange(
            from as int,
            to - 1,
        ));
        to = to - 1;
    }
    vstd::slice::slice_subrange(v, from, to)
}

/// `v` without the characters `c` at its end.
pub fn strip(v: &[char], c: char) -> (t: &[char])
    ensures
        t@ == strip_end(v@, c),
{
    let mut to: usize = v.len();
    assert(v@.subrange(0, to as int) == v@);
    while to > 0 && v[to - 1] == c
        invariant
            to <= v@.len(),
            strip_end(v@.subrange(0, to as int), c) == strip_end(v@, c),
        decreases to,
    {
        assert(v@.subrange(0, to as int).drop_last() == v@.subrange(0, to - 1));
        to = to - 1;
    }
    vstd::slice::slice_subrange(v, 0, to)
}

// ----- case --------------------------------------------------------------------

/// `c` in lower case if it is an ASCII letter, else as it is.
pub open spec fn folded(c: char) -> char {
    if 'A' <= c <= 'Z' {
        (c as u8 + 32) as char
    } else {
        c
    }
}

/// Whether `a` and `b` differ in nothing but the case of ASCII letters.
pub open spec fn same_but_case(a: Seq<char>, b: Seq<char>) -> bool {
    a.len() == b.len() && forall|i: int| 0 <= i < a.len() ==> folded(a[i]) == folded(b[i])
}

fn fold(c: char) -> (f: char)
    ensures
        f == folded(c),
{
    if 'A' <= c && c <= 'Z' {
        (c as u8 + 32) as char
    } else {
        c
    }
}

/// Whether `a` and `b` differ in nothing but the case of ASCII letters.
pub fn eq_ignore_case(a: &[char], b: &[char]) -> (r: bool)
    ensures
        r == same_but_case(a@, b@),
{
    if a.len() != b.len() {
        return false;
    }
    let mut i: usize = 0;
    while i < a.len()
        invariant
            a@.len() == b@.len(),
            i <= a@.len(),
            forall|j: int| 0 <= j < i ==> folded(a@[j]) == folded(b@[j]),
        decreases a@.len() - i,
    {
        if fold(a[i]) != fold(b[i]) {
            return false;
        }
        i = i + 1;
    }
    true
}

// ----- numerals ----------------------------------------------------------------

/// Whether `c` is a hexadecimal digit.
pub open spec fn is_hex(c: char) -> bool {
    '0' <= c <= '9' || 'a' <= c <= 'f' || 'A' <= c <= 'F'
}

/// The value of a hexadecimal digit.
pub open spec fn hex_value(c: char) -> int {
    if '0' <= c <= '9' {
        c as int - '0' as int
    } else if 'a' <= c <= 'f' {
        c as int - 'a' as int + 10
    } else {
        c as int - 'A' as int + 10
    }
}

/// The digit, in upper case, of a value below sixteen.
pub open spec fn hex_digit(n: int) -> char {
    if n < 10 {
        (0x30 + n) as char
    } else {
        (0x37 + n) as char
    }
}

/// The value of a row of hexadecimal digits.
pub open spec fn hex_number(s: Seq<char>) -> int
    decreases s.len(),
{
    if s.len() == 0 {
        0
    } else {
        16 * hex_number(s.drop_last()) + hex_value(s.last())
    }
}

/// The digits of a numeral: all of it but for a plus sign in front.
pub open spec fn unsigned(s: Seq<char>) -> Seq<char> {
    if s.len() > 0 && s[0] == '+' {
        s.drop_first()
    } else {
        s
    }
}

/// Whether `s` is a hexadecimal numeral for a byte: an optional plus sign, then
/// at least one digit and nothing else, of a value that fits.
pub open spec fn is_hex_byte(s: Seq<char>) -> bool {
    &&& unsigned(s).len() > 0
    &&& forall|i: int| 0 <= i < unsigned(s).len() ==> is_hex(unsigned(s)[i])
    &&& hex_number(unsigned(s)) <= 255
}

/// What `u8::from_str_radix` says of a text that is no hexadecimal numeral for
/// a byte.
pub uninterp spec fn radix_error(s: Seq<char>) -> Seq<char>;

/// `u8::from_str_radix` with radix 16: the value of a hexadecimal numeral for a
/// byte, an error for any other text. Of the error's wording only that it
/// depends on the text alone is claimed.
#[verifier::external_body]
pub(crate) fn hex_byte(s: &str) -> (r: Result<u8, String>)
    ensures
        r is Ok == is_hex_byte(s@),
        r is Ok ==> r->Ok_0 == hex_number(unsigned(s@)),
        r is Err ==> r->Err_0@ == radix_error(s@),
{
    u8::from_str_radix(s, 16).map_err(|e| e.to_string())
}

/// `n` as two hexadecimal digits.
pub open spec fn hex_pair(n: u8) -> Seq<char> {
    seq![hex_digit(n as int / 16), hex_digit(n as int % 16)]
}

pub fn hexadecimal(c: char) -> (r: bool)
    ensures
        r == is_hex(c),
{
    ('0' <= c && c <= '9') || ('a' <= c && c <= 'f') || ('A' <= c && c <= 'F')
}

/// The value of a hexadecimal digit.
pub fn digit_value(c: char) -> (n: u8)
    requires
        is_hex(c),
    ensures
        n == hex_value(c),
        n < 16,
{
    if '0' <= c && c <= '9' {
        c as u8 - 0x30
    } else if 'a' <= c && c <= 'f' {
        c as u8 - 0x57
    } else {
        c as u8 - 0x37
    }
}

fn digit(n: u8) -> (c: char)
    requires
        n < 16,
    ensures
        c == hex_digit(n as int),
{
    if n < 10 {
        (0x30 + n) as char
    } else {
        (0x37 + n) as char
    }
}

/// Append `n` as two hexadecimal digits.
pub fn push_hex(v: &mut Vec<char>, n: u8)
    ensures
        final(v)@ == old(v)@ + hex_pair(n),
{
    v.push(digit(n / 16));
    v.push(digit(n % 16));
}

/// Two digits written for a byte are read as that byte.
pub proof fn a_hex_pair_reads_back(n: u8)
    ensures
        is_hex(hex_pair(n)[0]),
        is_hex(hex_pair(n)[1]),
        16 * hex_value(hex_pair(n)[0]) + hex_value(hex_pair(n)[1]) == n,
{
}

} // verus!
