//! Byte-level string utilities shared by the collectors.
//!
//! Contracts over text are stated on UTF-8 byte sequences
//! (`encode_utf8(s@)`): the patterns the collectors search for are ASCII, and
//! ASCII bytes never occur inside a multi-byte UTF-8 sequence, so byte-level
//! matching is exact.

use vstd::prelude::*;
use vstd::std_specs::iter::IteratorSpec;
use vstd::string::StringSliceAdditionalSpecFns;
use vstd::utf8::{encode_utf8, encode_scalar, valid_utf8, is_char_boundary, is_continuation_byte};

verus! {

/// The UTF-8 bytes of a character sequence; the form every textual contract
/// in this crate is stated over.
pub open spec fn str_bytes(s: Seq<char>) -> Seq<u8> {
    vstd::utf8::encode_utf8(s)
}

/// ASCII case folding: upper-case ASCII letters map to lower case, every
/// other byte is unchanged.
pub open spec fn ascii_lower(b: u8) -> u8 {
    if 0x41 <= b <= 0x5a {
        (b + 0x20) as u8
    } else {
        b
    }
}

/// A byte sequence folded to ASCII lower case.
pub open spec fn lower_bytes(s: Seq<u8>) -> Seq<u8> {
    s.map_values(|b: u8| ascii_lower(b))
}

/// `needle` occurs as a contiguous subsequence of `hay`.
pub open spec fn contains_seq(hay: Seq<u8>, needle: Seq<u8>) -> bool {
    exists|i: int|
        0 <= i && i + needle.len() <= hay.len() && #[trigger] hay.subrange(i, i + needle.len())
            == needle
}

/// `needle` occurs in `hay` up to ASCII case.
pub open spec fn contains_seq_ci(hay: Seq<u8>, needle: Seq<u8>) -> bool {
    contains_seq(lower_bytes(hay), lower_bytes(needle))
}

/// Exec counterpart of [`ascii_lower`].
pub fn ascii_lower_byte(b: u8) -> (r: u8)
    ensures
        r == ascii_lower(b),
{
    if 0x41 <= b && b <= 0x5a {
        b + 0x20
    } else {
        b
    }
}

/// Folds a byte slice to ASCII lower case.
pub fn lower_bytes_of(s: &[u8]) -> (r: Vec<u8>)
    ensures
        r@ == lower_bytes(s@),
{
    let mut out: Vec<u8> = Vec::new();
    let n = s.len();
    for i in 0..n
        invariant
            n == s@.len(),
            out@ =~= lower_bytes(s@).take(i as int),
    {
        out.push(ascii_lower_byte(s[i]));
        assert(out@ =~= lower_bytes(s@).take(i + 1));
    }
    assert(lower_bytes(s@).take(n as int) =~= lower_bytes(s@));
    out
}

/// The bytes of `needle` stand at offset `i` of `hay`.
fn matches_at(hay: &[u8], i: usize, needle: &[u8]) -> (r: bool)
    requires
        i + needle@.len() <= hay@.len(),
    ensures
        r == (hay@.subrange(i as int, i + needle@.len()) =~= needle@),
{
    let m = needle.len();
    let n = hay.len();
    for j in 0..m
        invariant
            i + m <= n,
            n == hay@.len(),
            m == needle@.len(),
            forall|k: int| 0 <= k < j ==> hay@[i + k] == needle@[k],
    {
        if hay[i + j] != needle[j] {
            assert(hay@.subrange(i as int, i + m) =~= needle@ ==> hay@[i + j] == needle@[j as int]);
            return false;
        }
    }
    assert(hay@.subrange(i as int, i + m) =~= needle@);
    true
}

/// Whether `needle` occurs as a contiguous run of bytes in `hay`.
pub fn contains_bytes(hay: &[u8], needle: &[u8]) -> (r: bool)
    ensures
        r == contains_seq(hay@, needle@),
{
    let n = hay.len();
    let m = needle.len();
    if m > n {
        assert(!contains_seq(hay@, needle@));
        return false;
    }
    let end = n - m;
    let mut i: usize = 0;
    while i <= end
        invariant
            m <= n,
            end == n - m,
            n == hay@.len(),
            m == needle@.len(),
            forall|k: int|
                0 <= k < i ==> #[trigger] hay@.subrange(k, k + needle@.len()) != needle@,
        decreases end - i + 1,
    {
        if matches_at(hay, i, needle) {
            return true;
        }
        i = i + 1;
    }
    false
}

/// Case-insensitive ASCII containment on byte slices.
pub fn contains_bytes_ci(hay: &[u8], needle: &[u8]) -> (r: bool)
    ensures
        r == contains_seq_ci(hay@, needle@),
{
    let h = lower_bytes_of(hay);
    let n = lower_bytes_of(needle);
    contains_bytes(h.as_slice(), n.as_slice())
}

/// Whether the text of `hay` contains the text of `needle`.
pub fn str_contains(hay: &str, needle: &str) -> (r: bool)
    ensures
        r == contains_seq(str_bytes(hay@), str_bytes(needle@)),
{
    contains_bytes(hay.as_bytes(), needle.as_bytes())
}

/// Whether the text of `hay` contains the text of `needle`, up to ASCII case.
pub fn str_contains_ci(hay: &str, needle: &str) -> (r: bool)
    ensures
        r == contains_seq_ci(str_bytes(hay@), str_bytes(needle@)),
{
    contains_bytes_ci(hay.as_bytes(), needle.as_bytes())
}

/// `s` begins with `prefix`.
pub open spec fn starts_with_seq(s: Seq<u8>, prefix: Seq<u8>) -> bool {
    prefix.len() <= s.len() && s.subrange(0, prefix.len() as int) == prefix
}

/// `s` ends with `suffix`.
pub open spec fn ends_with_seq(s: Seq<u8>, suffix: Seq<u8>) -> bool {
    suffix.len() <= s.len() && s.subrange(s.len() - suffix.len(), s.len() as int) == suffix
}

/// Whether the text of `s` starts with the text of `prefix`.
pub fn str_starts_with(s: &str, prefix: &str) -> (r: bool)
    ensures
        r == starts_with_seq(str_bytes(s@), str_bytes(prefix@)),
{
    let sb = s.as_bytes();
    let pb = prefix.as_bytes();
    if pb.len() > sb.len() {
        return false;
    }
    matches_at(sb, 0, pb)
}

/// Whether the text of `s` ends with the text of `suffix`, up to ASCII case.
pub fn str_ends_with_ci(s: &str, suffix: &str) -> (r: bool)
    ensures
        r == ends_with_seq(lower_bytes(str_bytes(s@)), lower_bytes(str_bytes(suffix@))),
{
    let sb = lower_bytes_of(s.as_bytes());
    let xb = lower_bytes_of(suffix.as_bytes());
    if xb.len() > sb.len() {
        return false;
    }
    let off = sb.len() - xb.len();
    let r = matches_at(sb.as_slice(), off, xb.as_slice());
    assert(sb@.subrange(off as int, off + xb@.len()) =~= sb@.subrange(
        sb@.len() - xb@.len(),
        sb@.len() as int,
    ));
    r
}

/// The two texts are equal up to ASCII case.
pub fn str_eq_ci(a: &str, b: &str) -> (r: bool)
    ensures
        r == (lower_bytes(str_bytes(a@)) == lower_bytes(str_bytes(b@))),
{
    let ab = lower_bytes_of(a.as_bytes());
    let bb = lower_bytes_of(b.as_bytes());
    if ab.len() != bb.len() {
        return false;
    }
    let r = matches_at(ab.as_slice(), 0, bb.as_slice());
    assert(ab@.subrange(0, ab@.len() as int) =~= ab@);
    if r {
        assert(lower_bytes(str_bytes(a@)) =~= lower_bytes(str_bytes(b@)));
    }
    r
}

/// Index of the first occurrence of `b` in `s`, if any.
pub fn find_byte(s: &[u8], b: u8) -> (r: Option<usize>)
    ensures
        match r {
            Some(i) => i < s@.len() && s@[i as int] == b && forall|k: int|
                0 <= k < i ==> s@[k] != b,
            None => forall|k: int| 0 <= k < s@.len() ==> s@[k] != b,
        },
{
    let n = s.len();
    for i in 0..n
        invariant
            n == s@.len(),
            forall|k: int| 0 <= k < i ==> s@[k] != b,
    {
        if s[i] == b {
            return Some(i);
        }
    }
    None
}

/// Index of the last occurrence of `b` in `s`, if any.
pub fn rfind_byte(s: &[u8], b: u8) -> (r: Option<usize>)
    ensures
        match r {
            Some(i) => i < s@.len() && s@[i as int] == b && forall|k: int|
                i < k < s@.len() ==> s@[k] != b,
            None => forall|k: int| 0 <= k < s@.len() ==> s@[k] != b,
        },
{
    let n = s.len();
    let mut i: usize = n;
    while i > 0
        invariant
            n == s@.len(),
            i <= n,
            forall|k: int| i <= k < s@.len() ==> s@[k] != b,
        decreases i,
    {
        i = i - 1;
        if s[i] == b {
            return Some(i);
        }
    }
    None
}

/// Decimal digit characters of `n`, most significant first.
pub open spec fn dec_str(n: nat) -> Seq<char>
    decreases n,
{
    if n < 10 {
        seq![digit_char(n)]
    } else {
        dec_str(n / 10) + seq![digit_char(n % 10)]
    }
}

/// The character for one decimal digit.
pub open spec fn digit_char(d: nat) -> char {
    if d == 0 {
        '0'
    } else if d == 1 {
        '1'
    } else if d == 2 {
        '2'
    } else if d == 3 {
        '3'
    } else if d == 4 {
        '4'
    } else if d == 5 {
        '5'
    } else if d == 6 {
        '6'
    } else if d == 7 {
        '7'
    } else if d == 8 {
        '8'
    } else {
        '9'
    }
}

/// One decimal digit as a string slice.
fn digit_str(d: u64) -> (r: &'static str)
    requires
        d < 10,
    ensures
        r@ == seq![digit_char(d as nat)],
{
    let r = match d {
        0 => "0",
        1 => "1",
        2 => "2",
        3 => "3",
        4 => "4",
        5 => "5",
        6 => "6",
        7 => "7",
        8 => "8",
        _ => "9",
    };
    proof {
        reveal_strlit("0");
        reveal_strlit("1");
        reveal_strlit("2");
        reveal_strlit("3");
        reveal_strlit("4");
        reveal_strlit("5");
        reveal_strlit("6");
        reveal_strlit("7");
        reveal_strlit("8");
        reveal_strlit("9");
    }
    r
}

/// Renders `n` in decimal.
pub fn u64_to_string(n: u64) -> (r: String)
    ensures
        r@ == dec_str(n as nat),
    decreases n,
{
    if n < 10 {
        digit_str(n).to_owned()
    } else {
        let mut s = u64_to_string(n / 10);
        s.append(digit_str(n % 10));
        s
    }
}

/// Renders `n` in decimal.
pub fn usize_to_string(n: usize) -> (r: String)
    ensures
        r@ == dec_str(n as nat),
{
    u64_to_string(n as u64)
}

/// UTF-8 encoding distributes over concatenation.
pub proof fn lemma_encode_concat(a: Seq<char>, b: Seq<char>)
    ensures
        encode_utf8(a + b) == encode_utf8(a) + encode_utf8(b),
    decreases a.len(),
{
    if a.len() == 0 {
        assert(a + b =~= b);
        assert(encode_utf8(a) + encode_utf8(b) =~= encode_utf8(b));
    } else {
        assert((a + b).drop_first() =~= a.drop_first() + b);
        lemma_encode_concat(a.drop_first(), b);
        assert((a + b)[0] == a[0]);
        assert(encode_utf8(a + b) =~= encode_scalar(a[0] as u32) + (encode_utf8(a.drop_first())
            + encode_utf8(b)));
        assert(encode_scalar(a[0] as u32) + (encode_utf8(a.drop_first()) + encode_utf8(b)) =~= (
        encode_scalar(a[0] as u32) + encode_utf8(a.drop_first())) + encode_utf8(b));
    }
}

/// A position that is past the end, or sits on a byte below `0x80`, is a
/// character boundary.
pub proof fn lemma_ascii_boundary(bytes: Seq<u8>, i: int)
    requires
        valid_utf8(bytes),
        0 <= i <= bytes.len(),
        i < bytes.len() ==> bytes[i] < 0x80,
    ensures
        is_char_boundary(bytes, i),
{
    broadcast use vstd::utf8::is_char_boundary_start_end_of_seq;

    if i < bytes.len() {
        vstd::utf8::is_char_boundary_iff_not_is_continuation_byte(bytes, i);
    }
}

/// The bytes of any text are valid UTF-8.
pub proof fn lemma_str_bytes_valid(s: Seq<char>)
    ensures
        valid_utf8(str_bytes(s)),
{
    broadcast use vstd::utf8::encode_utf8_valid_utf8;

}

/// Slices the text between two byte offsets that fall on character
/// boundaries (in particular, offsets bounded by ASCII bytes).
pub fn str_slice<'a>(s: &'a str, start: usize, end: usize) -> (r: &'a str)
    requires
        start <= end <= str_bytes(s@).len(),
        is_char_boundary(str_bytes(s@), start as int),
        is_char_boundary(str_bytes(s@), end as int),
    ensures
        str_bytes(r@) == str_bytes(s@).subrange(start as int, end as int),
{
    proof {
        lemma_str_bytes_valid(s@);
    }
    let (_, tail) = s.split_at(start);
    proof {
        lemma_str_bytes_valid(tail@);
        let sb = str_bytes(s@);
        let tb = str_bytes(tail@);
        assert(tb =~= sb.subrange(start as int, sb.len() as int));
        if end < sb.len() {
            vstd::utf8::is_char_boundary_iff_not_is_continuation_byte(sb, end as int);
            assert(tb[end - start] == sb[end as int]);
            lemma_ascii_boundary_from_non_continuation(tb, end as int - start);
        } else {
            broadcast use vstd::utf8::is_char_boundary_start_end_of_seq;

            assert(end - start == tb.len());
        }
    }
    let (head, _) = tail.split_at(end - start);
    proof {
        assert(str_bytes(head@) =~= str_bytes(s@).subrange(start as int, end as int));
    }
    head
}

/// The position after an ASCII byte that sits on a boundary is itself a
/// boundary.
pub proof fn lemma_boundary_after_ascii(bytes: Seq<u8>, i: int)
    requires
        valid_utf8(bytes),
        0 <= i < bytes.len(),
        is_char_boundary(bytes, i),
        bytes[i] < 0x80,
    ensures
        is_char_boundary(bytes, i + 1),
{
    broadcast use vstd::utf8::is_char_boundary_start_end_of_seq;

    if i + 1 < bytes.len() {
        let tail = bytes.subrange(i, bytes.len() as int);
        vstd::utf8::valid_utf8_split(bytes, i);
        assert(valid_utf8(tail));
        assert(vstd::utf8::length_of_first_scalar(tail) == 1);
        assert(valid_utf8(vstd::utf8::pop_first_scalar(tail)));
        assert(is_char_boundary(vstd::utf8::pop_first_scalar(tail), 0));
        assert(is_char_boundary(tail, 1));
        vstd::utf8::is_char_boundary_iff_not_is_continuation_byte(tail, 1);
        assert(!is_continuation_byte(bytes[i + 1]));
        vstd::utf8::is_char_boundary_iff_not_is_continuation_byte(bytes, i + 1);
    }
}

/// A position on a non-continuation byte is a character boundary.
proof fn lemma_ascii_boundary_from_non_continuation(bytes: Seq<u8>, i: int)
    requires
        valid_utf8(bytes),
        0 <= i < bytes.len(),
        !is_continuation_byte(bytes[i]),
    ensures
        is_char_boundary(bytes, i),
{
    vstd::utf8::is_char_boundary_iff_not_is_continuation_byte(bytes, i);
}

/// Index of the first occurrence of `needle` in `hay`, if any.
pub open spec fn first_sub(hay: Seq<u8>, needle: Seq<u8>) -> Option<int> {
    if contains_seq(hay, needle) {
        let i = choose|i: int|
            0 <= i && i + needle.len() <= hay.len() && #[trigger] hay.subrange(i, i + needle.len())
                == needle && forall|k: int|
                0 <= k < i ==> #[trigger] hay.subrange(k, k + needle.len()) != needle;
        Some(i)
    } else {
        None
    }
}

/// Index of the first occurrence of `needle` in `hay`, if any.
pub fn find_sub(hay: &[u8], needle: &[u8]) -> (r: Option<usize>)
    ensures
        match r {
            Some(i) => i + needle@.len() <= hay@.len() && hay@.subrange(i as int, i + needle@.len())
                == needle@ && forall|k: int|
                0 <= k < i ==> #[trigger] hay@.subrange(k, k + needle@.len()) != needle@,
            None => !contains_seq(hay@, needle@),
        },
        match r {
            Some(i) => first_sub(hay@, needle@) == Some(i as int),
            None => first_sub(hay@, needle@) is None,
        },
{
    let n = hay.len();
    let m = needle.len();
    if m > n {
        assert(!contains_seq(hay@, needle@));
        return None;
    }
    let end = n - m;
    let mut i: usize = 0;
    while i <= end
        invariant
            m <= n,
            end == n - m,
            n == hay@.len(),
            m == needle@.len(),
            forall|k: int| 0 <= k < i ==> #[trigger] hay@.subrange(k, k + needle@.len()) != needle@,
        decreases end - i + 1,
    {
        if matches_at(hay, i, needle) {
            proof {
                assert(hay@.subrange(i as int, i + needle@.len()) == needle@);
                assert(contains_seq(hay@, needle@));
                let j = choose|j: int|
                    0 <= j && j + needle@.len() <= hay@.len() && #[trigger] hay@.subrange(
                        j,
                        j + needle@.len(),
                    ) == needle@ && forall|k: int|
                        0 <= k < j ==> #[trigger] hay@.subrange(k, k + needle@.len()) != needle@;
                assert(!(j < i as int) && !(j > i as int));
            }
            return Some(i);
        }
        i = i + 1;
    }
    proof {
        assert forall|k: int| 0 <= k && k + needle@.len() <= hay@.len() implies #[trigger] hay@
            .subrange(k, k + needle@.len()) != needle@ by {
            assert(k < i);
        }
        assert(!contains_seq(hay@, needle@));
    }
    None
}

/// The numeric value of a run of decimal digit bytes, most significant
/// first.
pub open spec fn dec_val(s: Seq<u8>) -> int
    decreases s.len(),
{
    if s.len() == 0 {
        0
    } else {
        dec_val(s.drop_last()) * 10 + crate::wellformed::dval(s.last())
    }
}

/// All bytes of `s` are decimal digits.
pub open spec fn all_digits(s: Seq<u8>) -> bool {
    forall|i: int| 0 <= i < s.len() ==> crate::wellformed::is_digit(#[trigger] s[i])
}

/// What a strict `u16` parse of `s` yields, with 0 for anything that is not
/// a plain in-range digit run.
pub open spec fn port_of(s: Seq<u8>) -> int {
    if s.len() > 0 && all_digits(s) && dec_val(s) <= 0xffff {
        dec_val(s)
    } else {
        0
    }
}

proof fn lemma_dec_val_take_step(s: Seq<u8>, i: int)
    requires
        0 <= i < s.len(),
    ensures
        dec_val(s.take(i + 1)) == dec_val(s.take(i)) * 10 + crate::wellformed::dval(s[i]),
{
    assert(s.take(i + 1).drop_last() =~= s.take(i));
    assert(s.take(i + 1).last() == s[i]);
}

/// Parses `s` as a `u16`, yielding 0 for empty, non-digit, or out-of-range
/// input, as a strict `parse::<u16>().unwrap_or(0)` does.
pub fn parse_u16_or_zero(s: &[u8]) -> (r: u16)
    ensures
        r == port_of(s@),
{
    let n = s.len();
    if n == 0 {
        return 0;
    }
    let mut acc: u32 = 0;
    let ghost cap: int = 0x10000;
    for i in 0..n
        invariant
            n == s@.len(),
            all_digits(s@.take(i as int)),
            acc <= 0x10000,
            acc <= 0xffff ==> acc == dec_val(s@.take(i as int)),
            acc == 0x10000 ==> dec_val(s@.take(i as int)) >= 0x10000,
    {
        let b = s[i];
        if !(0x30 <= b && b <= 0x39) {
            assert(!crate::wellformed::is_digit(s@[i as int]));
            assert(!all_digits(s@));
            return 0;
        }
        proof {
            lemma_dec_val_take_step(s@, i as int);
            assert(dec_val(s@.take(i as int)) >= 0) by {
                lemma_dec_val_nonneg(s@.take(i as int));
            }
        }
        if acc > 0xffff || acc * 10 + (b - 0x30) as u32 > 0xffff {
            acc = 0x10000;
            proof {
                assert(dec_val(s@.take(i + 1)) >= 0x10000);
            }
        } else {
            acc = acc * 10 + (b - 0x30) as u32;
        }
        assert(all_digits(s@.take(i + 1)));
    }
    assert(s@.take(n as int) =~= s@);
    if acc <= 0xffff {
        acc as u16
    } else {
        assert(dec_val(s@) >= 0x10000);
        0
    }
}

/// Digit runs have non-negative value.
pub proof fn lemma_dec_val_nonneg(s: Seq<u8>)
    ensures
        all_digits(s) ==> dec_val(s) >= 0,
    decreases s.len(),
{
    if s.len() > 0 {
        lemma_dec_val_nonneg(s.drop_last());
        assert(all_digits(s) ==> all_digits(s.drop_last()));
    }
}

/// The characters of `s`, as a vector.
pub fn str_chars(s: &str) -> (r: Vec<char>)
    ensures
        r@ == s@,
{
    broadcast use vstd::string::axiom_spec_iter, vstd::string::next_postcondition;

    let mut it = s.chars();
    let mut out: Vec<char> = Vec::new();
    loop
        invariant
            out@ + it.remaining() == s@,
            it.obeys_prophetic_iter_laws(),
        ensures
            out@ == s@,
        decreases s@.len() - out@.len(),
    {
        match it.next() {
            Some(c) => {
                out.push(c);
                assert(out@ + it.remaining() =~= s@);
            },
            None => {
                assert(out@ =~= s@);
                break ;
            },
        }
    }
    out
}

/// A string holding exactly the characters of `v`.
pub fn chars_to_string(v: &[char]) -> (r: String)
    ensures
        r@ == v@,
{
    let mut out = String::new();
    let n = v.len();
    for i in 0..n
        invariant
            n == v@.len(),
            out@ =~= v@.take(i as int),
    {
        crate::wrappers::push_char(&mut out, v[i]);
        assert(out@ =~= v@.take(i + 1));
    }
    assert(v@.take(n as int) =~= v@);
    out
}

/// A decimal digit character.
pub open spec fn is_digit_char(c: char) -> bool {
    0x30 <= (c as u32) <= 0x39
}

/// The value of a decimal digit character.
pub open spec fn char_digit_val(c: char) -> int {
    (c as u32) - 0x30
}

/// Exec counterpart of [`is_digit_char`].
pub fn digit_char_test(c: char) -> (r: bool)
    ensures
        r == is_digit_char(c),
{
    let u = c as u32;
    0x30 <= u && u <= 0x39
}

/// ASCII whitespace.
pub open spec fn is_ws_char(c: char) -> bool {
    c == ' ' || c == '\t' || c == '\r' || c == '\n'
}

/// Exec counterpart of [`is_ws_char`].
pub fn ws_char_test(c: char) -> (r: bool)
    ensures
        r == is_ws_char(c),
{
    c == ' ' || c == '\t' || c == '\r' || c == '\n'
}

/// `s` without its leading ASCII whitespace.
pub open spec fn trim_start(s: Seq<char>) -> Seq<char>
    decreases s.len(),
{
    if s.len() > 0 && is_ws_char(s.first()) {
        trim_start(s.drop_first())
    } else {
        s
    }
}

/// `s` without its trailing ASCII whitespace.
pub open spec fn trim_end(s: Seq<char>) -> Seq<char>
    decreases s.len(),
{
    if s.len() > 0 && is_ws_char(s.last()) {
        trim_end(s.drop_last())
    } else {
        s
    }
}

/// `s` without leading and trailing ASCII whitespace.
pub open spec fn trim_chars(s: Seq<char>) -> Seq<char> {
    trim_end(trim_start(s))
}

/// Trims ASCII whitespace off both ends.
#[verifier::loop_isolation(false)]
pub fn trim_char_slice(v: &[char]) -> (r: Vec<char>)
    ensures
        r@ == trim_chars(v@),
{
    let n = v.len();
    let mut start: usize = 0;
    proof {
        assert(v@.skip(0) =~= v@);
    }
    while start < n && ws_char_test(v[start])
        invariant
            start <= n,
            trim_start(v@) == trim_start(v@.skip(start as int)),
        decreases n - start,
    {
        proof {
            assert(v@.skip(start as int).drop_first() =~= v@.skip(start + 1));
        }
        start = start + 1;
    }
    proof {
        if start < n {
            assert(trim_start(v@.skip(start as int)) == v@.skip(start as int));
        } else {
            assert(v@.skip(start as int) =~= Seq::<char>::empty());
        }
    }
    let mut end: usize = n;
    proof {
        assert(v@.skip(start as int).take(n - start as int) =~= v@.skip(start as int));
    }
    while end > start && ws_char_test(v[end - 1])
        invariant
            start <= end <= n,
            trim_start(v@) == v@.skip(start as int),
            trim_end(v@.skip(start as int)) == trim_end(
                v@.skip(start as int).take(end - start as int),
            ),
        decreases end,
    {
        proof {
            let cur = v@.skip(start as int).take(end - start as int);
            assert(cur.last() == v@[end - 1]);
            assert(cur.drop_last() =~= v@.skip(start as int).take(end - 1 - start as int));
        }
        end = end - 1;
    }
    proof {
        let cur = v@.skip(start as int).take(end - start as int);
        if end > start {
            assert(cur.last() == v@[end - 1]);
            assert(trim_end(cur) == cur);
        } else {
            assert(cur =~= Seq::<char>::empty());
        }
    }
    let mut out: Vec<char> = Vec::new();
    for i in start..end
        invariant
            out@ =~= v@.skip(start as int).take(i - start as int),
    {
        out.push(v[i]);
        proof {
            assert(out@ =~= v@.skip(start as int).take(i + 1 - start as int));
        }
    }
    proof {
        assert(out@ =~= trim_chars(v@));
    }
    out
}

/// ASCII case folding of one character.
pub open spec fn lower_char(c: char) -> char {
    if 0x41 <= (c as u32) <= 0x5a {
        (((c as u32) + 0x20) as u8) as char
    } else {
        c
    }
}

/// Exec counterpart of [`lower_char`].
pub fn lower_char_of(c: char) -> (r: char)
    ensures
        r == lower_char(c),
{
    let u = c as u32;
    if 0x41 <= u && u <= 0x5a {
        ((u + 0x20) as u8) as char
    } else {
        c
    }
}


/// The little-endian value of two bytes at `off`.
pub open spec fn le16(s: Seq<u8>, off: int) -> int {
    s[off] + 256 * s[off + 1]
}

/// The little-endian value of four bytes at `off`.
pub open spec fn le32(s: Seq<u8>, off: int) -> int {
    s[off] + 256 * (s[off + 1] + 256 * (s[off + 2] + 256 * s[off + 3]))
}

/// The little-endian value of eight bytes at `off`.
pub open spec fn le64(s: Seq<u8>, off: int) -> int {
    le32(s, off) + 0x100000000 * le32(s, off + 4)
}

/// Reads the little-endian `u16` at `off`.
pub fn read_le16(s: &[u8], off: usize) -> (r: u16)
    requires
        off + 2 <= s@.len(),
    ensures
        r == le16(s@, off as int),
{
    s[off] as u16 + 256 * (s[off + 1] as u16)
}

/// Reads the little-endian `u32` at `off`.
pub fn read_le32(s: &[u8], off: usize) -> (r: u32)
    requires
        off + 4 <= s@.len(),
    ensures
        r == le32(s@, off as int),
{
    s[off] as u32 + 256 * (s[off + 1] as u32 + 256 * (s[off + 2] as u32 + 256 * (s[off
        + 3] as u32)))
}

/// Reads the little-endian `u64` at `off`.
pub fn read_le64(s: &[u8], off: usize) -> (r: u64)
    requires
        off + 8 <= s@.len(),
    ensures
        r == le64(s@, off as int),
{
    let n = s.len();
    let lo = read_le32(s, off);
    let hi = read_le32(s, off + 4);
    lo as u64 + 0x100000000u64 * (hi as u64)
}

/// The four bytes of `a`, most significant first.
pub open spec fn be4(a: u32) -> Seq<u8> {
    seq![(a >> 24) as u8, ((a >> 16) & 0xff) as u8, ((a >> 8) & 0xff) as u8, (a & 0xff) as u8]
}

/// Builds the big-endian bytes of `a`.
pub fn be4_of(a: u32) -> (r: Vec<u8>)
    ensures
        r@ == be4(a),
{
    let mut v: Vec<u8> = Vec::new();
    v.push((a >> 24) as u8);
    v.push(((a >> 16) & 0xff) as u8);
    v.push(((a >> 8) & 0xff) as u8);
    v.push((a & 0xff) as u8);
    assert(v@ =~= be4(a));
    v
}

/// Big-endian byte order agrees with numeric order.
pub proof fn lemma_be4_le(a: u32, b: u32)
    ensures
        crate::sortutil::lex_le(be4(a), be4(b)) <==> a <= b,
{
    let x = be4(a);
    let y = be4(b);
    assert(x.len() == 4 && y.len() == 4);
    assert(((a >> 24) as u8) != ((b >> 24) as u8) ==> (((a >> 24) as u8) < ((b >> 24) as u8) <==> a
        < b)) by (bit_vector);
    assert(((a >> 24) as u8) == ((b >> 24) as u8) && (((a >> 16) & 0xff) as u8) != (((b >> 16)
        & 0xff) as u8) ==> ((((a >> 16) & 0xff) as u8) < (((b >> 16) & 0xff) as u8) <==> a < b))
        by (bit_vector);
    assert(((a >> 24) as u8) == ((b >> 24) as u8) && (((a >> 16) & 0xff) as u8) == (((b >> 16)
        & 0xff) as u8) && (((a >> 8) & 0xff) as u8) != (((b >> 8) & 0xff) as u8) ==> ((((a >> 8)
        & 0xff) as u8) < (((b >> 8) & 0xff) as u8) <==> a < b)) by (bit_vector);
    assert(((a >> 24) as u8) == ((b >> 24) as u8) && (((a >> 16) & 0xff) as u8) == (((b >> 16)
        & 0xff) as u8) && (((a >> 8) & 0xff) as u8) == (((b >> 8) & 0xff) as u8) ==> (((a
        & 0xff) as u8) <= ((b & 0xff) as u8) <==> a <= b)) by (bit_vector);
    reveal_lex(x, y);
}

/// Spells out the four comparison steps of [`crate::sortutil::lex_le`] on
/// four-byte sequences.
proof fn reveal_lex(x: Seq<u8>, y: Seq<u8>)
    requires
        x.len() == 4,
        y.len() == 4,
    ensures
        crate::sortutil::lex_le(x, y) <==> (x[0] < y[0] || (x[0] == y[0] && (x[1] < y[1] || (x[1]
            == y[1] && (x[2] < y[2] || (x[2] == y[2] && x[3] <= y[3])))))),
{
    let x1 = x.drop_first();
    let y1 = y.drop_first();
    let x2 = x1.drop_first();
    let y2 = y1.drop_first();
    let x3 = x2.drop_first();
    let y3 = y2.drop_first();
    assert(x1[0] == x[1] && x2[0] == x[2] && x3[0] == x[3]);
    assert(y1[0] == y[1] && y2[0] == y[2] && y3[0] == y[3]);
    assert(x3.drop_first().len() == 0);
    assert(crate::sortutil::lex_le(x3.drop_first(), y3.drop_first()));
    assert(crate::sortutil::lex_le(x3, y3) <==> x[3] <= y[3]);
    assert(crate::sortutil::lex_le(x2, y2) <==> (x[2] < y[2] || (x[2] == y[2] && x[3] <= y[3])));
    assert(crate::sortutil::lex_le(x1, y1) <==> (x[1] < y[1] || (x[1] == y[1] && (x[2] < y[2] || (
    x[2] == y[2] && x[3] <= y[3])))));
}

} // verus!
