//! Validity of the identifier and timestamp strings the report carries:
//! version-4 UUIDs in the hyphenated 8-4-4-4-12 form, RFC 3339 date-times,
//! and lower-case hex strings.  Specs are stated over UTF-8 bytes.

use vstd::prelude::*;

verus! {

/// An ASCII decimal digit.
pub open spec fn is_digit(b: u8) -> bool {
    0x30 <= b <= 0x39
}

/// The value of one ASCII decimal digit.
pub open spec fn dval(b: u8) -> int {
    b - 0x30
}

/// The value of the two-digit number at offset `i`.
pub open spec fn num2(s: Seq<u8>, i: int) -> int {
    dval(s[i]) * 10 + dval(s[i + 1])
}

/// A lower-case ASCII hex digit.
pub open spec fn is_lower_hex_digit(b: u8) -> bool {
    is_digit(b) || 0x61 <= b <= 0x66
}

/// Every byte of `s` is a lower-case hex digit.
pub open spec fn is_lower_hex(s: Seq<u8>) -> bool {
    forall|i: int| 0 <= i < s.len() ==> is_lower_hex_digit(#[trigger] s[i])
}

/// Leap years of the proleptic Gregorian calendar.
pub open spec fn is_leap_year(y: int) -> bool {
    y % 4 == 0 && (y % 100 != 0 || y % 400 == 0)
}

/// Days in month `m` of year `y`, months numbered from 1.
pub open spec fn days_in_month(y: int, m: int) -> int {
    if m == 2 {
        if is_leap_year(y) {
            29
        } else {
            28
        }
    } else if m == 4 || m == 6 || m == 9 || m == 11 {
        30
    } else {
        31
    }
}

/// The four-digit year at the start of `s`.
pub open spec fn year_of(s: Seq<u8>) -> int {
    dval(s[0]) * 1000 + dval(s[1]) * 100 + dval(s[2]) * 10 + dval(s[3])
}

/// The fixed 19-byte `YYYY-MM-DDTHH:MM:SS` prefix of an RFC 3339 date-time,
/// with a calendar-valid date and in-range time of day (second 60 admits a
/// leap second).
pub open spec fn date_time_ok(s: Seq<u8>) -> bool {
    &&& is_digit(s[0]) && is_digit(s[1]) && is_digit(s[2]) && is_digit(s[3])
    &&& s[4] == 0x2d && s[7] == 0x2d
    &&& is_digit(s[5]) && is_digit(s[6]) && is_digit(s[8]) && is_digit(s[9])
    &&& s[10] == 0x54
    &&& is_digit(s[11]) && is_digit(s[12]) && is_digit(s[14]) && is_digit(s[15]) && is_digit(
        s[17],
    ) && is_digit(s[18])
    &&& s[13] == 0x3a && s[16] == 0x3a
    &&& 1 <= num2(s, 5) <= 12
    &&& 1 <= num2(s, 8) <= days_in_month(year_of(s), num2(s, 5))
    &&& num2(s, 11) <= 23
    &&& num2(s, 14) <= 59
    &&& num2(s, 17) <= 60
}

/// A fractional-second part occupying `s[19 .. j)`: either absent or a dot
/// followed by at least one digit.
pub open spec fn frac_ok(s: Seq<u8>, j: int) -> bool {
    j == 19 || (j > 20 && s[19] == 0x2e && forall|k: int| 20 <= k < j ==> is_digit(#[trigger] s[k]))
}

/// A numeric or `Z` offset occupying `s[j ..]`.
pub open spec fn offset_ok(s: Seq<u8>, j: int) -> bool {
    ||| (j + 1 == s.len() && (s[j] == 0x5a || s[j] == 0x7a))
    ||| (j + 6 == s.len() && (s[j] == 0x2b || s[j] == 0x2d) && is_digit(s[j + 1]) && is_digit(
        s[j + 2],
    ) && s[j + 3] == 0x3a && is_digit(s[j + 4]) && is_digit(s[j + 5]) && num2(s, j + 1) <= 23
        && num2(s, j + 4) <= 59)
}

/// The UTF-8 bytes of an RFC 3339 date-time with explicit zone:
/// `YYYY-MM-DDTHH:MM:SS`, an optional second fraction, then `Z` or `±HH:MM`.
pub open spec fn is_rfc3339(s: Seq<u8>) -> bool {
    s.len() >= 20 && date_time_ok(s) && exists|j: int|
        19 <= j <= s.len() && #[trigger] frac_ok(s, j) && offset_ok(s, j)
}

/// The hyphen positions of the 8-4-4-4-12 form.
pub open spec fn uuid_sep(i: int) -> bool {
    i == 8 || i == 13 || i == 18 || i == 23
}

/// An ASCII hex digit of either case.
pub open spec fn is_hex_digit(b: u8) -> bool {
    is_digit(b) || 0x61 <= b <= 0x66 || 0x41 <= b <= 0x46
}

/// The UTF-8 bytes of a UUID in the standard hyphenated 8-4-4-4-12 form,
/// hex digits of either case, any version.
pub open spec fn is_uuid_hyphenated(s: Seq<u8>) -> bool {
    &&& s.len() == 36
    &&& forall|i: int| 0 <= i < 36 && uuid_sep(i) ==> (#[trigger] s[i]) == 0x2d
    &&& forall|i: int| 0 <= i < 36 && !uuid_sep(i) ==> is_hex_digit(#[trigger] s[i])
}

/// The UTF-8 bytes of a version-4 UUID in hyphenated lower-case
/// 8-4-4-4-12 form, with the RFC 4122 variant bits.
pub open spec fn is_uuid_v4(s: Seq<u8>) -> bool {
    &&& s.len() == 36
    &&& forall|i: int| 0 <= i < 36 && uuid_sep(i) ==> (#[trigger] s[i]) == 0x2d
    &&& forall|i: int| 0 <= i < 36 && !uuid_sep(i) ==> is_lower_hex_digit(#[trigger] s[i])
    &&& s[14] == 0x34
    &&& (s[19] == 0x38 || s[19] == 0x39 || s[19] == 0x61 || s[19] == 0x62)
}

/// A version-4 UUID rendering is in particular in the hyphenated shape
/// that report validation asks for: lower-case hex digits are hex digits.
pub proof fn lemma_uuid_v4_hyphenated(s: Seq<u8>)
    requires
        is_uuid_v4(s),
    ensures
        is_uuid_hyphenated(s),
{
}

/// Exec counterpart of [`is_digit`].
pub fn digit(b: u8) -> (r: bool)
    ensures
        r == is_digit(b),
{
    0x30 <= b && b <= 0x39
}

/// Value of the two-digit number at offset `i`.
fn read_num2(s: &[u8], i: usize) -> (r: u32)
    requires
        i + 2 <= s@.len(),
        is_digit(s@[i as int]),
        is_digit(s@[i as int + 1]),
    ensures
        r == num2(s@, i as int),
{
    (s[i] - 0x30) as u32 * 10 + (s[i + 1] - 0x30) as u32
}

/// Exec counterpart of [`days_in_month`].
fn days_in_month_of(y: u32, m: u32) -> (r: u32)
    requires
        1 <= m <= 12,
    ensures
        r == days_in_month(y as int, m as int),
{
    if m == 2 {
        if y % 4 == 0 && (y % 100 != 0 || y % 400 == 0) {
            29
        } else {
            28
        }
    } else if m == 4 || m == 6 || m == 9 || m == 11 {
        30
    } else {
        31
    }
}

/// Whether `s` is an RFC 3339 date-time, per [`is_rfc3339`].
pub fn check_rfc3339(s: &str) -> (r: bool)
    ensures
        r == is_rfc3339(crate::strutil::str_bytes(s@)),
{
    let b = s.as_bytes();
    let n = b.len();
    if n < 20 {
        return false;
    }
    // The fixed date-time prefix.
    if !(digit(b[0]) && digit(b[1]) && digit(b[2]) && digit(b[3]) && b[4] == 0x2d && digit(b[5])
        && digit(b[6]) && b[7] == 0x2d && digit(b[8]) && digit(b[9]) && b[10] == 0x54 && digit(
        b[11],
    ) && digit(b[12]) && b[13] == 0x3a && digit(b[14]) && digit(b[15]) && b[16] == 0x3a && digit(
        b[17],
    ) && digit(b[18])) {
        return false;
    }
    let year = read_num2(b, 0) * 100 + read_num2(b, 2);
    assert(year == year_of(b@));
    let month = read_num2(b, 5);
    if !(1 <= month && month <= 12) {
        return false;
    }
    let day = read_num2(b, 8);
    if !(1 <= day && day <= days_in_month_of(year, month)) {
        return false;
    }
    if !(read_num2(b, 11) <= 23 && read_num2(b, 14) <= 59 && read_num2(b, 17) <= 60) {
        return false;
    }
    // The optional second fraction: a dot and at least one digit.
    let mut j: usize = 19;
    if b[19] == 0x2e {
        let mut k: usize = 20;
        while k < n && digit(b[k])
            invariant
                20 <= k <= n,
                n == b@.len(),
                forall|t: int| 20 <= t < k ==> is_digit(#[trigger] b@[t]),
            decreases n - k,
        {
            k = k + 1;
        }
        if k == 20 {
            proof {
                assert forall|jj: int| 19 <= jj <= b@.len() implies !(#[trigger] frac_ok(b@, jj)
                    && offset_ok(b@, jj)) by {
                    if frac_ok(b@, jj) {
                        if jj == 19 {
                            assert(b@[19] == 0x2e);
                            assert(!offset_ok(b@, 19));
                        } else {
                            assert(jj > 20 && is_digit(b@[20]));
                        }
                    }
                }
            }
            return false;
        }
        j = k;
    }
    // The zone offset at `j`.
    let ok = if j == n - 1 && (b[j] == 0x5a || b[j] == 0x7a) {
        true
    } else if j == n - 6 && (b[j] == 0x2b || b[j] == 0x2d) && digit(b[j + 1]) && digit(b[j + 2])
        && b[j + 3] == 0x3a && digit(b[j + 4]) && digit(b[j + 5]) {
        read_num2(b, j + 1) <= 23 && read_num2(b, j + 4) <= 59
    } else {
        false
    };
    proof {
        if ok {
            assert(frac_ok(b@, j as int) && offset_ok(b@, j as int));
        } else {
            assert forall|jj: int| 19 <= jj <= b@.len() implies !(#[trigger] frac_ok(b@, jj)
                && offset_ok(b@, jj)) by {
                if frac_ok(b@, jj) && offset_ok(b@, jj) {
                    if jj == j {
                    } else if b@[19] != 0x2e {
                        assert(jj == 19);
                    } else if jj == 19 {
                        assert(b@[19] == 0x2e);
                    } else if jj < j {
                        assert(20 < jj < j);
                        assert(is_digit(b@[jj]));
                    } else {
                        assert(j < jj <= b@.len());
                        assert(j < b@.len() && !is_digit(b@[j as int]));
                        assert(is_digit(b@[j as int]));
                    }
                }
            }
        }
    }
    ok
}

/// Whether `s` is a UUID in the standard hyphenated form, either case,
/// per [`is_uuid_hyphenated`].
pub fn check_uuid_hyphenated(s: &str) -> (r: bool)
    ensures
        r == is_uuid_hyphenated(crate::strutil::str_bytes(s@)),
{
    let b = s.as_bytes();
    assert(b@ == crate::strutil::str_bytes(s@));
    if b.len() != 36 {
        return false;
    }
    for i in 0..36usize
        invariant
            b@ == crate::strutil::str_bytes(s@),
            b@.len() == 36,
            forall|t: int| 0 <= t < i && uuid_sep(t) ==> (#[trigger] b@[t]) == 0x2d,
            forall|t: int| 0 <= t < i && !uuid_sep(t) ==> is_hex_digit(#[trigger] b@[t]),
    {
        let c = b[i];
        if i == 8 || i == 13 || i == 18 || i == 23 {
            if c != 0x2d {
                proof {
                    if is_uuid_hyphenated(b@) {
                        assert(uuid_sep(i as int));
                        assert(b@[i as int] == 0x2d);
                        assert(false);
                    }
                }
                return false;
            }
        } else {
            if !(digit(c) || (0x61 <= c && c <= 0x66) || (0x41 <= c && c <= 0x46)) {
                proof {
                    if is_uuid_hyphenated(b@) {
                        assert(!uuid_sep(i as int));
                        assert(is_hex_digit(b@[i as int]));
                        assert(false);
                    }
                }
                return false;
            }
        }
    }
    true
}

/// Whether `s` is a hyphenated lower-case version-4 UUID, per [`is_uuid_v4`].
pub fn check_uuid_v4(s: &str) -> (r: bool)
    ensures
        r == is_uuid_v4(crate::strutil::str_bytes(s@)),
{
    let b = s.as_bytes();
    assert(b@ == crate::strutil::str_bytes(s@));
    if b.len() != 36 {
        return false;
    }
    for i in 0..36usize
        invariant
            b@ == crate::strutil::str_bytes(s@),
            b@.len() == 36,
            forall|t: int| 0 <= t < i && uuid_sep(t) ==> (#[trigger] b@[t]) == 0x2d,
            forall|t: int| 0 <= t < i && !uuid_sep(t) ==> is_lower_hex_digit(#[trigger] b@[t]),
    {
        let c = b[i];
        if i == 8 || i == 13 || i == 18 || i == 23 {
            if c != 0x2d {
                proof {
                    if is_uuid_v4(b@) {
                        assert(uuid_sep(i as int));
                        assert(b@[i as int] == 0x2d);
                        assert(false);
                    }
                }
                return false;
            }
        } else {
            if !(digit(c) || (0x61 <= c && c <= 0x66)) {
                proof {
                    if is_uuid_v4(b@) {
                        assert(!uuid_sep(i as int));
                        assert(is_lower_hex_digit(b@[i as int]));
                        assert(false);
                    }
                }
                return false;
            }
        }
    }
    b[14] == 0x34 && (b[19] == 0x38 || b[19] == 0x39 || b[19] == 0x61 || b[19] == 0x62)
}

/// Lower-case hex characters of one byte.
pub open spec fn hex_pair(b: u8) -> Seq<char> {
    seq![hex_char(b / 16), hex_char(b % 16)]
}

/// Lower-case hex rendering of a byte sequence, two digits per byte.
pub open spec fn hex_str(s: Seq<u8>) -> Seq<char>
    decreases s.len(),
{
    if s.len() == 0 {
        seq![]
    } else {
        hex_pair(s.first()) + hex_str(s.drop_first())
    }
}

/// The lower-case hex character for the value `d`.
pub open spec fn hex_char(d: u8) -> char {
    if d < 10 {
        crate::strutil::digit_char(d as nat)
    } else if d == 10 {
        'a'
    } else if d == 11 {
        'b'
    } else if d == 12 {
        'c'
    } else if d == 13 {
        'd'
    } else if d == 14 {
        'e'
    } else {
        'f'
    }
}

/// A character that is a lower-case ASCII hex digit.
pub open spec fn is_lower_hex_char(c: char) -> bool {
    0x30 <= (c as u32) <= 0x39 || 0x61 <= (c as u32) <= 0x66
}

/// Every character of `s` is a lower-case hex digit.
pub open spec fn is_lower_hex_chars(s: Seq<char>) -> bool {
    forall|i: int| 0 <= i < s.len() ==> is_lower_hex_char(#[trigger] s[i])
}

/// Hex rendering doubles the length, and every character is a lower-case
/// hex digit.
pub proof fn lemma_hex_str_shape(s: Seq<u8>)
    ensures
        hex_str(s).len() == 2 * s.len(),
        is_lower_hex_chars(hex_str(s)),
    decreases s.len(),
{
    if s.len() > 0 {
        lemma_hex_str_shape(s.drop_first());
        assert(is_lower_hex_char(hex_char(s.first() / 16)));
        assert(is_lower_hex_char(hex_char(s.first() % 16)));
        assert forall|i: int| 0 <= i < hex_str(s).len() implies is_lower_hex_char(
            #[trigger] hex_str(s)[i],
        ) by {
            if i >= 2 {
                assert(hex_str(s)[i] == hex_str(s.drop_first())[i - 2]);
            }
        }
    }
}

} // verus!
