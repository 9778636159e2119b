//! Trusted boundary of the library: every call into an outside crate, and
//! into the few std functions vstd gives no specification for, stands here
//! behind a small function whose contract Verus believes.  Each doc comment
//! names the outside function relied on.  `now_rfc3339` is the one
//! verified function here: it composes the trusted clock read and the
//! trusted renderer, clamping in verified code.

use vstd::prelude::*;
use crate::wellformed::{is_rfc3339, is_uuid_v4};
use crate::strutil::str_bytes;
use sha2::Digest;
use std::io::Write;

verus! {

/// What SHA-256 digests to; a function of the input bytes alone.
pub uninterp spec fn sha256_of(data: Seq<u8>) -> Seq<u8>;

/// What chrono renders a Unix timestamp as, in RFC 3339; `None` where the
/// instant is outside chrono's representable range.
pub uninterp spec fn rfc3339_of_unix(secs: int) -> Option<Seq<char>>;

/// What std decodes a UTF-16 code-unit sequence to; `None` on unpaired
/// surrogates.
pub uninterp spec fn utf16_decode(units: Seq<u16>) -> Option<Seq<char>>;

/// The current instant as RFC 3339, proved from the two trusted clock
/// primitives below: the clock reading is clamped into the
/// four-digit-year range before rendering, so the guarantee holds even
/// under a hostile host clock set outside years 1970-9999.
pub fn now_rfc3339() -> (r: String)
    ensures
        is_rfc3339(str_bytes(r@)),
{
    let now = unix_now_secs();
    let secs: i64 = if now < 0 {
        0
    } else if now > MAX_RFC3339_UNIX_SECS {
        MAX_RFC3339_UNIX_SECS
    } else {
        now
    };
    match unix_secs_to_rfc3339(secs) {
        Some(t) => t,
        None => String::new(),
    }
}

/// Relies on uuid: `Uuid::new_v4()` is a version-4 RFC 4122 UUID, and its
/// `to_string` renders the hyphenated lower-case 8-4-4-4-12 form.
#[verifier::external_body]
pub fn new_scan_id() -> (r: String)
    ensures
        is_uuid_v4(str_bytes(r@)),
{
    uuid::Uuid::new_v4().to_string()
}

/// Largest Unix second whose rendering keeps a four-digit year:
/// 9999-12-31T23:59:59 UTC.
pub const MAX_RFC3339_UNIX_SECS: i64 = 253402300799;

/// Relies on chrono: within `0 ..= MAX_RFC3339_UNIX_SECS` the instant is
/// representable, so `DateTime::<Utc>::from_timestamp(secs, 0)` is `Some`,
/// and `to_rfc3339` renders it with a four-digit zero-padded year and
/// numeric zone; the result depends on `secs` alone.  Outside that range
/// chrono writes the year with a sign and more digits, so callers clamp.
#[verifier::external_body]
pub fn unix_secs_to_rfc3339(secs: i64) -> (r: Option<String>)
    requires
        0 <= secs <= MAX_RFC3339_UNIX_SECS,
    ensures
        r is Some,
        r.deep_view() == rfc3339_of_unix(secs as int),
        r matches Some(s) ==> is_rfc3339(str_bytes(s@)),
{
    chrono::DateTime::<chrono::Utc>::from_timestamp(secs, 0).map(|dt| dt.to_rfc3339())
}

/// Relies on chrono: parses `start` per RFC 3339 and measures to
/// `Utc::now()` in signed milliseconds; `None` where `start` does not
/// parse.  The result depends on the clock.
#[verifier::external_body]
pub fn elapsed_ms_since(start: &str) -> Option<i64> {
    match chrono::DateTime::parse_from_rfc3339(start) {
        Ok(t) => {
            let d = chrono::Utc::now().signed_duration_since(t.with_timezone(&chrono::Utc));
            Some(d.num_milliseconds())
        },
        Err(_) => None,
    }
}

/// Relies on chrono: `Utc::now().timestamp()` is the clock's seconds since
/// the Unix epoch.
#[verifier::external_body]
pub fn unix_now_secs() -> i64 {
    chrono::Utc::now().timestamp()
}

/// Relies on sysinfo: `System::boot_time()` is the boot instant in seconds
/// since the Unix epoch, as the OS reports it.
#[verifier::external_body]
pub fn boot_time_secs() -> u64 {
    sysinfo::System::boot_time()
}

/// Relies on sysinfo: `System::name()` is the OS name, where known.
#[verifier::external_body]
pub fn system_name() -> Option<String> {
    sysinfo::System::name()
}

/// Relies on sysinfo: `System::os_version()` is the OS version, where known.
#[verifier::external_body]
pub fn system_os_version() -> Option<String> {
    sysinfo::System::os_version()
}

/// Relies on sysinfo: `System::kernel_version()` is the kernel version,
/// where known.
#[verifier::external_body]
pub fn system_kernel_version() -> Option<String> {
    sysinfo::System::kernel_version()
}

/// Relies on sysinfo: `System::host_name()` is the hostname, where known.
#[verifier::external_body]
pub fn system_host_name() -> Option<String> {
    sysinfo::System::host_name()
}

/// Relies on sha2: `Sha256` digests to exactly 32 bytes, a function of the
/// input alone.
#[verifier::external_body]
pub fn sha256_digest(data: &[u8]) -> (r: Vec<u8>)
    ensures
        r@ == sha256_of(data@),
        r@.len() == 32,
{
    let mut hasher = sha2::Sha256::new();
    hasher.update(data);
    hasher.finalize().to_vec()
}

/// Relies on hex: `encode` renders each byte as two lower-case hex digits,
/// in order.
#[verifier::external_body]
pub fn hex_lower(data: &[u8]) -> (r: String)
    ensures
        r@ == crate::wellformed::hex_str(data@),
{
    hex::encode(data)
}

/// Relies on std's `String::from_utf16`: `Ok` exactly when the units decode,
/// to the decoded characters.
#[verifier::external_body]
pub fn utf16_to_string(units: &[u16]) -> (r: Option<String>)
    ensures
        r.deep_view() == utf16_decode(units@),
{
    String::from_utf16(units).ok()
}

/// Relies on std's `String::from_utf8`: `Ok` exactly on valid UTF-8, and the
/// returned string holds those very bytes.
#[verifier::external_body]
pub fn string_from_utf8(bytes: Vec<u8>) -> (r: Option<String>)
    ensures
        r is Some <==> vstd::utf8::valid_utf8(bytes@),
        r matches Some(s) ==> str_bytes(s@) == bytes@,
{
    String::from_utf8(bytes).ok()
}

/// Relies on std's `String::push`: appends exactly the one character.
#[verifier::external_body]
pub fn push_char(s: &mut String, c: char)
    ensures
        final(s)@ == old(s)@ + seq![c],
{
    s.push(c);
}

/// Relies on std's `io::stderr`: writes the line to standard error, touching
/// nothing else.
#[verifier::external_body]
pub fn stderr_line(line: &str) {
    let _ = writeln!(std::io::stderr(), "{}", line);
}

} // verus!
