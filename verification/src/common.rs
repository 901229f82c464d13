//! Shared helpers: checksums, timestamps, C strings, and the guard that
//! every walk over untrusted offsets goes through.

use vstd::prelude::*;
use vstd::utf8::{decode_utf8, encode_utf8_decode_utf8, valid_utf8};

verus! {

/// The CRC-32 (reflected IEEE 802.3 polynomial) of `data`, continued from the
/// running value `start`.
pub uninterp spec fn crc32_checksum(start: u32, data: Seq<u8>) -> u32;

/// `crc32_v2::crc32`: the checksum of the buffer continued from `start`. The
/// function is a pure table-driven fold over the bytes, so its result is
/// named rather than restated.
#[verifier::external_body]
fn crc32_continue(start: u32, data: &[u8]) -> (crc: u32)
    ensures
        crc == crc32_checksum(start, data@),
{
    crc32_v2::crc32(start, data)
}

/// Calculates the CRC-32 checksum of `data`, starting from the value 0.
pub fn crc32(data: &[u8]) -> (crc: u32)
    ensures
        crc == crc32_checksum(0, data@),
{
    crc32_continue(0, data)
}

/// The lowest number of seconds since the Unix epoch that has a calendar
/// form: one second before 02:00 on 2 January of the year -9999.
pub const EPOCH_SECONDS_MIN: i64 = -377_705_023_201;

/// The highest number of seconds since the Unix epoch that has a calendar
/// form: 30 December 9999, 22:00:00.
pub const EPOCH_SECONDS_MAX: i64 = 253_402_207_200;

/// The format in which instants are written: `YYYY-MM-DD HH:MM:SS`.
pub const EPOCH_FORMAT: &'static str = "%Y-%m-%d %H:%M:%S";

/// The UTC calendar date and time of day of the instant `seconds` after the
/// Unix epoch, written as the `strftime` format `format` says.
pub uninterp spec fn utc_datetime_text(seconds: i64, format: Seq<char>) -> Seq<char>;

/// What `epoch_to_string` returns for `seconds`.
pub open spec fn epoch_text(seconds: i64) -> Seq<char> {
    if EPOCH_SECONDS_MIN <= seconds <= EPOCH_SECONDS_MAX {
        utc_datetime_text(seconds, EPOCH_FORMAT@)
    } else {
        Seq::empty()
    }
}

/// `jiff::Timestamp::new(seconds, 0)` followed by `strftime(format)` and
/// `to_string`. The constructor refuses exactly the seconds outside
/// `EPOCH_SECONDS_MIN..=EPOCH_SECONDS_MAX`; the formatting of a timestamp
/// is done in UTC, depends on the instant and the format alone, and is
/// documented never to fail, whatever the format.
#[verifier::external_body]
fn format_utc(seconds: i64, format: &str) -> (text: Option<String>)
    ensures
        text is Some <==> EPOCH_SECONDS_MIN <= seconds <= EPOCH_SECONDS_MAX,
        text matches Some(s) ==> s@ == utc_datetime_text(seconds, format@),
{
    match jiff::Timestamp::new(seconds, 0) {
        Ok(timestamp) => Some(timestamp.strftime(format).to_string()),
        Err(_) => None,
    }
}

/// Converts an epoch time to a formatted time string; the empty string
/// stands for an instant that has no calendar form.
pub fn epoch_to_string(epoch_timestamp: i64) -> (text: String)
    ensures
        text@ == epoch_text(epoch_timestamp),
{
    match format_utc(epoch_timestamp, EPOCH_FORMAT) {
        Some(text) => text,
        None => String::new(),
    }
}

/// Whether two byte slices hold the same bytes.
pub fn bytes_eq(a: &[u8], b: &[u8]) -> (same: bool)
    ensures
        same == (a@ == b@),
{
    if a.len() != b.len() {
        return false;
    }
    let mut i: usize = 0;
    while i < a.len()
        invariant
            i <= a.len(),
            a.len() == b.len(),
            a@.subrange(0, i as int) == b@.subrange(0, i as int),
        decreases a.len() - i,
    {
        if a[i] != b[i] {
            return false;
        }
        i = i + 1;
    }
    assert(a@ =~= a@.subrange(0, a.len() as int));
    assert(b@ =~= b@.subrange(0, b.len() as int));
    true
}

/// Whether two strings hold the same characters.
pub fn str_eq(a: &str, b: &str) -> (same: bool)
    ensures
        same == (a@ == b@),
{
    proof {
        encode_utf8_decode_utf8(a@);
        encode_utf8_decode_utf8(b@);
    }
    bytes_eq(a.as_bytes(), b.as_bytes())
}

/// The bytes of `raw` that come before its first NUL byte: all of `raw` if
/// it holds none.
pub open spec fn c_string(raw: Seq<u8>) -> Seq<u8>
    decreases raw.len(),
{
    if raw.len() == 0 || raw[0] == 0 {
        Seq::empty()
    } else {
        seq![raw[0]] + c_string(raw.subrange(1, raw.len() as int))
    }
}

/// `c_string(raw)` is the longest prefix of `raw` without a NUL byte.
pub proof fn lemma_c_string_is_prefix(raw: Seq<u8>)
    ensures
        c_string(raw).len() <= raw.len(),
        c_string(raw) == raw.subrange(0, c_string(raw).len() as int),
        forall|i: int| 0 <= i < c_string(raw).len() ==> c_string(raw)[i] != 0,
        c_string(raw).len() < raw.len() ==> raw[c_string(raw).len() as int] == 0,
    decreases raw.len(),
{
    if raw.len() == 0 || raw[0] == 0 {
    } else {
        let rest = raw.subrange(1, raw.len() as int);
        lemma_c_string_is_prefix(rest);
        let n = c_string(rest).len() as int;
    }
}

/// Gets a C-style NUL-terminated string from `raw_data`, without the
/// terminating NUL byte.
pub fn get_cstring_bytes(raw_data: &[u8]) -> (cstring: Vec<u8>)
    ensures
        cstring@ == c_string(raw_data@),
{
    let mut cstring: Vec<u8> = Vec::new();
    let mut i: usize = 0;
    proof {
        assert(raw_data@.subrange(0, raw_data@.len() as int) =~= raw_data@);
    }
    while i < raw_data.len()
        invariant
            i <= raw_data.len(),
            c_string(raw_data@) == cstring@ + c_string(
                raw_data@.subrange(i as int, raw_data@.len() as int),
            ),
        decreases raw_data.len() - i,
    {
        let ghost tail = raw_data@.subrange(i as int, raw_data@.len() as int);
        if raw_data[i] == 0 {
            return cstring;
        }
        proof {
            assert(tail.subrange(1, tail.len() as int) =~= raw_data@.subrange(
                i + 1,
                raw_data@.len() as int,
            ));
        }
        cstring.push(raw_data[i]);
        i = i + 1;
    }
    cstring
}

/// The text that `bytes` encode in UTF-8: empty if they encode none.
pub open spec fn utf8_text(bytes: Seq<u8>) -> Seq<char> {
    if valid_utf8(bytes) {
        decode_utf8(bytes)
    } else {
        Seq::empty()
    }
}

/// `String::from_utf8`: the string whose UTF-8 encoding is `bytes`, for
/// exactly the byte sequences that are valid UTF-8.
#[verifier::external_body]
fn string_from_utf8(bytes: Vec<u8>) -> (text: Option<String>)
    ensures
        text is Some <==> valid_utf8(bytes@),
        text matches Some(s) ==> s@ == decode_utf8(bytes@),
{
    String::from_utf8(bytes).ok()
}

/// Gets a C-style NUL-terminated string from `raw_data` as text. Bytes that
/// are not valid UTF-8 give the empty string.
pub fn get_cstring(raw_data: &[u8]) -> (text: String)
    ensures
        text@ == utf8_text(c_string(raw_data@)),
{
    let raw_string = get_cstring_bytes(raw_data);
    match string_from_utf8(raw_string) {
        Some(text) => text,
        None => String::new(),
    }
}

/// Returns true if the provided byte is a printable ASCII character, line
/// feed and carriage return included.
pub fn is_printable_ascii(b: u8) -> (printable: bool)
    ensures
        printable == (0x0A <= b <= 0x7E),
{
    0x0A <= b && b <= 0x7E
}

/// Whether a walk over untrusted offsets may step to `next_offset`: it must
/// lie inside the available data, and beyond the offset visited before it,
/// if there was one.
pub open spec fn offset_is_safe(
    available_data: usize,
    next_offset: usize,
    last_offset: Option<usize>,
) -> bool {
    &&& last_offset matches Some(previous_offset) ==> previous_offset < next_offset
    &&& next_offset < available_data
}

/// Validates data offsets to prevent out-of-bounds access and infinite loops
/// while parsing file formats.
pub fn is_offset_safe(available_data: usize, next_offset: usize, last_offset: Option<usize>) -> (safe:
    bool)
    ensures
        safe == offset_is_safe(available_data, next_offset, last_offset),
{
    if let Some(previous_offset) = last_offset {
        if previous_offset >= next_offset {
            return false;
        }
    }
    if next_offset >= available_data {
        return false;
    }
    true
}

/// A walk that asks for every step visits strictly increasing offsets inside
/// the data, so it takes fewer steps than there are bytes.
pub proof fn lemma_safe_offsets_advance(
    available_data: usize,
    next_offset: usize,
    previous_offset: usize,
)
    requires
        offset_is_safe(available_data, next_offset, Some(previous_offset)),
    ensures
        previous_offset < next_offset < available_data,
        available_data - next_offset < available_data - previous_offset,
{
}

} // verus!
