//! Naming of the daily archive pin of the published DID document.
use vstd::prelude::*;

use crate::text::{push_zero_padded, string_from_chars, zero_padded};
use vstd::string::StringSliceAdditionalSpecFns;

verus! {

/// The BLAKE3 hash of `data` (`blake3::hash(data).as_bytes()`).
pub uninterp spec fn blake3_of(data: Seq<u8>) -> Seq<u8>;

/// `blake3::hash(data).to_hex()`: the lowercase hexadecimal of the BLAKE3
/// hash of `data`. The contract says that the result is `hex_lower` of the
/// named hash `blake3_of(data)`, two digits per byte as `to_hex` writes them,
/// 64 digits in all; the hash function itself is left to the crate.
#[verifier::external_body]
fn blake3_hex(data: &[u8]) -> (h: String)
    ensures
        h@ == hex_lower(blake3_of(data@)),
        h@.len() == 64,
{
    blake3::hash(data).to_hex().to_string()
}

/// `time::OffsetDateTime::now_utc().date()` as (year, month, day). The
/// contract claims only the ranges of month and day; which date it is
/// depends on the clock.
#[verifier::external_body]
fn utc_today() -> (d: (i32, u8, u8))
    ensures
        1 <= d.1 <= 12,
        1 <= d.2 <= 31,
{
    let date = time::OffsetDateTime::now_utc().date();
    (date.year(), u8::from(date.month()), date.day())
}

/// The lowercase hexadecimal digit of `n < 16`.
pub open spec fn hex_digit(n: nat) -> char {
    if n < 10 {
        (48 + n) as char
    } else {
        (87 + n) as char
    }
}

/// Lowercase hexadecimal of `b`, two digits per byte.
pub open spec fn hex_lower(b: Seq<u8>) -> Seq<char>
    decreases b.len(),
{
    if b.len() == 0 {
        Seq::empty()
    } else {
        hex_lower(b.drop_last()) + seq![
            hex_digit((b.last() / 16) as nat),
            hex_digit((b.last() % 16) as nat),
        ]
    }
}

/// The archive pin name of the DID document of `did` for a service `slug` on
/// the given UTC date: `ma-zscheme-<slug>-<first 16 hex digits of the
/// BLAKE3 hash of the DID>-<yyyy>-<mm>-<dd>`.
pub open spec fn pin_name(slug: Seq<char>, did_bytes: Seq<u8>, year: int, month: nat, day: nat) -> Seq<
    char,
> {
    "ma-zscheme-"@ + slug + seq!['-'] + hex_lower(blake3_of(did_bytes)).take(16) + seq!['-']
        + zero_padded(year, 4) + seq!['-'] + zero_padded(month as int, 2) + seq!['-']
        + zero_padded(day as int, 2)
}

/// The archive pin name of the DID document of `did` for the service `slug`
/// on the given UTC date.
pub fn did_pin_name(slug: &str, did: &str, year: i32, month: u8, day: u8) -> (r: String)
    ensures
        r@ == pin_name(slug@, did.spec_bytes(), year as int, month as nat, day as nat),
{
    let hex = blake3_hex(did.as_bytes());
    let digits = crate::text::chars_of(hex.as_str());
    let mut out: Vec<char> = crate::text::chars_of("ma-zscheme-");
    let ghost lit = out@;
    let slug_chars = crate::text::chars_of(slug);
    let mut i: usize = 0;
    while i < slug_chars.len()
        invariant
            i <= slug_chars@.len(),
            out@ == lit + slug_chars@.take(i as int),
        decreases slug_chars@.len() - i,
    {
        out.push(slug_chars[i]);
        i = i + 1;
        assert(out@ =~= lit + slug_chars@.take(i as int));
    }
    assert(slug_chars@.take(slug_chars@.len() as int) =~= slug_chars@);
    out.push('-');
    let ghost before_hex = out@;
    let mut k: usize = 0;
    while k < 16
        invariant
            k <= 16,
            digits@.len() == 64,
            out@ == before_hex + digits@.take(k as int),
        decreases 16 - k,
    {
        out.push(digits[k]);
        k = k + 1;
        assert(out@ =~= before_hex + digits@.take(k as int));
    }
    out.push('-');
    push_zero_padded(year as i64, 4, &mut out);
    out.push('-');
    push_zero_padded(month as i64, 2, &mut out);
    out.push('-');
    push_zero_padded(day as i64, 2, &mut out);
    proof {
        reveal_strlit("ma-zscheme-");
    }
    assert(out@ =~= pin_name(slug@, did.spec_bytes(), year as int, month as nat, day as nat));
    string_from_chars(&out)
}

/// The archive pin name of the DID document of `did` for the service `slug`
/// on today's UTC date.
pub fn daily_did_pin_name(slug: &str, did: &str) -> (r: String)
    ensures
        exists|year: i32, month: u8, day: u8|
            1 <= month <= 12 && 1 <= day <= 31 && r@ == pin_name(
                slug@,
                did.spec_bytes(),
                year as int,
                month as nat,
                day as nat,
            ),
{
    let (year, month, day) = utc_today();
    did_pin_name(slug, did, year, month, day)
}

} // verus!
