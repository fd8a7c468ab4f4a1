//! Canonical form of the creation time stored in a secret bundle: RFC 3339
//! in UTC, whole seconds.
use vstd::prelude::*;

verus! {

/// A date-time with a UTC offset, by its calendar and clock fields.
#[derive(Debug, Clone, Copy, PartialEq, Eq)]
pub struct Timestamp {
    pub year: i32,
    pub month: u8,
    pub day: u8,
    pub hour: u8,
    pub minute: u8,
    pub second: u8,
    pub nanosecond: u32,
    pub offset_seconds: i32,
}

#[verifier::external_type_specification]
#[verifier::external_body]
pub struct ExOffsetDateTime(time::OffsetDateTime);

/// The date-time that `time::OffsetDateTime::parse` reads from `s` as
/// RFC 3339, or `None` where it reports an error.
pub uninterp spec fn rfc3339_fields(s: Seq<char>) -> Option<Timestamp>;

/// The same instant as `t` in UTC (`OffsetDateTime::checked_to_offset` to
/// `UtcOffset::UTC`), or `None` where that falls outside the range of dates
/// the crate supports.
pub uninterp spec fn utc_of(t: Timestamp) -> Option<Timestamp>;

/// The RFC 3339 text of `t` (`OffsetDateTime::format` with `Rfc3339`), or
/// `None` where the crate reports an error.
pub uninterp spec fn rfc3339_text(t: Timestamp) -> Option<Seq<char>>;

/// Reads the fields of a `time::OffsetDateTime`, one for one.
#[verifier::external_body]
fn fields_of(dt: time::OffsetDateTime) -> Timestamp {
    Timestamp {
        year: dt.year(),
        month: u8::from(dt.month()),
        day: dt.day(),
        hour: dt.hour(),
        minute: dt.minute(),
        second: dt.second(),
        nanosecond: dt.nanosecond(),
        offset_seconds: dt.offset().whole_seconds(),
    }
}

/// Builds the `time::OffsetDateTime` with the fields of `t`; `None` where the
/// crate rejects a field.
#[verifier::external_body]
fn datetime_of(t: Timestamp) -> Option<time::OffsetDateTime> {
    let date = time::Date::from_calendar_date(t.year, t.month.try_into().ok()?, t.day).ok()?;
    let clock = time::Time::from_hms_nano(t.hour, t.minute, t.second, t.nanosecond).ok()?;
    let offset = time::UtcOffset::from_whole_seconds(t.offset_seconds).ok()?;
    Some(time::PrimitiveDateTime::new(date, clock).assume_offset(offset))
}

/// `time::OffsetDateTime::parse(s, &Rfc3339)`: the result is the named
/// parse `rfc3339_fields(s)`; the RFC 3339 grammar is the crate's.
#[verifier::external_body]
fn parse_rfc3339(s: &str) -> (r: Option<Timestamp>)
    ensures
        r == rfc3339_fields(s@),
{
    time::OffsetDateTime::parse(s, &time::format_description::well_known::Rfc3339).ok().map(
        fields_of,
    )
}

/// `OffsetDateTime::checked_to_offset(UtcOffset::UTC)`: the result is the
/// named conversion `utc_of(t)`, which has offset zero; calendar arithmetic
/// is the crate's.
#[verifier::external_body]
fn to_utc(t: Timestamp) -> (r: Option<Timestamp>)
    ensures
        r == utc_of(t),
        r matches Some(u) ==> u.offset_seconds == 0,
{
    datetime_of(t)?.checked_to_offset(time::UtcOffset::UTC).map(fields_of)
}

/// `OffsetDateTime::format(&Rfc3339)`: the result is the named text
/// `rfc3339_text(t)`. The source also shows two facts of a date-time that
/// formats and has offset zero: `checked_to_offset` to UTC gives it back
/// unchanged, and, with no fractional second, the text (`...:SSZ`) parses
/// back to the same fields.
#[verifier::external_body]
fn format_rfc3339(t: Timestamp) -> (r: Option<String>)
    ensures
        match r {
            Some(s) => rfc3339_text(t) == Some(s@),
            None => rfc3339_text(t) is None,
        },
        r is Some && t.offset_seconds == 0 ==> utc_of(t) == Some(t),
        t.offset_seconds == 0 && t.nanosecond == 0 ==> (r matches Some(s) ==> rfc3339_fields(s@)
            == Some(t)),
{
    datetime_of(t)?.format(&time::format_description::well_known::Rfc3339).ok()
}

/// Why a creation time has no canonical form.
#[derive(Debug, Clone, Copy, PartialEq, Eq)]
pub enum CreatedAtError {
    /// The text is not an RFC 3339 date-time.
    Invalid,
    /// The canonical date-time cannot be written as RFC 3339.
    Format,
}

impl CreatedAtError {
    /// The error message reported for a secret bundle.
    pub fn message(&self) -> (s: String)
        ensures
            s@ == match self {
                CreatedAtError::Invalid => "invalid secret bundle created_at"@,
                CreatedAtError::Format => "format secret bundle created_at"@,
            },
    {
        match self {
            CreatedAtError::Invalid => String::from_str("invalid secret bundle created_at"),
            CreatedAtError::Format => String::from_str("format secret bundle created_at"),
        }
    }
}

/// `t` with the nanoseconds within the second set to zero.
pub open spec fn whole_seconds(t: Timestamp) -> Timestamp {
    Timestamp { nanosecond: 0, ..t }
}

/// Where the instant written as `s` can be expressed in UTC (or `s` is not a
/// date-time at all).
pub open spec fn utc_expressible(s: Seq<char>) -> bool {
    rfc3339_fields(s) matches Some(t) ==> utc_of(t) is Some
}

/// The canonical form of a creation time: the same instant in UTC with the
/// fractional seconds dropped, written as RFC 3339.
pub open spec fn canonical_created_at(s: Seq<char>) -> Result<Seq<char>, CreatedAtError> {
    match rfc3339_fields(s) {
        None => Err(CreatedAtError::Invalid),
        Some(t) => match rfc3339_text(whole_seconds(utc_of(t).unwrap())) {
            Some(text) => Ok(text),
            None => Err(CreatedAtError::Format),
        },
    }
}

/// The model of a canonicalisation result.
pub open spec fn canonical_model(r: Result<String, CreatedAtError>) -> Result<Seq<char>, CreatedAtError> {
    match r {
        Ok(s) => Ok(s@),
        Err(e) => Err(e),
    }
}

/// Canonicalise a secret bundle's `created_at`: the same instant in UTC,
/// whole seconds, RFC 3339. The canonical text is its own canonical form.
pub fn canonicalise_created_at(value: &str) -> (r: Result<String, CreatedAtError>)
    requires
        utc_expressible(value@),
    ensures
        canonical_model(r) == canonical_created_at(value@),
        r matches Ok(y) ==> utc_expressible(y@) && canonical_created_at(y@) == Ok::<
            Seq<char>,
            CreatedAtError,
        >(y@),
{
    let t = match parse_rfc3339(value) {
        Some(t) => t,
        None => return Err(CreatedAtError::Invalid),
    };
    let u = match to_utc(t) {
        Some(u) => u,
        None => return Err(CreatedAtError::Invalid),
    };
    let whole = Timestamp { nanosecond: 0, ..u };
    match format_rfc3339(whole) {
        Some(s) => Ok(s),
        None => Err(CreatedAtError::Format),
    }
}

/// Canonicalise `value` where its instant can be expressed in UTC; `None`
/// where it cannot (a date-time at the edge of the supported range whose
/// UTC form falls outside it).
pub fn try_canonicalise_created_at(value: &str) -> (r: Option<Result<String, CreatedAtError>>)
    ensures
        r is None <==> !utc_expressible(value@),
        r matches Some(x) ==> canonical_model(x) == canonical_created_at(value@),
        r matches Some(Ok(y)) ==> utc_expressible(y@) && canonical_created_at(y@) == Ok::<
            Seq<char>,
            CreatedAtError,
        >(y@),
{
    if let Some(t) = parse_rfc3339(value) {
        if to_utc(t).is_none() {
            return None;
        }
    }
    Some(canonicalise_created_at(value))
}

/// Whether a stored creation time must be written back: its canonical form
/// differs from the stored text.
pub fn needs_rewrite(stored: &str, canonical: &str) -> (b: bool)
    ensures
        b == (stored@ != canonical@),
{
    let a = String::from_str(stored);
    let c = String::from_str(canonical);
    !a.eq(&c)
}

} // verus!
