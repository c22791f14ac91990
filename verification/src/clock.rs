//! Wall-clock stamps: reading the local time is trusted, rendering it is
//! verified.

use vstd::prelude::*;
use vstd::string::StringExecFns;
use crate::text::spec_dec_padded;

verus! {

/// A local calendar time, decomposed into plain fields.
#[derive(Clone, Copy, Debug, PartialEq, Eq, Structural)]
pub struct ClockParts {
    pub year: i32,
    pub month: u8,
    pub day: u8,
    pub hour: u8,
    pub minute: u8,
    pub second: u8,
}

/// The fields describe a calendar time the clock can produce.
pub open spec fn spec_clock_parts_ok(p: ClockParts) -> bool {
    &&& -9999 <= p.year <= 9999
    &&& 1 <= p.month <= 12
    &&& 1 <= p.day <= 31
    &&& p.hour <= 23
    &&& p.minute <= 59
    &&& p.second <= 59
}

/// Relies on time::OffsetDateTime::now_local and its field accessors: the
/// local wall-clock time decomposed into calendar fields, each within its
/// calendar range; `None` when the local offset cannot be determined.
#[verifier::external_body]
pub(crate) fn local_now_parts() -> (r: Option<ClockParts>)
    ensures
        match r {
            Some(p) => spec_clock_parts_ok(p),
            None => true,
        },
{
    match time::OffsetDateTime::now_local() {
        Ok(t) => Some(ClockParts {
            year: t.year(),
            month: t.month() as u8,
            day: t.day(),
            hour: t.hour(),
            minute: t.minute(),
            second: t.second(),
        }),
        Err(_) => None,
    }
}

/// The `YYYY-MM-DD HH:MM:SS` rendering of a calendar time.
pub open spec fn spec_date_time(p: ClockParts) -> Seq<char> {
    spec_dec_padded(p.year as int, 4) + "-"@ + spec_dec_padded(p.month as int, 2) + "-"@
        + spec_dec_padded(p.day as int, 2) + " "@ + spec_dec_padded(p.hour as int, 2) + ":"@
        + spec_dec_padded(p.minute as int, 2) + ":"@ + spec_dec_padded(p.second as int, 2)
}

/// The `YYYY-MM-DD-HH-MM` rendering of a calendar time, used for dated
/// backup folders.
pub open spec fn spec_date_folder(p: ClockParts) -> Seq<char> {
    spec_dec_padded(p.year as int, 4) + "-"@ + spec_dec_padded(p.month as int, 2) + "-"@
        + spec_dec_padded(p.day as int, 2) + "-"@ + spec_dec_padded(p.hour as int, 2) + "-"@
        + spec_dec_padded(p.minute as int, 2)
}

/// Renders a calendar time as `YYYY-MM-DD HH:MM:SS`.
pub fn format_timestamp(p: ClockParts) -> (r: String)
    requires
        0 <= p.year,
    ensures
        r@ == spec_date_time(p),
{
    let mut s = crate::text::u64_to_string_padded(p.year as u64, 4);
    s.append("-");
    let mo = crate::text::u64_to_string_padded(p.month as u64, 2);
    s.append(mo.as_str());
    s.append("-");
    let d = crate::text::u64_to_string_padded(p.day as u64, 2);
    s.append(d.as_str());
    s.append(" ");
    let h = crate::text::u64_to_string_padded(p.hour as u64, 2);
    s.append(h.as_str());
    s.append(":");
    let mi = crate::text::u64_to_string_padded(p.minute as u64, 2);
    s.append(mi.as_str());
    s.append(":");
    let sec = crate::text::u64_to_string_padded(p.second as u64, 2);
    s.append(sec.as_str());
    proof {
        assert(s@ =~= spec_date_time(p));
    }
    s
}

/// Renders a calendar time as `YYYY-MM-DD-HH-MM`.
pub fn format_folder_stamp(p: ClockParts) -> (r: String)
    requires
        0 <= p.year,
    ensures
        r@ == spec_date_folder(p),
{
    let mut s = crate::text::u64_to_string_padded(p.year as u64, 4);
    s.append("-");
    let mo = crate::text::u64_to_string_padded(p.month as u64, 2);
    s.append(mo.as_str());
    s.append("-");
    let d = crate::text::u64_to_string_padded(p.day as u64, 2);
    s.append(d.as_str());
    s.append("-");
    let h = crate::text::u64_to_string_padded(p.hour as u64, 2);
    s.append(h.as_str());
    s.append("-");
    let mi = crate::text::u64_to_string_padded(p.minute as u64, 2);
    s.append(mi.as_str());
    proof {
        assert(s@ =~= spec_date_folder(p));
    }
    s
}

/// The current local time as `YYYY-MM-DD HH:MM:SS` text; fails when the
/// clock's local offset cannot be determined or the year precedes our era.
pub fn format_date_time() -> (r: Result<String, crate::error::AppError>)
    ensures
        match r {
            Ok(s) => exists|p: ClockParts|
                spec_clock_parts_ok(p) && 0 <= p.year && s@ == #[trigger] spec_date_time(p),
            Err(_) => true,
        },
{
    match local_now_parts() {
        Some(p) => {
            if p.year >= 0 {
                Ok(format_timestamp(p))
            } else {
                Err(crate::error::AppError::Validation)
            }
        },
        None => Err(crate::error::AppError::Validation),
    }
}

/// The current local time as a dated folder name, `YYYY-MM-DD-HH-MM`.
pub fn format_date_folder() -> (r: Result<String, crate::error::AppError>)
    ensures
        match r {
            Ok(s) => exists|p: ClockParts|
                spec_clock_parts_ok(p) && 0 <= p.year && s@ == #[trigger] spec_date_folder(p),
            Err(_) => true,
        },
{
    match local_now_parts() {
        Some(p) => {
            if p.year >= 0 {
                Ok(format_folder_stamp(p))
            } else {
                Err(crate::error::AppError::Validation)
            }
        },
        None => Err(crate::error::AppError::Validation),
    }
}

} // verus!
