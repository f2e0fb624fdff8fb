use vstd::prelude::*;

use crate::num::first_at;
use crate::num::parse_i64_spec;

verus! {

/// The year the game clock starts in.
pub const GAME_START_YEAR: i32 = 1929;

/// The long-form month/day/year rendering of the calendar date `y-m-d` plus
/// `days` days. The rendering is a fixed function of these four integers; its
/// text is produced by the calendar library and is not spelled out here.
pub uninterp spec fn rendered_offset_date(y: int, m: int, d: int, days: int) -> Seq<char>;

/// Relies on chrono: `NaiveDate::from_ymd_opt` builds the start date,
/// `TimeDelta::try_days` and `NaiveDate::checked_add_signed` add the day
/// offset with range checks instead of panics, and `format("%B %d, %Y")`
/// renders the result, e.g. "February 15, 1929". Each step depends on the
/// four integers alone, and chrono's documented date range (about year
/// -262143 to 262142) covers every input the success clause admits.
#[verifier::external_body]
fn render_offset_date(y: i32, m: u32, d: u32, days: i64) -> (r: Option<String>)
    ensures
        r matches Option::Some(s) ==> s@ == rendered_offset_date(
            y as int,
            m as int,
            d as int,
            days as int,
        ),
        1583 <= y <= 9999 && 1 <= m <= 12 && 1 <= d <= 28 && -1000000 <= days <= 1000000
            ==> r is Some,
{
    let start = chrono::NaiveDate::from_ymd_opt(y, m, d)?;
    let delta = chrono::TimeDelta::try_days(days)?;
    let end = start.checked_add_signed(delta)?;
    Some(end.format("%B %d, %Y").to_string())
}

/// The day count encoded in an elapsed-time string: its leading dot-delimited
/// segment read as a signed integer, zero when absent or unreadable.
pub open spec fn day_count_of(s: Seq<char>) -> int {
    match parse_i64_spec(s.take(first_at(s, '.'))) {
        Option::Some(v) => v as int,
        Option::None => 0,
    }
}

/// The day count actually applied to the calendar: an astronomically large
/// count is treated like an unreadable one.
pub open spec fn effective_day_count(s: Seq<char>) -> int {
    let d = day_count_of(s);
    if -1000000 <= d <= 1000000 {
        d
    } else {
        0
    }
}

/// The current in-game date for an elapsed-time encoding: the game epoch,
/// January 1 of the start year, advanced by the encoded day count.
pub open spec fn spec_current_date(s: Seq<char>) -> Seq<char> {
    rendered_offset_date(GAME_START_YEAR as int, 1, 1, effective_day_count(s))
}

/// Compute the current in-game date from an elapsed-time encoding. Malformed
/// input never fails: the day count falls back to zero.
pub fn calculate_current_date(time_passed: &str) -> (r: String)
    ensures
        r@ == spec_current_date(time_passed@),
{
    proof {
        assert(time_passed@.skip(0) =~= time_passed@);
    }
    let dot = crate::num::find_char_from(time_passed, 0, '.');
    let seg = time_passed.substring_char(0, dot);
    proof {
        assert(time_passed@.subrange(0, dot as int) =~= time_passed@.take(
            first_at(time_passed@, '.'),
        ));
    }
    let days: i64 = match crate::num::parse_i64(seg) {
        Option::Some(v) => v,
        Option::None => 0,
    };
    let eff: i64 = if -1000000 <= days && days <= 1000000 {
        days
    } else {
        0
    };
    match render_offset_date(GAME_START_YEAR, 1, 1, eff) {
        Option::Some(s) => s,
        Option::None => {
            proof {
                assert(false);
            }
            String::new()
        },
    }
}

} // verus!
