//! Durations in words: a count of seconds as a short text for progress
//! lines, such as `6.00min` or `1.00days`.
//!
//! The units are fixed lengths, not calendar units: a month is thirty days
//! and a year is twelve such months.
use crate::ratio::{hundredths, lemma_hundredths_nearest, rounded_hundredths};
use crate::text::{decimal, push_decimal, push_two_decimals, two_decimals};
use vstd::prelude::*;
use vstd::string::StringExecFns;

verus! {

/// Seconds in a minute.
pub const MINUTE: u64 = 60;

/// Seconds in an hour.
pub const HOUR: u64 = 3_600;

/// Seconds in a day.
pub const DAY: u64 = 86_400;

/// Seconds in a month of thirty days.
pub const MONTH: u64 = 2_592_000;

/// Seconds in a year of twelve months of thirty days.
pub const YEAR: u64 = 31_104_000;

/// The unit in which a duration is written.
#[derive(Clone, Copy, Debug, PartialEq, Eq, Structural)]
pub enum TimeUnit {
    Seconds,
    Minutes,
    Hours,
    Days,
    Months,
    Years,
}

impl TimeUnit {
    /// The length of the unit in seconds.
    pub open spec fn seconds(self) -> nat {
        match self {
            TimeUnit::Seconds => 1,
            TimeUnit::Minutes => MINUTE as nat,
            TimeUnit::Hours => HOUR as nat,
            TimeUnit::Days => DAY as nat,
            TimeUnit::Months => MONTH as nat,
            TimeUnit::Years => YEAR as nat,
        }
    }

    /// What follows the number in the text.
    pub open spec fn suffix(self) -> Seq<char> {
        match self {
            TimeUnit::Seconds => "s"@,
            TimeUnit::Minutes => "min"@,
            TimeUnit::Hours => "h"@,
            TimeUnit::Days => "days"@,
            TimeUnit::Months => "months"@,
            TimeUnit::Years => "y"@,
        }
    }

    /// Whether a duration of `time` seconds is written in this unit: each
    /// unit takes the durations from its own length up to the length of the
    /// next unit, seconds start at zero and years have no upper end.
    pub open spec fn covers(self, time: nat) -> bool {
        match self {
            TimeUnit::Seconds => time < MINUTE,
            TimeUnit::Minutes => MINUTE <= time < HOUR,
            TimeUnit::Hours => HOUR <= time < DAY,
            TimeUnit::Days => DAY <= time < MONTH,
            TimeUnit::Months => MONTH <= time < YEAR,
            TimeUnit::Years => YEAR <= time,
        }
    }

    /// The unit in which `time` seconds are written.
    pub open spec fn of(time: nat) -> TimeUnit {
        if time < MINUTE {
            TimeUnit::Seconds
        } else if time < HOUR {
            TimeUnit::Minutes
        } else if time < DAY {
            TimeUnit::Hours
        } else if time < MONTH {
            TimeUnit::Days
        } else if time < YEAR {
            TimeUnit::Months
        } else {
            TimeUnit::Years
        }
    }
}

/// The text for a duration of `time` seconds.
///
/// Below a minute it is the whole number of seconds and `s`. From a minute
/// on it is the duration divided by the length of its unit, rounded to two
/// decimals, and the unit's suffix.
pub open spec fn duration_text(time: nat) -> Seq<char> {
    let unit = TimeUnit::of(time);
    if unit == TimeUnit::Seconds {
        decimal(time) + unit.suffix()
    } else {
        two_decimals(hundredths(time, unit.seconds())) + unit.suffix()
    }
}

/// Writes a duration given in seconds in the largest unit that it fills.
pub fn format_time(time: u64) -> (text: String)
    ensures
        text@ == duration_text(time as nat),
{
    let mut text = String::new();
    if time < MINUTE {
        push_decimal(&mut text, time as u128);
        text.append("s");
    } else if time < HOUR {
        push_two_decimals(&mut text, rounded_hundredths(time as u128, MINUTE));
        text.append("min");
    } else if time < DAY {
        push_two_decimals(&mut text, rounded_hundredths(time as u128, HOUR));
        text.append("h");
    } else if time < MONTH {
        push_two_decimals(&mut text, rounded_hundredths(time as u128, DAY));
        text.append("days");
    } else if time < YEAR {
        push_two_decimals(&mut text, rounded_hundredths(time as u128, MONTH));
        text.append("months");
    } else {
        push_two_decimals(&mut text, rounded_hundredths(time as u128, YEAR));
        text.append("y");
    }
    text
}

/// Every duration is written in exactly one unit, and from a minute on the
/// number written is within half a hundredth of the duration divided by the
/// length of that unit.
pub proof fn lemma_duration_unit(time: nat)
    ensures
        forall|unit: TimeUnit| unit.covers(time) <==> unit == TimeUnit::of(time),
        time < MINUTE ==> duration_text(time) == decimal(time) + "s"@,
        time >= MINUTE ==> ({
            let unit = TimeUnit::of(time);
            let shown = hundredths(time, unit.seconds());
            &&& duration_text(time) == two_decimals(shown) + unit.suffix()
            &&& 2 * (shown * unit.seconds() - 100 * time) <= unit.seconds()
            &&& 2 * (100 * time - shown * unit.seconds()) <= unit.seconds()
        }),
{
    lemma_hundredths_nearest(time, TimeUnit::of(time).seconds());
}

} // verus!
