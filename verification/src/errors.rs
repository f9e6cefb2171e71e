//! User-facing error values.  Every failure driven by input carries the
//! literal offending text, and `message` renders the exact wording shown at
//! the invocation boundary.

use vstd::prelude::*;
use vstd::string::StringExecFns;
use crate::text::{digit_char, push_char};

verus! {

/// A failure of the temporal engine or of an event lookup.
#[derive(Debug, PartialEq, Eq)]
pub enum TimeError {
    /// A stored timestamp failed to parse.
    InvalidTimestamp { literal: String },
    /// A user-supplied instant was not strict RFC 3339.
    ExpectedRfc3339 { literal: String },
    /// A date was neither strict `YYYY-MM-DD` nor a relative-day token.
    InvalidDate { literal: String },
    /// A clock time was neither `HH:MM` nor `HH:MM:SS`.
    InvalidTime { literal: String },
    /// A duration expression failed to parse.
    InvalidDuration { literal: String },
    /// A duration too large for the representable instants.
    DurationTooLarge { literal: String },
    /// Adding the requested span leaves the representable instants.
    EndOutOfRange,
    /// The default span leaves the representable instants.
    DefaultEndOutOfRange,
    /// Date arithmetic left the representable dates.
    DateOverflow,
    /// A duration combined with the all-day flag.
    DurationWithAllDay,
    /// No date supplied for an all-day event.
    MissingAllDayStart,
    /// Neither a start instant nor components supplied.
    MissingStart,
    /// No clock time available and none could be inherited.
    MissingTime,
    /// The resolved end did not lie after the resolved start.
    EndNotAfterStart,
    /// A civil time that exists twice in the active zone.
    DstAmbiguous { literal: String, first: String, second: String },
    /// A civil time that does not exist in the active zone.
    DstGap { literal: String },
    /// A display-zone name missing from the zone database.
    UnknownTimezone { literal: String },
    /// Neither an id nor a title given for a lookup.
    MissingSelector,
    /// An edit that supplies no timing field.
    NoTimingChange,
    /// No stored event carries the id.
    NotFoundById { id: i64 },
    /// No stored event carries the title.
    NotFoundByTitle { literal: String },
    /// More than one stored event carries the title.
    AmbiguousTitle { literal: String },
    /// An imported calendar property without a value.
    MissingValue { name: String },
    /// An imported date value that is not `YYYYMMDD`.
    InvalidIcsDate { literal: String },
    /// An imported datetime value that is not `YYYYMMDDTHHMMSS`.
    InvalidIcsDateTime { literal: String },
    /// An imported civil time that is not single-valued in its zone.
    AmbiguousZoneTime { literal: String, zone: String },
}

/// Decimal rendering of a non-negative number.
pub open spec fn dec_text(n: int) -> Seq<char>
    decreases n,
{
    if n < 10 {
        seq![digit_char(n)]
    } else {
        dec_text(n / 10).push(digit_char(n % 10))
    }
}

impl TimeError {
    /// Only lookup ids that a store can hold appear in errors.
    pub open spec fn wf(self) -> bool {
        self matches TimeError::NotFoundById { id } ==> id >= 0
    }

    /// The exact wording of this error.
    pub open spec fn text(self) -> Seq<char> {
        match self {
            TimeError::InvalidTimestamp { literal } => "invalid timestamp '"@ + literal@ + "'"@,
            TimeError::ExpectedRfc3339 { literal } => "expected RFC3339 timestamp, got '"@
                + literal@ + "'"@,
            TimeError::InvalidDate { literal } => "expected YYYY-MM-DD date (or relative token), got '"@
                + literal@ + "'"@,
            TimeError::InvalidTime { literal } => "expected HH:MM or HH:MM:SS time-of-day, got '"@
                + literal@ + "'"@,
            TimeError::InvalidDuration { literal } => "failed to parse duration '"@ + literal@
                + "'"@,
            TimeError::DurationTooLarge { literal } => "duration '"@ + literal@ + "' is too large"@,
            TimeError::EndOutOfRange => "duration pushes end time out of range"@,
            TimeError::DefaultEndOutOfRange => "default duration pushes end time out of range"@,
            TimeError::DateOverflow => "date overflow"@,
            TimeError::DurationWithAllDay => "--duration cannot be used with --all-day"@,
            TimeError::MissingAllDayStart => "provide --start (date) or --date for all-day events"@,
            TimeError::MissingStart => "provide --start or --date/--time to define a start instant"@,
            TimeError::MissingTime => "provide --time when --start is omitted"@,
            TimeError::EndNotAfterStart => "--end must be later than --start"@,
            TimeError::DstAmbiguous { literal, first, second } => "time '"@ + literal@
                + "' is ambiguous ("@ + first@ + " or "@ + second@ + ") due to DST"@,
            TimeError::DstGap { literal } => "time '"@ + literal@
                + "' does not exist in the current timezone (DST transition)"@,
            TimeError::UnknownTimezone { literal } => "unknown timezone '"@ + literal@ + "'"@,
            TimeError::MissingSelector => "Provide either --id or --title"@,
            TimeError::NoTimingChange => "provide --start/--date/--time/--end/--duration to adjust an event"@,
            TimeError::NotFoundById { id } => "No event found with id "@ + dec_text(id as int),
            TimeError::NotFoundByTitle { literal } => "No events found titled '"@ + literal@ + "'"@,
            TimeError::AmbiguousTitle { literal } => "Multiple events titled '"@ + literal@
                + "'. Use --id to specify which one to move."@,
            TimeError::MissingValue { name } => name@ + " missing value"@,
            TimeError::InvalidIcsDate { literal } => "invalid date '"@ + literal@ + "'"@,
            TimeError::InvalidIcsDateTime { literal } => "invalid datetime '"@ + literal@ + "'"@,
            TimeError::AmbiguousZoneTime { literal, zone } => "ambiguous local time for "@
                + literal@ + " in "@ + zone@,
        }
    }

    /// Renders the error's message.
    pub fn message(&self) -> (out: String)
        requires
            self.wf(),
        ensures
            out@ == self.text(),
    {
        let mut out = String::new();
        match self {
            TimeError::InvalidTimestamp { literal } => {
                out.append("invalid timestamp '");
                out.append(literal.as_str());
                out.append("'");
            },
            TimeError::ExpectedRfc3339 { literal } => {
                out.append("expected RFC3339 timestamp, got '");
                out.append(literal.as_str());
                out.append("'");
            },
            TimeError::InvalidDate { literal } => {
                out.append("expected YYYY-MM-DD date (or relative token), got '");
                out.append(literal.as_str());
                out.append("'");
            },
            TimeError::InvalidTime { literal } => {
                out.append("expected HH:MM or HH:MM:SS time-of-day, got '");
                out.append(literal.as_str());
                out.append("'");
            },
            TimeError::InvalidDuration { literal } => {
                out.append("failed to parse duration '");
                out.append(literal.as_str());
                out.append("'");
            },
            TimeError::DurationTooLarge { literal } => {
                out.append("duration '");
                out.append(literal.as_str());
                out.append("' is too large");
            },
            TimeError::EndOutOfRange => {
                out.append("duration pushes end time out of range");
            },
            TimeError::DefaultEndOutOfRange => {
                out.append("default duration pushes end time out of range");
            },
            TimeError::DateOverflow => {
                out.append("date overflow");
            },
            TimeError::DurationWithAllDay => {
                out.append("--duration cannot be used with --all-day");
            },
            TimeError::MissingAllDayStart => {
                out.append("provide --start (date) or --date for all-day events");
            },
            TimeError::MissingStart => {
                out.append("provide --start or --date/--time to define a start instant");
            },
            TimeError::MissingTime => {
                out.append("provide --time when --start is omitted");
            },
            TimeError::EndNotAfterStart => {
                out.append("--end must be later than --start");
            },
            TimeError::DstAmbiguous { literal, first, second } => {
                out.append("time '");
                out.append(literal.as_str());
                out.append("' is ambiguous (");
                out.append(first.as_str());
                out.append(" or ");
                out.append(second.as_str());
                out.append(") due to DST");
            },
            TimeError::DstGap { literal } => {
                out.append("time '");
                out.append(literal.as_str());
                out.append("' does not exist in the current timezone (DST transition)");
            },
            TimeError::UnknownTimezone { literal } => {
                out.append("unknown timezone '");
                out.append(literal.as_str());
                out.append("'");
            },
            TimeError::MissingSelector => {
                out.append("Provide either --id or --title");
            },
            TimeError::NoTimingChange => {
                out.append("provide --start/--date/--time/--end/--duration to adjust an event");
            },
            TimeError::NotFoundById { id } => {
                out.append("No event found with id ");
                push_dec(&mut out, *id);
            },
            TimeError::NotFoundByTitle { literal } => {
                out.append("No events found titled '");
                out.append(literal.as_str());
                out.append("'");
            },
            TimeError::AmbiguousTitle { literal } => {
                out.append("Multiple events titled '");
                out.append(literal.as_str());
                out.append("'. Use --id to specify which one to move.");
            },
            TimeError::MissingValue { name } => {
                out.append(name.as_str());
                out.append(" missing value");
            },
            TimeError::InvalidIcsDate { literal } => {
                out.append("invalid date '");
                out.append(literal.as_str());
                out.append("'");
            },
            TimeError::InvalidIcsDateTime { literal } => {
                out.append("invalid datetime '");
                out.append(literal.as_str());
                out.append("'");
            },
            TimeError::AmbiguousZoneTime { literal, zone } => {
                out.append("ambiguous local time for ");
                out.append(literal.as_str());
                out.append(" in ");
                out.append(zone.as_str());
            },
        }
        out
    }
}

/// Appends the decimal rendering of a non-negative number.
pub fn push_dec(out: &mut String, n: i64)
    requires
        n >= 0,
    ensures
        final (out)@ == old(out)@ + dec_text(n as int),
    decreases n,
{
    if n < 10 {
        push_char(out, ((48 + n as u8)) as char);
        proof {
            assert(final (out)@ =~= old(out)@ + dec_text(n as int));
        }
    } else {
        push_dec(out, n / 10);
        push_char(out, ((48 + (n % 10) as u8)) as char);
        proof {
            assert(final (out)@ =~= old(out)@ + dec_text(n as int));
        }
    }
}

} // verus!
