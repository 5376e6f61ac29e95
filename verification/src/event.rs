//! The decoded event record and its mathematical model.

use vstd::prelude::*;

verus! {

/// Whether a probe event records control entering or leaving a probe point.
#[derive(Clone, Copy, Debug, PartialEq, Eq, Structural)]
pub enum Direction {
    Enter,
    Exit,
}

/// One decoded trace line.
///
/// `location` and `filename` are only meaningful on `Enter` events; an `Exit`
/// event carries empty strings there. `line_number` is the 1-based input line
/// the event was decoded from, kept for diagnostics only.
#[derive(Debug, PartialEq, Eq)]
pub struct Event {
    pub timestamp: u64,
    pub activation_id: u64,
    pub line_number: u64,
    pub probe_name: String,
    pub location: String,
    pub filename: String,
    pub direction: Direction,
}

/// The mathematical content of an [`Event`]: the same fields with every
/// string taken as its character sequence. Contracts speak of this model.
pub struct EventModel {
    pub timestamp: u64,
    pub activation_id: u64,
    pub line_number: u64,
    pub probe_name: Seq<char>,
    pub location: Seq<char>,
    pub filename: Seq<char>,
    pub direction: Direction,
}

impl DeepView for Event {
    type V = EventModel;

    open spec fn deep_view(&self) -> EventModel {
        EventModel {
            timestamp: self.timestamp,
            activation_id: self.activation_id,
            line_number: self.line_number,
            probe_name: self.probe_name@,
            location: self.location@,
            filename: self.filename@,
            direction: self.direction,
        }
    }
}

impl Clone for Event {
    fn clone(&self) -> (r: Self)
        ensures
            r.deep_view() == self.deep_view(),
    {
        Event {
            timestamp: self.timestamp,
            activation_id: self.activation_id,
            line_number: self.line_number,
            probe_name: self.probe_name.clone(),
            location: self.location.clone(),
            filename: self.filename.clone(),
            direction: self.direction,
        }
    }
}

/// A line that failed to decode into a well-formed [`Event`]. Each variant
/// names the 1-based input line it was found on.
#[derive(Clone, Copy, Debug, PartialEq, Eq, Structural)]
pub enum DecodeError {
    /// The line has too few space-separated fields for its direction, or the
    /// filename field is empty where a terminator character is expected.
    MissingFields { line_number: u64 },
    /// The probe token has no direction tag, or a tag other than `in`/`out`.
    BadDirection { line_number: u64 },
    /// The timestamp field is not a decimal unsigned 64-bit integer.
    BadTimestamp { line_number: u64 },
    /// The activation-id field is not a decimal unsigned 64-bit integer.
    BadActivationId { line_number: u64 },
}

/// A decoded event that violates the stack discipline of the trace.
/// The offending records are carried for postmortem inspection.
#[derive(Debug, PartialEq, Eq)]
pub enum FoldError {
    /// An exit event arrived while no activation was open.
    UnbalancedExit { exit: Event },
    /// An exit event's activation id differs from the innermost open enter's.
    MismatchedActivation { enter: Event, exit: Event },
    /// A matched exit carries a timestamp before its enter's.
    DurationUnderflow { enter: Event, exit: Event },
}

/// Any fatal condition met while processing one raw line.
#[derive(Debug, PartialEq, Eq)]
pub enum TraceError {
    Decode(DecodeError),
    Fold(FoldError),
}

} // verus!
