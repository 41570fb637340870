//! Error kinds of the pipeline, one enum per stage.

use vstd::prelude::*;

verus! {

/// Failures of time-target resolution.
#[derive(Clone, Copy, Debug, PartialEq, Eq, Structural)]
pub enum TimeError {
    /// The UTC offset is outside the accepted whole-hour range.
    InvalidOffset,
    /// The token looked like an absolute date-time but does not match
    /// the `YYYY-MM-DD HH:MM` pattern (or names an impossible instant).
    InvalidDateTime,
    /// The token is neither an absolute date-time nor a representable
    /// non-negative count of minutes.
    InvalidOffsetMinutes,
}

/// Failure of compiling a cleanup or link-detection pattern at startup.
#[derive(Clone, Copy, Debug, PartialEq, Eq, Structural)]
pub enum PatternError {
    /// The pattern text is not a valid regular expression.
    InvalidPattern,
}

/// Failures of preparing the external calendar query.
#[derive(Clone, Copy, Debug, PartialEq, Eq, Structural)]
pub enum QueryError {
    /// A display pattern is malformed.
    InvalidPattern,
    /// The target instant lies outside the renderable civil range
    /// (before 1970 or after 9999, in the target's own offset).
    TargetOutOfRange,
}

/// Per-event dispatch failures.
#[derive(Clone, Copy, Debug, PartialEq, Eq, Structural)]
pub enum DispatchError {
    /// The notifier reported an action identifier that is not the
    /// dismissal sentinel and not the index of an offered action.
    InvalidNotifierResponse,
}

} // verus!
