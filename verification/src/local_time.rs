//! Times of the local clock, and texts of them.
use std::fmt::Write;

use chrono::{DateTime, FixedOffset};
use vstd::prelude::*;

use crate::text;

verus! {

/// The text of a time by a format: so many seconds and nanoseconds after the epoch, in
/// the time zone so many seconds east of Greenwich. `None` where there is no such time
/// or the format cannot be used.
pub uninterp spec fn local_text(secs: i64, nanos: u32, offset: i32, fmt: Seq<char>) -> Option<Seq<char>>;

/// Calls `DateTime::format` of `chrono` on the time that its arguments stand for, and
/// writes the result. There is none where `FixedOffset::east_opt` or
/// `DateTime::from_timestamp` gives none, and where the format holds something that
/// `chrono` does not know. The text depends on nothing but the arguments: names of days
/// and months are the English ones.
#[verifier::external_body]
fn format_with_chrono(secs: i64, nanos: u32, offset: i32, fmt: &str) -> (r: Option<String>)
    ensures
        text::opt(r) == local_text(secs, nanos, offset, fmt@),
{
    let zone = FixedOffset::east_opt(offset)?;
    let time = DateTime::from_timestamp(secs, nanos)?.with_timezone(&zone);
    let mut s = String::new();
    write!(s, "{}", time.format(fmt)).ok()?;
    Some(s)
}

/// A time of the local clock.
#[derive(Debug, Clone, Copy, PartialEq, Eq, Structural)]
pub struct LocalTime {
    /// Seconds after the epoch.
    pub secs: i64,
    pub nanos: u32,
    /// How far the time zone is east of Greenwich, in seconds.
    pub offset: i32,
}

impl LocalTime {
    /// The text of this time by a format.
    pub fn format(&self, fmt: &str) -> (r: Option<String>)
        ensures
            text::opt(r) == local_text(self.secs, self.nanos, self.offset, fmt@),
    {
        format_with_chrono(self.secs, self.nanos, self.offset, fmt)
    }
}

} // verus!
