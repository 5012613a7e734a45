//! Instants on the UTC time line, and ISO-8601 parsing through the `time` crate.

use vstd::prelude::*;

verus! {

/// An instant, held as nanoseconds since the Unix epoch.
///
/// Two timestamps are equal exactly when they denote the same instant, and
/// they are ordered as the instants are.
#[derive(Clone, Copy, Debug, PartialEq, Eq, Structural)]
pub struct Timestamp {
    pub unix_nanos: i128,
}

impl View for Timestamp {
    type V = int;

    open spec fn view(&self) -> int {
        self.unix_nanos as int
    }
}

/// What `time::OffsetDateTime::parse` with the default ISO-8601 description
/// makes of a text: the instant in nanoseconds since the Unix epoch, or the
/// debug rendering of the parse error.
pub uninterp spec fn iso8601_parse(text: Seq<char>) -> Result<int, Seq<char>>;

/// Calls `time::OffsetDateTime::parse(text, &Iso8601::DEFAULT)`.
///
/// Trusted: the outcome depends on the text alone. A parsed date-time is
/// handed back as its `unix_timestamp_nanos()`, a failure as the `{:?}`
/// rendering of the `time::error::Parse`.
#[verifier::external_body]
pub(crate) fn parse_iso8601(text: &str) -> (r: Result<i128, String>)
    ensures
        match r {
            Ok(nanos) => iso8601_parse(text@) == Ok::<int, Seq<char>>(nanos as int),
            Err(why) => iso8601_parse(text@) == Err::<int, Seq<char>>(why@),
        },
{
    match time::OffsetDateTime::parse(
        text,
        &time::format_description::well_known::Iso8601::DEFAULT,
    ) {
        Ok(parsed) => Ok(parsed.unix_timestamp_nanos()),
        Err(error) => Err(format!("{:?}", error)),
    }
}

impl Timestamp {
    /// The instant `nanos` nanoseconds after the Unix epoch.
    pub fn from_unix_nanos(nanos: i128) -> (t: Timestamp)
        ensures
            t@ == nanos,
    {
        Timestamp { unix_nanos: nanos }
    }

    /// Whether this instant is `other` or later.
    pub fn at_or_after(&self, other: &Timestamp) -> (b: bool)
        ensures
            b == (self@ >= other@),
    {
        self.unix_nanos >= other.unix_nanos
    }
}

} // verus!
