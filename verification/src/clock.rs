//! Points in time and fresh card identifiers, the two things a board takes
//! from its surroundings.

use vstd::prelude::*;

verus! {

/// A point in time: whole seconds since 1970-01-01 00:00:00 UTC and the
/// nanoseconds past that second.
#[derive(Clone, Copy, Debug, PartialEq, Eq, Structural)]
pub struct Timestamp {
    pub secs: i64,
    pub nanos: u32,
}

/// The number of characters in a card identifier.
pub const ID_LEN: usize = 26;

/// The current time, read with `chrono::Utc::now`. The two fields are what
/// `DateTime::timestamp` and `DateTime::timestamp_subsec_nanos` give for it.
/// Nothing is promised of the value: it is whatever the system clock says.
#[verifier::external_body]
pub(crate) fn now() -> Timestamp {
    let t = chrono::Utc::now();
    Timestamp { secs: t.timestamp(), nanos: t.timestamp_subsec_nanos() }
}

/// A new identifier from `ulid::Ulid::new`, written out with
/// `Ulid::to_string`: 26 characters of Crockford base 32. Which identifier
/// comes back depends on the clock and on a random source.
#[verifier::external_body]
pub(crate) fn fresh_id() -> (id: String)
    ensures
        id@.len() == ID_LEN,
{
    ulid::Ulid::new().to_string()
}

} // verus!
