//! A small auction engine: money, users, two auction-format state machines
//! (timed-ascending and single-sealed-bid), and a command handler over a
//! keyed collection of auctions. Every state transition is a pure function
//! from the old value to a new value, so the whole core is deterministic and
//! replayable from a command log.

pub mod auctions;
pub mod bids;
pub mod commands;
pub mod errors;
pub mod handler;
pub mod money;
pub mod single_sealed_bid;
pub mod text;
pub mod timed_ascending;
pub mod users;

use vstd::prelude::*;

verus! {

/// A point in time, as a count of seconds (signed) from a fixed epoch.
/// All temporal decisions in the engine compare or add such counts; the
/// host is responsible for converting its wall-clock representation.
pub type Timestamp = i64;

/// A span of time in seconds; may be negative.
pub type DurationSecs = i64;

/// The unique integer key of an auction.
pub type AuctionId = i64;

/// The larger of two integers.
pub open spec fn max_int(a: int, b: int) -> int {
    if a >= b {
        a
    } else {
        b
    }
}

} // verus!
