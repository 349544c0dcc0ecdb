//! Commands and their success events. A command carries an authoritative
//! timestamp supplied by the caller; the engine never reads a clock, so a
//! run is deterministic and replayable from a command log.

use vstd::prelude::*;

use crate::auctions::Auction;
use crate::auctions::AuctionV;
use crate::bids::Bid;
use crate::bids::BidV;
use crate::Timestamp;

verus! {

/// Mathematical model of a [`Command`].
#[verifier::ext_equal]
pub enum CommandV {
    AddAuction { timestamp: int, auction: AuctionV },
    PlaceBid { timestamp: int, bid: BidV },
}

/// An instruction to the engine.
#[derive(Debug, PartialEq, Eq)]
pub enum Command {
    /// Create an auction with its initial state.
    AddAuction { timestamp: Timestamp, auction: Auction },
    /// Place a bid on an existing auction.
    PlaceBid { timestamp: Timestamp, bid: Bid },
}

impl View for Command {
    type V = CommandV;

    open spec fn view(&self) -> CommandV {
        match self {
            Command::AddAuction { timestamp, auction } => CommandV::AddAuction {
                timestamp: *timestamp as int,
                auction: auction@,
            },
            Command::PlaceBid { timestamp, bid } => CommandV::PlaceBid {
                timestamp: *timestamp as int,
                bid: bid@,
            },
        }
    }
}

impl Clone for Command {
    fn clone(&self) -> (r: Self)
        ensures
            r@ == self@,
    {
        match self {
            Command::AddAuction { timestamp, auction } => Command::AddAuction {
                timestamp: *timestamp,
                auction: auction.clone(),
            },
            Command::PlaceBid { timestamp, bid } => Command::PlaceBid {
                timestamp: *timestamp,
                bid: bid.clone(),
            },
        }
    }
}

/// Mathematical model of a [`CommandSuccess`].
#[verifier::ext_equal]
pub enum CommandSuccessV {
    AuctionAdded { timestamp: int, auction: AuctionV },
    BidAccepted { timestamp: int, bid: BidV },
}

/// The success event a command produces.
#[derive(Debug, PartialEq, Eq)]
pub enum CommandSuccess {
    /// The auction was created.
    AuctionAdded { timestamp: Timestamp, auction: Auction },
    /// The bid was accepted and the auction's state replaced.
    BidAccepted { timestamp: Timestamp, bid: Bid },
}

impl View for CommandSuccess {
    type V = CommandSuccessV;

    open spec fn view(&self) -> CommandSuccessV {
        match self {
            CommandSuccess::AuctionAdded { timestamp, auction } => CommandSuccessV::AuctionAdded {
                timestamp: *timestamp as int,
                auction: auction@,
            },
            CommandSuccess::BidAccepted { timestamp, bid } => CommandSuccessV::BidAccepted {
                timestamp: *timestamp as int,
                bid: bid@,
            },
        }
    }
}

impl Clone for CommandSuccess {
    fn clone(&self) -> (r: Self)
        ensures
            r@ == self@,
    {
        match self {
            CommandSuccess::AuctionAdded { timestamp, auction } => CommandSuccess::AuctionAdded {
                timestamp: *timestamp,
                auction: auction.clone(),
            },
            CommandSuccess::BidAccepted { timestamp, bid } => CommandSuccess::BidAccepted {
                timestamp: *timestamp,
                bid: bid.clone(),
            },
        }
    }
}

} // verus!
