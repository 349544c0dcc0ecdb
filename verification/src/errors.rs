//! The ways an attempted state transition can be rejected. Every error
//! names the precise reason; nothing is retried or swallowed inside the
//! engine.

use vstd::prelude::*;

use crate::money::Amount;
use crate::money::AmountV;
use crate::money::Currency;
use crate::users::UserId;
use crate::AuctionId;

verus! {

/// Mathematical model of an [`Errors`] value.
#[verifier::ext_equal]
pub enum ErrorV {
    UnknownAuction(int),
    AuctionAlreadyExists(int),
    AuctionHasEnded(int),
    AuctionHasNotStarted(int),
    SellerCannotPlaceBids((Seq<char>, int)),
    CurrencyConversion(Currency),
    InvalidUserData(Seq<char>),
    MustPlaceBidOverHighestBid(AmountV),
    AlreadyPlacedBid,
}

/// Rejection of an attempted state transition.
#[derive(Debug, PartialEq, Eq)]
pub enum Errors {
    /// A command addressed an auction id that is not in the collection.
    UnknownAuction(AuctionId),
    /// An auction with this id has already been added.
    AuctionAlreadyExists(AuctionId),
    /// A bid arrived after the auction's active window.
    AuctionHasEnded(AuctionId),
    /// A bid arrived before the auction's active window.
    AuctionHasNotStarted(AuctionId),
    /// The bidder is the auction's seller.
    SellerCannotPlaceBids((UserId, AuctionId)),
    /// The bid's currency differs from the auction's; nothing is converted.
    CurrencyConversion(Currency),
    /// A user value could not be understood.
    InvalidUserData(String),
    /// The raise requirement over the named highest bid was not met.
    MustPlaceBidOverHighestBid(Amount),
    /// The bidder already placed a sealed bid; the first bid is retained.
    AlreadyPlacedBid,
}

impl View for Errors {
    type V = ErrorV;

    open spec fn view(&self) -> ErrorV {
        match self {
            Errors::UnknownAuction(id) => ErrorV::UnknownAuction(*id as int),
            Errors::AuctionAlreadyExists(id) => ErrorV::AuctionAlreadyExists(*id as int),
            Errors::AuctionHasEnded(id) => ErrorV::AuctionHasEnded(*id as int),
            Errors::AuctionHasNotStarted(id) => ErrorV::AuctionHasNotStarted(*id as int),
            Errors::SellerCannotPlaceBids(p) => ErrorV::SellerCannotPlaceBids(
                (p.0@, p.1 as int),
            ),
            Errors::CurrencyConversion(c) => ErrorV::CurrencyConversion(*c),
            Errors::InvalidUserData(m) => ErrorV::InvalidUserData(m@),
            Errors::MustPlaceBidOverHighestBid(a) => ErrorV::MustPlaceBidOverHighestBid(a@),
            Errors::AlreadyPlacedBid => ErrorV::AlreadyPlacedBid,
        }
    }
}

impl Clone for Errors {
    fn clone(&self) -> (r: Self)
        ensures
            r@ == self@,
    {
        match self {
            Errors::UnknownAuction(id) => Errors::UnknownAuction(*id),
            Errors::AuctionAlreadyExists(id) => Errors::AuctionAlreadyExists(*id),
            Errors::AuctionHasEnded(id) => Errors::AuctionHasEnded(*id),
            Errors::AuctionHasNotStarted(id) => Errors::AuctionHasNotStarted(*id),
            Errors::SellerCannotPlaceBids(p) => Errors::SellerCannotPlaceBids(
                (p.0.clone(), p.1),
            ),
            Errors::CurrencyConversion(c) => Errors::CurrencyConversion(*c),
            Errors::InvalidUserData(m) => Errors::InvalidUserData(m.clone()),
            Errors::MustPlaceBidOverHighestBid(a) => Errors::MustPlaceBidOverHighestBid(*a),
            Errors::AlreadyPlacedBid => Errors::AlreadyPlacedBid,
        }
    }
}

/// The model of a transition outcome: success, or the model of its error.
pub open spec fn outcome_view(r: Result<(), Errors>) -> Result<(), ErrorV> {
    match r {
        Ok(()) => Ok(()),
        Err(e) => Err(e@),
    }
}

} // verus!
