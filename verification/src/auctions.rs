//! Auctions: the immutable record of what is being sold, the per-format
//! options, the static bid validator, and the state dispatcher over the two
//! auction-format state machines.

use vstd::prelude::*;

use crate::bids::bid_seq_view;
use crate::bids::Bid;
use crate::bids::BidV;
use crate::errors::outcome_view;
use crate::errors::ErrorV;
use crate::errors::Errors;
use crate::money::Amount;
use crate::money::AmountV;
use crate::money::Currency;
use crate::single_sealed_bid;
use crate::single_sealed_bid::ssb_add_bid_spec;
use crate::single_sealed_bid::ssb_get_bids_spec;
use crate::single_sealed_bid::ssb_has_ended;
use crate::single_sealed_bid::ssb_inc;
use crate::single_sealed_bid::ssb_options_from_text;
use crate::single_sealed_bid::ssb_options_text;
use crate::single_sealed_bid::ssb_winner;
use crate::single_sealed_bid::SingleSealedBidState;
use crate::single_sealed_bid::SsbStateV;
use crate::text::lemma_sep_pos_empty;
use crate::text::pipe_free;
use crate::text::sep_pos_seq;
use crate::timed_ascending;
use crate::timed_ascending::lemma_ta_options_text_roundtrip;
use crate::timed_ascending::ta_add_bid_spec;
use crate::timed_ascending::ta_get_bids_spec;
use crate::timed_ascending::ta_has_ended;
use crate::timed_ascending::ta_inc;
use crate::timed_ascending::ta_options;
use crate::timed_ascending::ta_options_from_text;
use crate::timed_ascending::ta_options_text;
use crate::timed_ascending::ta_winner;
use crate::timed_ascending::TaOptionsV;
use crate::timed_ascending::TaStateV;
use crate::timed_ascending::TimedAscendingState;
use crate::users::User;
use crate::users::UserV;
use crate::AuctionId;
use crate::Timestamp;

verus! {

/// Mathematical model of an [`AuctionType`].
#[verifier::ext_equal]
pub enum AuctionTypeV {
    TimedAscending(TaOptionsV),
    SingleSealedBid(single_sealed_bid::Options),
}

/// The format of an auction, with the format's options.
#[derive(Debug, Clone, Copy, PartialEq, Eq, Structural)]
pub enum AuctionType {
    TimedAscending(timed_ascending::Options),
    SingleSealedBid(single_sealed_bid::Options),
}

impl View for AuctionType {
    type V = AuctionTypeV;

    open spec fn view(&self) -> AuctionTypeV {
        match self {
            AuctionType::TimedAscending(o) => AuctionTypeV::TimedAscending(o@),
            AuctionType::SingleSealedBid(o) => AuctionTypeV::SingleSealedBid(*o),
        }
    }
}

/// The display form of an auction type: the display form of its options.
pub open spec fn auction_type_text(t: AuctionTypeV) -> Seq<char> {
    match t {
        AuctionTypeV::TimedAscending(o) => ta_options_text(o),
        AuctionTypeV::SingleSealedBid(o) => ssb_options_text(o),
    }
}

/// The auction type a text denotes: first read as timed-ascending
/// options, then as a sealed-bid pricing rule.
pub open spec fn auction_type_from_text(s: Seq<char>) -> Option<AuctionTypeV> {
    match ta_options_from_text(s) {
        Some(o) => Some(AuctionTypeV::TimedAscending(o)),
        None => match ssb_options_from_text(s) {
            Some(o) => Some(AuctionTypeV::SingleSealedBid(o)),
            None => None,
        },
    }
}

impl AuctionType {
    /// Writes the auction type in its display form.
    pub fn to_text(&self) -> (r: String)
        ensures
            r@ == auction_type_text(self@),
    {
        match self {
            AuctionType::TimedAscending(o) => o.to_text(),
            AuctionType::SingleSealedBid(o) => o.to_text(),
        }
    }

    /// Reads an auction type back from its display form.
    pub fn from_text(s: &str) -> (r: Option<AuctionType>)
        ensures
            auction_type_from_text(s@) matches Some(tv) ==> (r matches Some(t) && t@ == tv),
            auction_type_from_text(s@) is None ==> r is None,
    {
        match timed_ascending::Options::from_text(s) {
            Some(o) => Some(AuctionType::TimedAscending(o)),
            None => {
                match single_sealed_bid::Options::from_text(s) {
                    Some(o) => Some(AuctionType::SingleSealedBid(o)),
                    None => None,
                }
            },
        }
    }
}

/// Law (display/parse round trip): the display form of any representable
/// auction type parses back to the same type.
pub proof fn lemma_auction_type_text_roundtrip(t: AuctionTypeV)
    requires
        t matches AuctionTypeV::TimedAscending(o) ==> (i64::MIN <= o.reserve_price.value
            <= i64::MAX && i64::MIN <= o.min_raise.value <= i64::MAX && i64::MIN <= o.time_frame
            <= i64::MAX),
    ensures
        auction_type_from_text(auction_type_text(t)) == Some(t),
{
    match t {
        AuctionTypeV::TimedAscending(o) => {
            lemma_ta_options_text_roundtrip(o);
        },
        AuctionTypeV::SingleSealedBid(o) => {
            let s = ssb_options_text(o);
            reveal_strlit("Blind");
            reveal_strlit("Vickrey");
            // the pricing rule's name holds no separator, so the text
            // cannot read as timed-ascending options
            assert(pipe_free(s)) by {
                assert forall|i: int| 0 <= i < s.len() implies s[i] != '|' by {
                    assert(s.len() == 5 || s.len() == 7);
                }
            }
            lemma_sep_pos_empty(s, '|');
            assert(sep_pos_seq(s, '|').len() == 0);
            assert(ta_options_from_text(s) is None);
            match o {
                single_sealed_bid::Options::Blind => {
                    assert(s == "Blind"@);
                },
                single_sealed_bid::Options::Vickrey => {
                    assert(s != "Blind"@);
                },
            }
        },
    }
}

/// Mathematical model of an [`Auction`].
#[verifier::ext_equal]
pub struct AuctionV {
    pub auction_id: int,
    pub starts_at: int,
    pub title: Seq<char>,
    pub expiry: int,
    pub seller: UserV,
    pub typ: AuctionTypeV,
    pub auction_currency: Currency,
}

/// What is being sold: created once via an add-auction command and never
/// mutated; only the derived state evolves.
#[derive(Debug, PartialEq, Eq)]
pub struct Auction {
    pub auction_id: AuctionId,
    pub starts_at: Timestamp,
    pub title: String,
    pub expiry: Timestamp,
    pub seller: User,
    pub typ: AuctionType,
    pub auction_currency: Currency,
}

impl View for Auction {
    type V = AuctionV;

    open spec fn view(&self) -> AuctionV {
        AuctionV {
            auction_id: self.auction_id as int,
            starts_at: self.starts_at as int,
            title: self.title@,
            expiry: self.expiry as int,
            seller: self.seller@,
            typ: self.typ@,
            auction_currency: self.auction_currency,
        }
    }
}

impl Clone for Auction {
    fn clone(&self) -> (r: Self)
        ensures
            r@ == self@,
    {
        Auction {
            auction_id: self.auction_id,
            starts_at: self.starts_at,
            title: self.title.clone(),
            expiry: self.expiry,
            seller: self.seller.clone(),
            typ: self.typ,
            auction_currency: self.auction_currency,
        }
    }
}

/// The static checks a bid must pass before it reaches the state machine:
/// the seller may not bid, and the bid's currency must be the auction's.
pub open spec fn validate_bid_spec(b: BidV, a: AuctionV) -> Result<(), ErrorV> {
    if b.bidder.user_id() == a.seller.user_id() {
        Err(ErrorV::SellerCannotPlaceBids((b.bidder.user_id(), a.auction_id)))
    } else if b.bid_amount.currency != a.auction_currency {
        Err(ErrorV::CurrencyConversion(a.auction_currency))
    } else {
        Ok(())
    }
}

/// Checks a bid against its auction's static rules, exactly as
/// [`validate_bid_spec`] describes; the per-format state machine is only
/// consulted afterwards.
pub fn validate_bid(bid: &Bid, auction: &Auction) -> (r: Result<(), Errors>)
    ensures
        outcome_view(r) == validate_bid_spec(bid@, auction@),
{
    if bid.bidder.user_id().eq(auction.seller.user_id()) {
        return Err(
            Errors::SellerCannotPlaceBids((bid.bidder.user_id().clone(), auction.auction_id)),
        );
    }
    if bid.bid_amount.currency() != auction.auction_currency {
        return Err(Errors::CurrencyConversion(auction.auction_currency));
    }
    Ok(())
}

/// Mathematical model of an [`AuctionState`].
#[verifier::ext_equal]
pub enum AuctionStateV {
    SingleSealedBid(SsbStateV),
    TimedAscending(TaStateV),
}

/// The evolving state of an auction: one of the two per-format state
/// machines.
#[derive(Debug, PartialEq, Eq)]
pub enum AuctionState {
    SingleSealedBid(SingleSealedBidState),
    TimedAscending(TimedAscendingState),
}

impl View for AuctionState {
    type V = AuctionStateV;

    open spec fn view(&self) -> AuctionStateV {
        match self {
            AuctionState::SingleSealedBid(s) => AuctionStateV::SingleSealedBid(s@),
            AuctionState::TimedAscending(s) => AuctionStateV::TimedAscending(s@),
        }
    }
}

impl Clone for AuctionState {
    fn clone(&self) -> (r: Self)
        ensures
            r@ == self@,
    {
        match self {
            AuctionState::SingleSealedBid(s) => AuctionState::SingleSealedBid(s.clone()),
            AuctionState::TimedAscending(s) => AuctionState::TimedAscending(s.clone()),
        }
    }
}

/// The initial state an auction's type prescribes.
pub open spec fn empty_state_spec(a: AuctionV) -> AuctionStateV {
    match a.typ {
        AuctionTypeV::SingleSealedBid(opt) => AuctionStateV::SingleSealedBid(
            SsbStateV::AcceptingBids { bids: Seq::empty(), expiry: a.expiry, options: opt },
        ),
        AuctionTypeV::TimedAscending(opt) => AuctionStateV::TimedAscending(
            TaStateV::AwaitingStart {
                start: a.starts_at,
                starting_expiry: a.expiry,
                options: opt,
            },
        ),
    }
}

/// The initial state for an auction: sealed-bid auctions start accepting
/// bids until the expiry; ascending auctions wait for their start.
pub fn empty_state(auction: &Auction) -> (r: AuctionState)
    ensures
        r@ == empty_state_spec(auction@),
{
    match &auction.typ {
        AuctionType::SingleSealedBid(opt) => AuctionState::SingleSealedBid(
            single_sealed_bid::empty_state(auction.expiry, *opt),
        ),
        AuctionType::TimedAscending(opt) => AuctionState::TimedAscending(
            timed_ascending::empty_state(auction.starts_at, auction.expiry, *opt),
        ),
    }
}

// ---------------------------------------------------------------------------
// The dispatched transition relation
// ---------------------------------------------------------------------------

pub open spec fn auction_inc(s: AuctionStateV, now: int) -> AuctionStateV {
    match s {
        AuctionStateV::SingleSealedBid(st) => AuctionStateV::SingleSealedBid(ssb_inc(st, now)),
        AuctionStateV::TimedAscending(st) => AuctionStateV::TimedAscending(ta_inc(st, now)),
    }
}

pub open spec fn auction_add_bid_spec(s: AuctionStateV, b: BidV) -> (
    AuctionStateV,
    Result<(), ErrorV>,
) {
    match s {
        AuctionStateV::SingleSealedBid(st) => {
            let (s2, res) = ssb_add_bid_spec(st, b);
            (AuctionStateV::SingleSealedBid(s2), res)
        },
        AuctionStateV::TimedAscending(st) => {
            let (s2, res) = ta_add_bid_spec(st, b);
            (AuctionStateV::TimedAscending(s2), res)
        },
    }
}

pub open spec fn auction_get_bids_spec(s: AuctionStateV) -> Seq<BidV> {
    match s {
        AuctionStateV::SingleSealedBid(st) => ssb_get_bids_spec(st),
        AuctionStateV::TimedAscending(st) => ta_get_bids_spec(st),
    }
}

pub open spec fn auction_winner(s: AuctionStateV) -> Option<(AmountV, Seq<char>)> {
    match s {
        AuctionStateV::SingleSealedBid(st) => ssb_winner(st),
        AuctionStateV::TimedAscending(st) => ta_winner(st),
    }
}

pub open spec fn auction_has_ended(s: AuctionStateV) -> bool {
    match s {
        AuctionStateV::SingleSealedBid(st) => ssb_has_ended(st),
        AuctionStateV::TimedAscending(st) => ta_has_ended(st),
    }
}

/// Whether a bid's timestamp plus the state's anti-snipe window stays
/// representable; only the ascending machine does that arithmetic.
pub open spec fn add_bid_fits(s: AuctionStateV, b: BidV) -> bool {
    s matches AuctionStateV::TimedAscending(st) ==> i64::MIN <= b.at + ta_options(st).time_frame
        <= i64::MAX
}

// ---------------------------------------------------------------------------
// Executable dispatcher
// ---------------------------------------------------------------------------

impl AuctionState {
    /// Advances the state to time `now`, exactly as [`auction_inc`]
    /// describes.
    pub fn inc(&self, now: Timestamp) -> (r: Self)
        ensures
            r@ == auction_inc(self@, now as int),
    {
        match self {
            AuctionState::SingleSealedBid(st) => AuctionState::SingleSealedBid(st.inc(now)),
            AuctionState::TimedAscending(st) => AuctionState::TimedAscending(st.inc(now)),
        }
    }

    /// Places a bid, exactly as [`auction_add_bid_spec`] describes.
    pub fn add_bid(&self, bid: Bid) -> (r: (AuctionState, Result<(), Errors>))
        requires
            add_bid_fits(self@, bid@),
        ensures
            (r.0@, outcome_view(r.1)) == auction_add_bid_spec(self@, bid@),
    {
        match self {
            AuctionState::SingleSealedBid(st) => {
                let (s2, res) = st.add_bid(bid);
                (AuctionState::SingleSealedBid(s2), res)
            },
            AuctionState::TimedAscending(st) => {
                let (s2, res) = st.add_bid(bid);
                (AuctionState::TimedAscending(s2), res)
            },
        }
    }

    /// The bids the state reports, exactly as [`auction_get_bids_spec`]
    /// describes.
    pub fn get_bids(&self) -> (r: Vec<Bid>)
        ensures
            bid_seq_view(r@) == auction_get_bids_spec(self@),
    {
        match self {
            AuctionState::SingleSealedBid(st) => st.get_bids(),
            AuctionState::TimedAscending(st) => st.get_bids(),
        }
    }

    /// The winning amount and winner id, exactly as [`auction_winner`]
    /// describes.
    pub fn try_get_amount_and_winner(&self) -> (r: Option<(Amount, crate::users::UserId)>)
        ensures
            auction_winner(self@) matches Some(w) ==> (r matches Some(x) && x.0@ == w.0 && x.1@
                == w.1),
            auction_winner(self@) is None ==> r is None,
    {
        match self {
            AuctionState::SingleSealedBid(st) => st.try_get_amount_and_winner(),
            AuctionState::TimedAscending(st) => st.try_get_amount_and_winner(),
        }
    }

    /// Whether the auction has ended.
    pub fn has_ended(&self) -> (r: bool)
        ensures
            r == auction_has_ended(self@),
    {
        match self {
            AuctionState::SingleSealedBid(st) => st.has_ended(),
            AuctionState::TimedAscending(st) => st.has_ended(),
        }
    }
}

// ---------------------------------------------------------------------------
// Laws of the dispatched machine
// ---------------------------------------------------------------------------

/// Law (idempotence of time-advance): for any state and time,
/// advancing twice to the same instant equals advancing once.
pub proof fn lemma_auction_inc_idempotent(s: AuctionStateV, t: int)
    ensures
        auction_inc(auction_inc(s, t), t) == auction_inc(s, t),
{
    match s {
        AuctionStateV::SingleSealedBid(st) => {
            crate::single_sealed_bid::lemma_ssb_inc_idempotent(st, t);
        },
        AuctionStateV::TimedAscending(st) => {
            crate::timed_ascending::lemma_ta_inc_idempotent(st, t);
        },
    }
}

/// Law (monotonic non-reversal): once a state reports ended, no later
/// time advance makes it report not-ended; the ended state is unchanged.
pub proof fn lemma_auction_ended_monotonic(s: AuctionStateV, t: int)
    requires
        auction_has_ended(s),
    ensures
        auction_inc(s, t) == s,
        auction_has_ended(auction_inc(s, t)),
{
    match s {
        AuctionStateV::SingleSealedBid(st) => {
            crate::single_sealed_bid::lemma_ssb_ended_monotonic(st, t);
        },
        AuctionStateV::TimedAscending(st) => {
            crate::timed_ascending::lemma_ta_ended_monotonic(st, t);
        },
    }
}

} // verus!
