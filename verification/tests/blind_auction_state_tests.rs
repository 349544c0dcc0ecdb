use auction_site::auctions::{empty_state, Auction, AuctionState, AuctionType};
use auction_site::bids::Bid;
use auction_site::errors::Errors;
use auction_site::money::{Amount, Currency};
use auction_site::single_sealed_bid::{Options as SBOptions, SingleSealedBidState as SBState};
use auction_site::users::User;

fn sample_auction_id() -> i64 {
    1
}

// 2016-01-01T08:28:00Z, as seconds from the Unix epoch
fn sample_starts_at() -> i64 {
    1451636880
}

// 2016-02-01T08:28:00Z
fn sample_ends_at() -> i64 {
    1454315280
}

// 2016-01-15T08:28:00Z
fn sample_bid_time() -> i64 {
    1452846480
}

fn sample_seller() -> User {
    User::BuyerOrSeller {
        user_id: "Sample_Seller".to_string(),
        name: "Seller".to_string(),
    }
}

fn buyer_1() -> User {
    User::BuyerOrSeller {
        user_id: "Buyer_1".to_string(),
        name: "Buyer 1".to_string(),
    }
}

fn buyer_2() -> User {
    User::BuyerOrSeller {
        user_id: "Buyer_2".to_string(),
        name: "Buyer 2".to_string(),
    }
}

fn sek(value: i64) -> Amount {
    Amount::new(Currency::SEK, value)
}

fn bid_amount_1() -> Amount {
    sek(10)
}

fn bid_1() -> Bid {
    Bid {
        for_auction: sample_auction_id(),
        bidder: buyer_1(),
        at: sample_starts_at() + 1,
        bid_amount: bid_amount_1(),
    }
}

fn bid_amount_2() -> Amount {
    sek(12)
}

fn bid_2() -> Bid {
    Bid {
        for_auction: sample_auction_id(),
        bidder: buyer_2(),
        at: sample_starts_at() + 2,
        bid_amount: bid_amount_2(),
    }
}

fn sample_blind_auction() -> Auction {
    Auction {
        auction_id: sample_auction_id(),
        title: "auction".to_string(),
        starts_at: sample_starts_at(),
        expiry: sample_ends_at(),
        seller: sample_seller(),
        auction_currency: Currency::SEK,
        typ: AuctionType::SingleSealedBid(SBOptions::Blind),
    }
}

fn check_increment_ssb(base_state: &SBState) {
    let s = base_state.inc(sample_bid_time());
    let s2 = s.inc(sample_bid_time());
    assert_eq!(s, s2);

    let state = base_state.inc(sample_starts_at() + 1);
    assert_eq!(state.has_ended(), false);

    let state = base_state.inc(sample_ends_at() - 1);
    assert_eq!(state.has_ended(), false);

    let state = base_state.inc(sample_starts_at() - 1);
    assert_eq!(state.has_ended(), false);

    let state = base_state.inc(sample_ends_at() + 1);
    assert_eq!(state.has_ended(), true);
}

#[test]
fn blind_auction_state_tests_test_blind_auction_states() {
    let blind_auction = sample_blind_auction();
    let empty_blind_auction_state = match empty_state(&blind_auction) {
        AuctionState::SingleSealedBid(state) => state,
        _ => panic!("Expected SingleSealedBid state"),
    };

    // Can add bid to empty state
    let (state_with_1_bid, result_1) = empty_blind_auction_state.add_bid(bid_1());
    assert!(result_1.is_ok());

    // Can add second bid
    let (state_with_2_bids, result_2) = state_with_1_bid.add_bid(bid_2());
    assert!(result_2.is_ok());

    // Can end
    let state_ended_after_two_bids = state_with_2_bids.inc(sample_ends_at());

    // Verify the state is now DisclosingBids
    match &state_ended_after_two_bids {
        SBState::DisclosingBids {
            bids,
            expiry,
            options,
        } => {
            // First bid should be highest (bid_2)
            assert_eq!(bids.len(), 2);
            assert_eq!(bids[0], bid_2());
            assert_eq!(bids[1], bid_1());
            assert_eq!(*expiry, sample_ends_at());
            assert_eq!(*options, SBOptions::Blind);
        }
        _ => panic!("Expected DisclosingBids state"),
    }

    // Can get winner and price from an ended auction
    let maybe_amount_and_winner = state_ended_after_two_bids.try_get_amount_and_winner();
    assert!(maybe_amount_and_winner.is_some());

    let (amount, winner) = maybe_amount_and_winner.unwrap();
    // In a blind auction, winner pays their own bid (highest)
    assert_eq!(amount, bid_amount_2());
    assert_eq!(winner, buyer_2().user_id().clone());

    // Test the increment spec
    check_increment_ssb(&empty_blind_auction_state);
}

#[test]
fn test_cannot_place_duplicate_bids() {
    let blind_auction = sample_blind_auction();
    let empty_blind_auction_state = match empty_state(&blind_auction) {
        AuctionState::SingleSealedBid(state) => state,
        _ => panic!("Expected SingleSealedBid state"),
    };

    // First bid is accepted
    let (state_with_bid, result) = empty_blind_auction_state.add_bid(bid_1());
    assert!(result.is_ok());

    // Same bidder cannot place a second bid
    let duplicate_bid = Bid {
        for_auction: sample_auction_id(),
        bidder: buyer_1(), // Same bidder
        at: sample_bid_time(),
        bid_amount: sek(15), // Different amount
    };

    let (_, result) = state_with_bid.add_bid(duplicate_bid);
    assert!(result.is_err());

    // Verify the error is AlreadyPlacedBid
    match result {
        Err(Errors::AlreadyPlacedBid) => {}
        _ => panic!("Expected AlreadyPlacedBid error"),
    }
}

#[test]
fn test_cannot_bid_after_end() {
    let blind_auction = sample_blind_auction();
    let empty_blind_auction_state = match empty_state(&blind_auction) {
        AuctionState::SingleSealedBid(state) => state,
        _ => panic!("Expected SingleSealedBid state"),
    };

    // Advance state to ended
    let ended_state = empty_blind_auction_state.inc(sample_ends_at() + 1);

    // Try to place a bid after end
    let late_bid = Bid {
        for_auction: sample_auction_id(),
        bidder: buyer_1(),
        at: sample_ends_at() + 2,
        bid_amount: sek(10),
    };

    let (_, result) = ended_state.add_bid(late_bid);

    // Should get AuctionHasEnded error
    assert!(result.is_err());
    match result {
        Err(Errors::AuctionHasEnded(id)) => {
            assert_eq!(id, sample_auction_id());
        }
        _ => panic!("Expected AuctionHasEnded error"),
    }
}

#[test]
fn test_sealed_bids_hidden_before_disclosure() {
    let blind_auction = sample_blind_auction();
    let empty_blind_auction_state = match empty_state(&blind_auction) {
        AuctionState::SingleSealedBid(state) => state,
        _ => panic!("Expected SingleSealedBid state"),
    };

    let (state_1, _) = empty_blind_auction_state.add_bid(bid_1());
    let (state_2, _) = state_1.add_bid(bid_2());

    // While bids are being accepted, nothing is reported
    assert_eq!(state_2.get_bids().len(), 0);
    assert!(!state_2.has_ended());
    assert!(state_2.try_get_amount_and_winner().is_none());

    // Disclosure reveals every collected bid
    let ended = state_2.inc(sample_ends_at());
    assert_eq!(ended.get_bids().len(), 2);
    assert!(ended.has_ended());
}

#[test]
fn test_sealed_ties_keep_insertion_order() {
    // Two bids of the same amount: the earlier-collected bid stays first
    // after disclosure, so in a blind auction the first bidder wins.
    let blind_auction = sample_blind_auction();
    let empty_blind_auction_state = match empty_state(&blind_auction) {
        AuctionState::SingleSealedBid(state) => state,
        _ => panic!("Expected SingleSealedBid state"),
    };

    let tie_1 = Bid {
        for_auction: sample_auction_id(),
        bidder: buyer_1(),
        at: sample_starts_at() + 1,
        bid_amount: sek(10),
    };
    let tie_2 = Bid {
        for_auction: sample_auction_id(),
        bidder: buyer_2(),
        at: sample_starts_at() + 2,
        bid_amount: sek(10),
    };

    let (state_1, r1) = empty_blind_auction_state.add_bid(tie_1.clone());
    assert!(r1.is_ok());
    let (state_2, r2) = state_1.add_bid(tie_2.clone());
    assert!(r2.is_ok());

    let ended = state_2.inc(sample_ends_at());
    match &ended {
        SBState::DisclosingBids { bids, .. } => {
            assert_eq!(bids.len(), 2);
            assert_eq!(bids[0], tie_1);
            assert_eq!(bids[1], tie_2);
        }
        _ => panic!("Expected DisclosingBids state"),
    }

    let (amount, winner) = ended.try_get_amount_and_winner().unwrap();
    assert_eq!(amount, sek(10));
    assert_eq!(winner, "Buyer_1");
}
