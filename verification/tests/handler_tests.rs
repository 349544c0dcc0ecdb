use auction_site::auctions::{validate_bid, Auction, AuctionType};
use auction_site::bids::Bid;
use auction_site::commands::{Command, CommandSuccess};
use auction_site::errors::Errors;
use auction_site::handler::{auctions, handle, HandleError, Repository};
use auction_site::money::{Amount, Currency};
use auction_site::timed_ascending::Options as TAOptions;
use auction_site::users::User;

// 2016-01-01T08:28:00Z, as seconds from the Unix epoch
fn sample_starts_at() -> i64 {
    1451636880
}

// 2016-02-01T08:28:00Z
fn sample_ends_at() -> i64 {
    1454315280
}

fn sample_seller() -> User {
    User::BuyerOrSeller {
        user_id: "Sample_Seller".to_string(),
        name: "Seller".to_string(),
    }
}

fn buyer_1() -> User {
    User::BuyerOrSeller {
        user_id: "Buyer_1".to_string(),
        name: "Buyer 1".to_string(),
    }
}

fn sek(value: i64) -> Amount {
    Amount::new(Currency::SEK, value)
}

fn sample_auction_with_id(auction_id: i64) -> Auction {
    Auction {
        auction_id,
        title: "auction".to_string(),
        starts_at: sample_starts_at(),
        expiry: sample_ends_at(),
        seller: sample_seller(),
        auction_currency: Currency::SEK,
        typ: AuctionType::TimedAscending(TAOptions::default_options(Currency::SEK)),
    }
}

#[test]
fn test_add_auction_then_duplicate_fails() {
    let repo = Repository::new();
    let auction = sample_auction_with_id(1);

    let add = Command::AddAuction {
        timestamp: sample_starts_at(),
        auction: auction.clone(),
    };
    let (success, repo) = handle(add, repo).unwrap();
    match success {
        CommandSuccess::AuctionAdded {
            timestamp,
            auction: added,
        } => {
            assert_eq!(timestamp, sample_starts_at());
            assert_eq!(added, auction);
        }
        _ => panic!("Expected AuctionAdded success"),
    }
    assert!(repo.contains_key(1));
    assert_eq!(auctions(&repo).len(), 1);

    // A second AddAuction for the same id fails and changes nothing
    let add_again = Command::AddAuction {
        timestamp: sample_starts_at() + 1,
        auction: sample_auction_with_id(1),
    };
    match handle(add_again, repo.clone()) {
        Err(HandleError::AuctionError(Errors::AuctionAlreadyExists(id))) => {
            assert_eq!(id, 1);
        }
        _ => panic!("Expected AuctionAlreadyExists error"),
    }
    assert_eq!(auctions(&repo).len(), 1);
}

#[test]
fn test_place_bid_unknown_auction() {
    let repo = Repository::new();

    let bid = Bid {
        for_auction: 2, // never added
        bidder: buyer_1(),
        at: sample_starts_at() + 1,
        bid_amount: sek(10),
    };
    let place = Command::PlaceBid {
        timestamp: sample_starts_at() + 1,
        bid,
    };
    match handle(place, repo) {
        Err(HandleError::AuctionError(Errors::UnknownAuction(id))) => {
            assert_eq!(id, 2);
        }
        _ => panic!("Expected UnknownAuction error"),
    }
}

#[test]
fn test_handle_accepts_bid_and_updates_state() {
    let repo = Repository::new();
    let auction = sample_auction_with_id(1);

    let add = Command::AddAuction {
        timestamp: sample_starts_at(),
        auction,
    };
    let (_, repo) = handle(add, repo).unwrap();

    let bid = Bid {
        for_auction: 1,
        bidder: buyer_1(),
        at: sample_starts_at() + 1,
        bid_amount: sek(10),
    };
    let place = Command::PlaceBid {
        timestamp: sample_starts_at() + 1,
        bid: bid.clone(),
    };
    let (success, repo) = handle(place, repo).unwrap();
    match success {
        CommandSuccess::BidAccepted {
            timestamp,
            bid: accepted,
        } => {
            assert_eq!(timestamp, sample_starts_at() + 1);
            assert_eq!(accepted, bid);
        }
        _ => panic!("Expected BidAccepted success"),
    }

    let (_, state) = repo.get(1).unwrap();
    let bids = state.get_bids();
    assert_eq!(bids.len(), 1);
    assert_eq!(bids[0], bid);
}

#[test]
fn test_seller_cannot_place_bids() {
    let auction = sample_auction_with_id(1);
    let self_bid = Bid {
        for_auction: 1,
        bidder: sample_seller(),
        at: sample_starts_at() + 1,
        bid_amount: sek(10),
    };
    match validate_bid(&self_bid, &auction) {
        Err(Errors::SellerCannotPlaceBids((user_id, auction_id))) => {
            assert_eq!(user_id, "Sample_Seller");
            assert_eq!(auction_id, 1);
        }
        _ => panic!("Expected SellerCannotPlaceBids error"),
    }

    // The same rejection comes out of the command handler
    let repo = Repository::new();
    let add = Command::AddAuction {
        timestamp: sample_starts_at(),
        auction,
    };
    let (_, repo) = handle(add, repo).unwrap();
    let place = Command::PlaceBid {
        timestamp: sample_starts_at() + 1,
        bid: Bid {
            for_auction: 1,
            bidder: sample_seller(),
            at: sample_starts_at() + 1,
            bid_amount: sek(10),
        },
    };
    match handle(place, repo) {
        Err(HandleError::AuctionError(Errors::SellerCannotPlaceBids(_))) => {}
        _ => panic!("Expected SellerCannotPlaceBids error"),
    }
}

#[test]
fn test_currency_conversion_rejected() {
    let auction = sample_auction_with_id(1);
    let foreign_bid = Bid {
        for_auction: 1,
        bidder: buyer_1(),
        at: sample_starts_at() + 1,
        bid_amount: Amount::new(Currency::VAC, 10),
    };
    match validate_bid(&foreign_bid, &auction) {
        Err(Errors::CurrencyConversion(currency)) => {
            assert_eq!(currency, Currency::SEK);
        }
        _ => panic!("Expected CurrencyConversion error"),
    }
}

#[test]
fn test_failed_bid_leaves_repository_unchanged() {
    let repo = Repository::new();
    let auction = sample_auction_with_id(1);
    let add = Command::AddAuction {
        timestamp: sample_starts_at(),
        auction,
    };
    let (_, repo) = handle(add, repo).unwrap();

    // A bid before the start is rejected by the state machine
    let early = Command::PlaceBid {
        timestamp: sample_starts_at() - 1,
        bid: Bid {
            for_auction: 1,
            bidder: buyer_1(),
            at: sample_starts_at() - 1,
            bid_amount: sek(10),
        },
    };
    match handle(early, repo.clone()) {
        Err(HandleError::AuctionError(Errors::AuctionHasNotStarted(id))) => {
            assert_eq!(id, 1);
        }
        _ => panic!("Expected AuctionHasNotStarted error"),
    }

    // Nothing was committed
    let (_, state) = repo.get(1).unwrap();
    assert_eq!(state.get_bids().len(), 0);
}
