use auction_site::auctions::AuctionType;
use auction_site::money::{Amount, Currency};
use auction_site::timed_ascending::Options as TAOptions;
use auction_site::users::User;

fn vac(value: i64) -> Amount {
    Amount::new(Currency::VAC, value)
}

#[test]
fn test_auction_type_serialization() {
    // TimedAscending auction type
    let timed_ascending = AuctionType::TimedAscending(TAOptions {
        reserve_price: vac(0),
        min_raise: vac(0),
        time_frame: 0,
    });

    // Can serialize to text
    let serialized = timed_ascending.to_text();
    assert_eq!(serialized, "English|VAC0|VAC0|0");

    // Can deserialize from text
    let deserialized = AuctionType::from_text(&serialized).unwrap();

    // Types should match
    match deserialized {
        AuctionType::TimedAscending(opts) => {
            assert_eq!(opts.reserve_price, vac(0));
            assert_eq!(opts.min_raise, vac(0));
            assert_eq!(opts.time_frame, 0);
        }
        _ => panic!("Expected TimedAscending type"),
    }

    // Also check direct string parsing
    let type_str = "English|VAC0|VAC0|0";
    let parsed = AuctionType::from_text(type_str).unwrap();

    match parsed {
        AuctionType::TimedAscending(opts) => {
            assert_eq!(opts.reserve_price, vac(0));
            assert_eq!(opts.min_raise, vac(0));
            assert_eq!(opts.time_frame, 0);
        }
        _ => panic!("Expected TimedAscending type"),
    }

    // Sealed-bid types parse through the same entry point
    match AuctionType::from_text("Vickrey").unwrap() {
        AuctionType::SingleSealedBid(o) => {
            assert_eq!(o, auction_site::single_sealed_bid::Options::Vickrey)
        }
        _ => panic!("Expected SingleSealedBid type"),
    }
    assert!(AuctionType::from_text("Dutch").is_none());
}

#[test]
fn test_amount_serialization() {
    let amount = vac(0);

    // Can parse amount string
    let parsed = Amount::from_text("VAC0").unwrap();
    assert_eq!(parsed, amount);

    // Can convert back to string
    assert_eq!(amount.to_text(), "VAC0");

    // Roundtrip through the display form
    let serialized = amount.to_text();
    let deserialized = Amount::from_text(&serialized).unwrap();
    assert_eq!(deserialized, amount);
}

#[test]
fn test_amount_parse_cases() {
    // Positive, negative, signed and extreme values round-trip
    let a = Amount::from_text("SEK12").unwrap();
    assert_eq!(a.currency(), Currency::SEK);
    assert_eq!(a.value(), 12);
    assert_eq!(a.to_text(), "SEK12");

    let neg = Amount::from_text("DKK-5").unwrap();
    assert_eq!(neg.currency(), Currency::DKK);
    assert_eq!(neg.value(), -5);
    assert_eq!(neg.to_text(), "DKK-5");

    // An explicit plus sign parses but is not re-printed
    let plus = Amount::from_text("VAC+7").unwrap();
    assert_eq!(plus.value(), 7);
    assert_eq!(plus.to_text(), "VAC7");

    // Leading zeroes parse
    assert_eq!(Amount::from_text("SEK007").unwrap().value(), 7);

    let min = Amount::new(Currency::VAC, i64::MIN);
    assert_eq!(Amount::from_text(&min.to_text()).unwrap(), min);
    let max = Amount::new(Currency::VAC, i64::MAX);
    assert_eq!(Amount::from_text(&max.to_text()).unwrap(), max);
}

#[test]
fn test_amount_parse_rejects_malformed() {
    // No currency code
    assert!(Amount::from_text("12").is_none());
    // Unknown currency code
    assert!(Amount::from_text("ABC12").is_none());
    // Currency code swallows every leading letter
    assert!(Amount::from_text("SEKx12").is_none());
    // Missing number
    assert!(Amount::from_text("SEK").is_none());
    // Junk after the number
    assert!(Amount::from_text("SEK12x").is_none());
    // Value outside i64
    assert!(Amount::from_text("SEK9223372036854775808").is_none());
    assert!(Amount::from_text("SEK99999999999999999999999").is_none());
    // Empty text
    assert!(Amount::from_text("").is_none());
}

#[test]
fn test_user_serialization() {
    // BuyerOrSeller
    let buyer = User::BuyerOrSeller {
        user_id: "user123".to_string(),
        name: "John Doe".to_string(),
    };

    let serialized = buyer.to_text();

    // Format should be a string with pipe separators
    assert_eq!(serialized, "BuyerOrSeller|user123|John Doe");

    let deserialized = User::from_text(&serialized).unwrap();
    match deserialized {
        User::BuyerOrSeller { user_id, name } => {
            assert_eq!(user_id, "user123");
            assert_eq!(name, "John Doe");
        }
        _ => panic!("Expected BuyerOrSeller"),
    }

    // Support
    let support = User::Support {
        user_id: "support123".to_string(),
    };

    let serialized = support.to_text();

    // Format should be a string with pipe separators
    assert_eq!(serialized, "Support|support123");

    let deserialized = User::from_text(&serialized).unwrap();
    match deserialized {
        User::Support { user_id } => {
            assert_eq!(user_id, "support123");
        }
        _ => panic!("Expected Support"),
    }
}

#[test]
fn test_user_parse_rejects_malformed() {
    // Unknown variant name
    assert!(User::from_text("Visitor|u1").is_none());
    // Too few fields for a buyer-or-seller
    assert!(User::from_text("BuyerOrSeller|only_id").is_none());
    // Too many fields for a support user
    assert!(User::from_text("Support|u1|extra").is_none());
    // A pipe inside the name adds a field and the text no longer parses
    assert!(User::from_text("BuyerOrSeller|u1|Jo|hn").is_none());
    // No separators at all
    assert!(User::from_text("Support").is_none());
    assert!(User::from_text("").is_none());
}
