use auction_site::money::{Amount, Currency, MoneyError};

#[test]
fn test_amount_add_same_currency() {
    let a = Amount::new(Currency::SEK, 10);
    let b = Amount::new(Currency::SEK, 5);
    let sum = a.add(b).unwrap();
    assert_eq!(sum.currency(), Currency::SEK);
    assert_eq!(sum.value(), 15);

    // Negative values add as plain integers
    let c = Amount::new(Currency::SEK, -20);
    let sum2 = a.add(c).unwrap();
    assert_eq!(sum2.value(), -10);
}

#[test]
fn test_amount_add_currency_mismatch() {
    let a = Amount::new(Currency::SEK, 10);
    let b = Amount::new(Currency::DKK, 5);
    match a.add(b) {
        Err(MoneyError::CurrencyMismatch) => {}
        _ => panic!("Expected CurrencyMismatch error"),
    }
}

#[test]
fn test_currency_codes() {
    assert_eq!(Currency::VAC.code(), "VAC");
    assert_eq!(Currency::SEK.code(), "SEK");
    assert_eq!(Currency::DKK.code(), "DKK");

    assert_eq!(Currency::from_code("VAC"), Some(Currency::VAC));
    assert_eq!(Currency::from_code("SEK"), Some(Currency::SEK));
    assert_eq!(Currency::from_code("DKK"), Some(Currency::DKK));
    assert_eq!(Currency::from_code("EUR"), None);
    assert_eq!(Currency::from_code(""), None);
    assert_eq!(Currency::from_code("sek"), None);
}
