use currency::models::{CurrencyCode, ExchangeRates};
use std::collections::BTreeMap;

#[test]
fn currency_code_equality_ignores_case() {
    assert!(CurrencyCode::parse("usd") == CurrencyCode::parse("USD"));
    assert!(CurrencyCode::parse("UsD") == CurrencyCode::parse("uSd"));
    assert!(CurrencyCode::parse("usd") != CurrencyCode::parse("eur"));
    assert!(CurrencyCode::parse("usd") != CurrencyCode::parse("usdx"));
    assert!(CurrencyCode::parse("") == CurrencyCode::parse(""));
}

#[test]
fn currency_code_equality_folds_ascii_only() {
    // Only ASCII letters are folded; other characters must be identical.
    assert!(CurrencyCode::parse("é") != CurrencyCode::parse("É"));
    assert!(CurrencyCode::parse("a-b") == CurrencyCode::parse("A-B"));
    assert!(CurrencyCode::parse("[") != CurrencyCode::parse("{"));
}

#[test]
fn currency_code_parse_accepts_any_text() {
    assert_eq!(CurrencyCode::parse("not a code").to_string(), "NOT A CODE");
    assert_eq!(CurrencyCode::parse("").to_string(), "");
}

#[test]
fn currency_code_canonical_text_is_upper_case() {
    assert_eq!(CurrencyCode::parse("usd").to_string(), "USD");
    assert_eq!(CurrencyCode::parse("Pln").to_string(), "PLN");
    assert_eq!(CurrencyCode::parse("EUR").to_string(), "EUR");
}

#[test]
fn get_rate_finds_matching_code_in_any_case() {
    let rates = ExchangeRates::new(vec![
        (CurrencyCode::parse("PLN"), 4.1f64),
        (CurrencyCode::parse("EUR"), 0.9f64),
    ]);
    assert_eq!(rates.get_rate(&CurrencyCode::parse("pln")), Some(4.1));
    assert_eq!(rates.get_rate(&CurrencyCode::parse("EUR")), Some(0.9));
    assert_eq!(rates.get_rate(&CurrencyCode::parse("GBP")), None);
    assert_eq!(rates.len(), 2);
}

#[test]
fn get_rate_first_match_wins() {
    let rates = ExchangeRates::new(vec![
        (CurrencyCode::parse("pln"), 4.0f64),
        (CurrencyCode::parse("PLN"), 5.0f64),
    ]);
    assert_eq!(rates.get_rate(&CurrencyCode::parse("Pln")), Some(4.0));
}

#[test]
fn get_rate_of_empty_set_is_none() {
    let rates: ExchangeRates<f64> = ExchangeRates::new(vec![]);
    assert_eq!(rates.get_rate(&CurrencyCode::parse("USD")), None);
    assert_eq!(rates.len(), 0);
}

#[test]
fn test_deserialize_exchange_rates() {
    let json = r#"{"AED": 3.67306, "AFN": 91.80254, "ALL": 108.22904, "AMD": 480.41659}"#;

    let expected = ExchangeRates::new(vec![
        (CurrencyCode::parse("AED"), 3.67306),
        (CurrencyCode::parse("AFN"), 91.80254),
        (CurrencyCode::parse("ALL"), 108.22904),
        (CurrencyCode::parse("AMD"), 480.41659),
    ]);

    let decoded: BTreeMap<String, f64> = serde_json::from_str(json).unwrap();
    let entries: Vec<(String, f64)> = decoded.into_iter().collect();
    let actual = ExchangeRates::from_entries(&entries);

    assert_eq!(expected, actual);
}

#[test]
fn from_entries_keeps_order_and_reads_codes() {
    let entries = vec![("eur".to_string(), 0.9f64), ("PLN".to_string(), 4.1f64)];
    let rates = ExchangeRates::from_entries(&entries);
    let pairs = rates.rates();
    assert_eq!(pairs.len(), 2);
    assert_eq!(pairs[0].0.to_string(), "EUR");
    assert_eq!(pairs[0].1, 0.9);
    assert_eq!(pairs[1].0.to_string(), "PLN");
    assert_eq!(pairs[1].1, 4.1);
}
