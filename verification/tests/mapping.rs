use bitmex_outcomes::index::Index;
use bitmex_outcomes::outcome::concat_outcomes;
use bitmex_outcomes::outcome::map_quotes;
use bitmex_outcomes::outcome::BitmexOutcome;
use bitmex_outcomes::outcome::Quote;
use bitmex_outcomes::timestamp::Timestamp;

fn ts(year: u16, month: u8, day: u8, hour: u8, minute: u8, second: u8) -> Timestamp {
    Timestamp { year, month, day, hour, minute, second }
}

#[test]
fn maps_quote_to_truncated_outcome() {
    let price: u64 = 16999.6_f64 as u64;
    let quote = Quote { timestamp: ts(2023, 1, 1, 0, 0, 0), last_price: price };
    let outcome = BitmexOutcome::new(quote, Index::Btc).unwrap();
    assert_eq!(outcome.id, "/BXBT/2023-01-01T00:00:00.price");
    assert_eq!(outcome.outcome, "16999");
}

#[test]
fn mapping_is_deterministic() {
    let quote = Quote { timestamp: ts(2024, 12, 31, 23, 59, 59), last_price: 42 };
    let first = BitmexOutcome::new(quote, Index::Eth).unwrap();
    let second = BitmexOutcome::new(quote, Index::Eth).unwrap();
    assert_eq!(first, second);
    assert_eq!(first.id, "/BETH/2024-12-31T23:59:59.price");
    assert_eq!(first.outcome, "42");
}

#[test]
fn components_are_zero_padded() {
    let quote = Quote { timestamp: ts(7, 3, 4, 5, 6, 9), last_price: 0 };
    let outcome = BitmexOutcome::new(quote, Index::Btc).unwrap();
    assert_eq!(outcome.id, "/BXBT/0007-03-04T05:06:09.price");
    assert_eq!(outcome.outcome, "0");
}

#[test]
fn largest_price_is_rendered_in_full() {
    let quote = Quote { timestamp: ts(2023, 6, 15, 12, 0, 0), last_price: u64::MAX };
    let outcome = BitmexOutcome::new(quote, Index::Btc).unwrap();
    assert_eq!(outcome.outcome, "18446744073709551615");
}

#[test]
fn out_of_range_timestamp_is_a_format_error() {
    let bad_month = Quote { timestamp: ts(2023, 13, 1, 0, 0, 0), last_price: 1 };
    assert!(BitmexOutcome::new(bad_month, Index::Btc).is_err());
    let bad_day = Quote { timestamp: ts(2023, 1, 0, 0, 0, 0), last_price: 1 };
    assert!(BitmexOutcome::new(bad_day, Index::Btc).is_err());
    let bad_year = Quote { timestamp: ts(10000, 1, 1, 0, 0, 0), last_price: 1 };
    assert!(BitmexOutcome::new(bad_year, Index::Btc).is_err());
}

#[test]
fn one_page_of_three_quotes_keeps_order() {
    let quotes = vec![
        Quote { timestamp: ts(2023, 1, 1, 0, 2, 0), last_price: 3 },
        Quote { timestamp: ts(2023, 1, 1, 0, 1, 0), last_price: 2 },
        Quote { timestamp: ts(2023, 1, 1, 0, 0, 0), last_price: 1 },
    ];
    let outcomes = map_quotes(&quotes, Index::Btc).unwrap();
    let batch = concat_outcomes(vec![outcomes]);
    assert_eq!(batch.len(), 3);
    assert_eq!(batch[0].id, "/BXBT/2023-01-01T00:02:00.price");
    assert_eq!(batch[0].outcome, "3");
    assert_eq!(batch[1].id, "/BXBT/2023-01-01T00:01:00.price");
    assert_eq!(batch[1].outcome, "2");
    assert_eq!(batch[2].id, "/BXBT/2023-01-01T00:00:00.price");
    assert_eq!(batch[2].outcome, "1");
}

#[test]
fn pages_are_concatenated_in_page_order() {
    let first_page = map_quotes(
        &vec![Quote { timestamp: ts(2023, 2, 1, 10, 30, 0), last_price: 10 }],
        Index::Eth,
    )
    .unwrap();
    let second_page = map_quotes(
        &vec![
            Quote { timestamp: ts(2023, 2, 1, 9, 30, 0), last_price: 20 },
            Quote { timestamp: ts(2023, 2, 1, 8, 30, 0), last_price: 30 },
        ],
        Index::Eth,
    )
    .unwrap();
    let batch = concat_outcomes(vec![first_page, second_page, Vec::new()]);
    let values: Vec<&str> = batch.iter().map(|o| o.outcome.as_str()).collect();
    assert_eq!(values, vec!["10", "20", "30"]);
}

#[test]
fn failing_quote_fails_the_whole_page() {
    let quotes = vec![
        Quote { timestamp: ts(2023, 1, 1, 0, 0, 0), last_price: 1 },
        Quote { timestamp: ts(2023, 0, 1, 0, 0, 0), last_price: 2 },
    ];
    assert!(map_quotes(&quotes, Index::Btc).is_err());
}
