use bitmex_outcomes::index::Index;

#[test]
fn supported_selectors_map_to_their_index() {
    for selector in ["btc", "BTC", "Bitcoin", "bItCoIn"] {
        assert_eq!(Index::from_str(selector), Ok(Index::Btc));
    }
    for selector in ["eth", "ETH", "Ether", "ethereum", "ETHEREUM"] {
        assert_eq!(Index::from_str(selector), Ok(Index::Eth));
    }
}

#[test]
fn unsupported_selectors_are_config_errors() {
    for selector in ["", "doge", "btcc", "bit coin", "ethe", "étc", "bitcoin "] {
        assert!(Index::from_str(selector).is_err());
    }
}

#[test]
fn symbols_follow_the_index() {
    assert_eq!(Index::Btc.as_bitmex_symbol(), "BXBT");
    assert_eq!(Index::Eth.as_bitmex_symbol(), "BETH");
}

#[test]
fn query_values_name_the_symbol() {
    assert_eq!(Index::Btc.symbol_param(), ".BXBT");
    assert_eq!(
        Index::Eth.minute_filter_param(),
        "{\"symbol\": \".BETH\", \"timestamp.ss\": \"00\"}"
    );
}

#[test]
fn decimal_rendering_matches_std() {
    for n in [0u64, 1, 9, 10, 99, 100, 500, 1000, 16999, u64::MAX] {
        assert_eq!(bitmex_outcomes::digits::u64_to_string(n), n.to_string());
    }
}
