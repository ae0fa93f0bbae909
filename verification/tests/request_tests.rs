use attention_lob::request::{decimal_string, orderbook_url};

#[test]
fn url_for_btcusdt() {
    assert_eq!(
        orderbook_url("BTCUSDT", 50),
        "https://api.bybit.com/v5/market/orderbook?category=spot&symbol=BTCUSDT&limit=50"
    );
}

#[test]
fn url_with_zero_limit() {
    assert_eq!(
        orderbook_url("ETHUSDT", 0),
        "https://api.bybit.com/v5/market/orderbook?category=spot&symbol=ETHUSDT&limit=0"
    );
}

#[test]
fn url_with_empty_symbol() {
    assert_eq!(
        orderbook_url("", 200),
        "https://api.bybit.com/v5/market/orderbook?category=spot&symbol=&limit=200"
    );
}

#[test]
fn decimal_matches_to_string() {
    for n in [0usize, 7, 9, 10, 99, 100, 1234567890, usize::MAX] {
        assert_eq!(decimal_string(n), n.to_string());
    }
}
