//! Tests for the daemon supervisor decisions and the price poller logic.

use omnitrade_core::daemon::{
    format_duration, get_daemon_log, get_daemon_status, parse_pid, split_lines, start_daemon,
    stop_daemon, tail_lines, DaemonError,
};
use omnitrade_core::poll::{apply_poll_result, poll_symbols};
use omnitrade_core::prices::{
    format_symbol, get_prices_request, norm_decimal, normalize_symbol, parse_ticker_response,
    ticker_url, PriceData,
};

#[test]
fn status_running_with_uptime() {
    // A marker holding a live pid modified 125 minutes ago.
    let (status, remove) = get_daemon_status(Some("12345"), true, Some(125 * 60)).unwrap();
    assert!(status.running);
    assert_eq!(status.pid, Some(12345));
    assert_eq!(status.uptime.as_deref(), Some("2h 5m"));
    assert!(!remove);
}

#[test]
fn status_missing_marker_is_stopped() {
    let (status, remove) = get_daemon_status(None, false, None).unwrap();
    assert!(!status.running);
    assert_eq!(status.pid, None);
    assert_eq!(status.uptime, None);
    assert!(!remove);
}

#[test]
fn status_dead_pid_asks_for_cleanup() {
    let (status, remove) = get_daemon_status(Some("777\n"), false, None).unwrap();
    assert!(!status.running);
    assert_eq!(status.pid, None);
    assert_eq!(status.uptime, None);
    assert!(remove);
}

#[test]
fn status_corrupt_marker_is_a_distinct_error() {
    assert_eq!(
        get_daemon_status(Some("not a pid"), false, None).unwrap_err(),
        DaemonError::CorruptMarker
    );
}

#[test]
fn parse_pid_trims_whitespace() {
    assert_eq!(parse_pid("  4242\n").unwrap(), 4242);
    assert_eq!(parse_pid("1").unwrap(), 1);
    assert_eq!(parse_pid("").unwrap_err(), DaemonError::CorruptMarker);
    assert_eq!(parse_pid("12x3").unwrap_err(), DaemonError::CorruptMarker);
    assert_eq!(parse_pid("99999999999999").unwrap_err(), DaemonError::CorruptMarker);
}

#[test]
fn format_duration_hours_and_minutes() {
    assert_eq!(format_duration(125 * 60), "2h 5m");
    assert_eq!(format_duration(59 * 60), "59m");
    assert_eq!(format_duration(0), "0m");
    assert_eq!(format_duration(3600), "1h 0m");
}

#[test]
fn start_daemon_refuses_when_running() {
    assert_eq!(start_daemon(true).unwrap_err(), DaemonError::AlreadyRunning);
    assert!(start_daemon(false).is_ok());
}

#[test]
fn stop_daemon_refuses_when_stopped() {
    assert_eq!(stop_daemon(false, None).unwrap_err(), DaemonError::NotRunning);
    assert_eq!(stop_daemon(true, Some(77)).unwrap(), Some(77));
}

#[test]
fn tail_returns_whole_file_when_n_exceeds_lines() {
    let lines = get_daemon_log(Some("a\nb\nc\n"), 10);
    assert_eq!(lines, vec!["a", "b", "c"]);
}

#[test]
fn tail_returns_last_n_in_order() {
    let lines = get_daemon_log(Some("one\ntwo\nthree\nfour"), 2);
    assert_eq!(lines, vec!["three", "four"]);
}

#[test]
fn tail_missing_log_is_empty() {
    assert_eq!(get_daemon_log(None, 50).len(), 0);
}

#[test]
fn split_lines_handles_crlf() {
    assert_eq!(split_lines("a\r\nb\nc"), vec!["a", "b", "c"]);
    assert_eq!(split_lines("").len(), 0);
}

#[test]
fn tail_lines_of_exact_length() {
    let lines: Vec<String> = vec!["x".to_string(), "y".to_string()];
    assert_eq!(tail_lines(&lines, 2), vec!["x", "y"]);
    assert_eq!(tail_lines(&lines, 0).len(), 0);
}

#[test]
fn symbols_normalize_and_format() {
    assert_eq!(normalize_symbol("BTC/USDT"), "BTCUSDT");
    assert_eq!(normalize_symbol("BTCUSDT"), "BTCUSDT");
    assert_eq!(format_symbol("BTCUSDT"), "BTC/USDT");
    assert_eq!(format_symbol("DOGEBTC"), "DOGEBTC");
    assert_eq!(format_symbol("USDT"), "/USDT");
}

#[test]
fn ticker_url_percent_encodes_the_batch() {
    let symbols = vec!["BTCUSDT".to_string(), "ETHUSDT".to_string()];
    let url = ticker_url(&symbols);
    assert_eq!(
        url,
        "https://api.binance.com/api/v3/ticker/24hr?symbols=%5B%22BTCUSDT%22%2C%22ETHUSDT%22%5D"
    );
}

#[test]
fn prices_request_strips_separators_first() {
    let url = get_prices_request(&vec!["BTC/USDT".to_string()]);
    assert_eq!(
        url,
        "https://api.binance.com/api/v3/ticker/24hr?symbols=%5B%22BTCUSDT%22%5D"
    );
}

#[test]
fn ticker_response_becomes_snapshots() {
    let body = "[{\"symbol\": \"BTCUSDT\", \"lastPrice\": \"65000.5\", \"priceChangePercent\": \"3.2\", \"quoteVolume\": \"1000000.0\"}]";
    let prices = parse_ticker_response(body).unwrap();
    assert_eq!(prices.len(), 1);
    assert_eq!(prices[0].symbol, "BTC/USDT");
    assert_eq!(prices[0].price, "65000.5");
    assert_eq!(prices[0].price.parse::<f64>().unwrap(), 65000.5);
    assert_eq!(prices[0].change_24h, "3.2");
    assert_eq!(prices[0].change_24h.parse::<f64>().unwrap(), 3.2);
    assert_eq!(prices[0].volume_24h, "1000000.0");
    assert_eq!(prices[0].volume_24h.parse::<f64>().unwrap(), 1000000.0);
}

#[test]
fn unparseable_price_becomes_zero_for_that_field_only() {
    let body = "[{\"symbol\": \"ETHUSDT\", \"lastPrice\": \"oops\", \"priceChangePercent\": \"1.1\", \"quoteVolume\": \"5\"}]";
    let prices = parse_ticker_response(body).unwrap();
    assert_eq!(prices.len(), 1);
    assert_eq!(prices[0].price, "0");
    assert_eq!(prices[0].price.parse::<f64>().unwrap(), 0.0);
    assert_eq!(prices[0].change_24h, "1.1");
    assert_eq!(prices[0].volume_24h, "5");
}

#[test]
fn ticker_response_skips_unknown_fields() {
    let body = "[{\"symbol\": \"BTCUSDT\", \"weightedAvgPrice\": \"64000.1\", \"count\": 12345, \"firstId\": -1, \"lastPrice\": \"65000.5\", \"priceChangePercent\": \"3.2\", \"openTime\": 1700000000000, \"quoteVolume\": \"1000000.0\", \"closed\": true, \"gap\": null}]";
    let prices = parse_ticker_response(body).unwrap();
    assert_eq!(prices.len(), 1);
    assert_eq!(prices[0].symbol, "BTC/USDT");
    assert_eq!(prices[0].price, "65000.5");
}

#[test]
fn malformed_batch_is_refused_whole() {
    assert!(parse_ticker_response("{\"oops\": 1}").is_err());
    assert!(parse_ticker_response("[{\"symbol\": \"X\"}]").is_err());
}

#[test]
fn poller_watches_the_fixed_set() {
    let symbols = poll_symbols();
    assert_eq!(
        symbols,
        vec!["BTCUSDT", "ETHUSDT", "SOLUSDT", "BNBUSDT", "XRPUSDT", "ADAUSDT"]
    );
}

fn snapshot(symbol: &str) -> PriceData {
    PriceData {
        symbol: symbol.to_string(),
        price: "1.0".to_string(),
        change_24h: "0".to_string(),
        volume_24h: "2.0".to_string(),
    }
}

#[test]
fn poll_success_replaces_cache_and_publishes() {
    let cache = vec![snapshot("OLD/USDT")];
    let fetched = Ok(vec![snapshot("BTC/USDT"), snapshot("ETH/USDT")]);
    let (new_cache, publish) = apply_poll_result(cache, fetched);
    assert!(publish);
    assert_eq!(new_cache.len(), 2);
    assert_eq!(new_cache[0].symbol, "BTC/USDT");
}

#[test]
fn poll_failure_keeps_cache_and_stays_quiet() {
    let cache = vec![snapshot("OLD/USDT")];
    let (new_cache, publish) = apply_poll_result(cache, Err(3));
    assert!(!publish);
    assert_eq!(new_cache.len(), 1);
    assert_eq!(new_cache[0].symbol, "OLD/USDT");
}

#[test]
fn norm_decimal_accepts_plain_decimals() {
    assert_eq!(norm_decimal("-12.5".to_string()), "-12.5");
    assert_eq!(norm_decimal("0".to_string()), "0");
    assert_eq!(norm_decimal("1e5".to_string()), "0");
    assert_eq!(norm_decimal(".5".to_string()), "0");
    assert_eq!(norm_decimal("5.".to_string()), "0");
    assert_eq!(norm_decimal("1.2.3".to_string()), "0");
}

#[test]
fn generated_ids_are_short_hex() {
    let id = omnitrade_core::alerts::generate_id();
    assert!(!id.is_empty());
    assert!(id.len() <= 6);
    assert!(id.chars().all(|c| c.is_ascii_hexdigit()));
}

#[test]
fn parse_pid_accepts_the_largest_pid() {
    assert_eq!(parse_pid("4294967295").unwrap(), u32::MAX);
    assert_eq!(parse_pid("4294967296").unwrap_err(), DaemonError::CorruptMarker);
}
