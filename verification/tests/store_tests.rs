//! Tests for the durable collection stores: alerts, schedules, credentials
//! and the paper wallet.

use omnitrade_core::alerts::{
    add_alert, get_alerts, load_alerts, make_alert, parse_alerts, remove_alert, remove_from,
    save_alerts, Alert,
};
use omnitrade_core::config::{
    default_config, get_config, mask_key, parse_config, render_config, save_exchange,
    upsert_exchange, Config,
};
use omnitrade_core::dca::{
    get_dca_configs, parse_dca_configs, save_dca_configs, toggle_dca, toggle_in, DCAConfig,
};
use omnitrade_core::portfolio::{
    get_live_portfolio, get_paper_portfolio, parse_wallet, render_wallet,
};
use omnitrade_core::store::StoreError;

fn sample_alert(id: &str, symbol: &str) -> Alert {
    Alert {
        id: id.to_string(),
        symbol: symbol.to_string(),
        condition: "above".to_string(),
        target_price: "65000.5".to_string(),
        created_at: 1700000000000,
        triggered: false,
        triggered_at: None,
        exchange: Some("binance".to_string()),
    }
}

#[test]
fn load_alerts_missing_file_is_empty() {
    let r = load_alerts(None).unwrap();
    assert_eq!(r.len(), 0);
    let r = get_alerts(None).unwrap();
    assert_eq!(r.len(), 0);
}

#[test]
fn alerts_save_then_parse_round_trips() {
    let alerts = vec![sample_alert("alert_1_a", "BTC/USDT"), sample_alert("alert_2_b", "ETH/USDT")];
    let text = save_alerts(&alerts);
    let back = parse_alerts(&text).unwrap();
    assert_eq!(back.len(), 2);
    assert_eq!(back[0].id, "alert_1_a");
    assert_eq!(back[0].symbol, "BTC/USDT");
    assert_eq!(back[0].condition, "above");
    assert_eq!(back[0].target_price, "65000.5");
    assert_eq!(back[0].created_at, 1700000000000);
    assert!(!back[0].triggered);
    assert_eq!(back[0].triggered_at, None);
    assert_eq!(back[0].exchange.as_deref(), Some("binance"));
    assert_eq!(back[1].id, "alert_2_b");
}

#[test]
fn alerts_round_trip_escapes_and_options() {
    let mut a = sample_alert("has \"quotes\"\nand\tescapes\\", "X/USDT");
    a.triggered = true;
    a.triggered_at = Some(-5);
    a.exchange = None;
    let text = save_alerts(&vec![a]);
    let back = parse_alerts(&text).unwrap();
    assert_eq!(back.len(), 1);
    assert_eq!(back[0].id, "has \"quotes\"\nand\tescapes\\");
    assert!(back[0].triggered);
    assert_eq!(back[0].triggered_at, Some(-5));
    assert_eq!(back[0].exchange, None);
}

#[test]
fn alerts_empty_collection_round_trips() {
    let text = save_alerts(&Vec::new());
    assert_eq!(text, "{\n  \"alerts\": []\n}");
    let back = parse_alerts(&text).unwrap();
    assert_eq!(back.len(), 0);
}

#[test]
fn alerts_corrupt_file_is_an_error() {
    assert!(matches!(parse_alerts("not json"), Err(StoreError::CorruptState(_))));
    assert!(matches!(parse_alerts("{\"alerts\": [{}]}"), Err(StoreError::CorruptState(_))));
}

#[test]
fn remove_filters_by_id_and_is_idempotent() {
    let alerts = vec![
        sample_alert("a", "BTC/USDT"),
        sample_alert("b", "ETH/USDT"),
        sample_alert("a", "SOL/USDT"),
    ];
    let removed = remove_from(&alerts, "a");
    assert_eq!(removed.len(), 1);
    assert_eq!(removed[0].id, "b");
    // Removing an id that is not present is a no-op.
    let untouched = remove_from(&alerts, "zzz");
    assert_eq!(untouched.len(), 3);
    assert_eq!(untouched[0].id, "a");
    assert_eq!(untouched[1].id, "b");
    assert_eq!(untouched[2].id, "a");
}

#[test]
fn inserts_minus_removed_ids_in_order() {
    // A serial add/remove history leaves exactly the inserts minus the
    // removed ids, in insertion order.
    let mut alerts: Vec<Alert> = Vec::new();
    alerts.push(sample_alert("one", "A/USDT"));
    alerts.push(sample_alert("two", "B/USDT"));
    alerts = remove_from(&alerts, "one");
    alerts.push(sample_alert("three", "C/USDT"));
    alerts = remove_from(&alerts, "missing");
    let ids: Vec<&str> = alerts.iter().map(|a| a.id.as_str()).collect();
    assert_eq!(ids, vec!["two", "three"]);
}

#[test]
fn add_alert_assigns_fields_and_persists() {
    let (text, alert) = add_alert(None, "BTC/USDT".to_string(), "above".to_string(),
        "65000.5".to_string()).unwrap();
    assert_eq!(alert.symbol, "BTC/USDT");
    assert_eq!(alert.condition, "above");
    assert_eq!(alert.target_price, "65000.5");
    assert!(!alert.triggered);
    assert_eq!(alert.triggered_at, None);
    assert_eq!(alert.exchange.as_deref(), Some("binance"));
    assert!(alert.id.starts_with("alert_"));
    let back = parse_alerts(&text).unwrap();
    assert_eq!(back.len(), 1);
    assert_eq!(back[0].id, alert.id);
}

#[test]
fn make_alert_composes_the_id() {
    let a = make_alert("X".to_string(), "below".to_string(), "1.5".to_string(), 42, "abc");
    assert_eq!(a.id, "alert_42_abc");
    assert_eq!(a.created_at, 42);
}

#[test]
fn remove_alert_on_missing_file_writes_empty() {
    let text = remove_alert(None, "anything").unwrap();
    assert_eq!(text, "{\n  \"alerts\": []\n}");
}

fn sample_dca(id: &str, enabled: bool) -> DCAConfig {
    DCAConfig {
        id: id.to_string(),
        asset: "BTC".to_string(),
        amount: "25.0".to_string(),
        frequency: "weekly".to_string(),
        enabled,
        last_run: None,
        next_run: Some(1700000500000),
        executions: 3,
    }
}

#[test]
fn dca_save_then_parse_round_trips() {
    let configs = vec![sample_dca("dca1", true), sample_dca("dca2", false)];
    let text = save_dca_configs(&configs);
    let back = parse_dca_configs(&text).unwrap();
    assert_eq!(back.len(), 2);
    assert_eq!(back[0].id, "dca1");
    assert_eq!(back[0].asset, "BTC");
    assert_eq!(back[0].amount, "25.0");
    assert_eq!(back[0].frequency, "weekly");
    assert!(back[0].enabled);
    assert_eq!(back[0].last_run, None);
    assert_eq!(back[0].next_run, Some(1700000500000));
    assert_eq!(back[0].executions, 3);
    assert!(!back[1].enabled);
}

#[test]
fn dca_missing_file_is_empty() {
    assert_eq!(get_dca_configs(None).unwrap().len(), 0);
}

#[test]
fn toggle_sets_first_match_only() {
    let configs = vec![sample_dca("a", false), sample_dca("b", false), sample_dca("a", false)];
    let toggled = toggle_in(&configs, "a", true);
    assert!(toggled[0].enabled);
    assert!(!toggled[1].enabled);
    assert!(!toggled[2].enabled);
}

#[test]
fn toggle_missing_id_is_a_noop() {
    let configs = vec![sample_dca("a", true)];
    let toggled = toggle_in(&configs, "nope", false);
    assert!(toggled[0].enabled);
    let text = toggle_dca(Some(&save_dca_configs(&configs)), "nope", false).unwrap();
    let back = parse_dca_configs(&text).unwrap();
    assert!(back[0].enabled);
}

#[test]
fn toggle_round_trips_through_the_file() {
    let configs = vec![sample_dca("a", true)];
    let text = save_dca_configs(&configs);
    let text2 = toggle_dca(Some(&text), "a", false).unwrap();
    let back = parse_dca_configs(&text2).unwrap();
    assert!(!back[0].enabled);
}

#[test]
fn mask_key_reveals_only_edges() {
    // Length >= 10: exactly the first and last five characters survive.
    assert_eq!(mask_key("abcdefghijklmnop"), "abcde...lmnop");
    assert_eq!(mask_key("0123456789"), "01234...56789");
    // Length < 10: a fixed placeholder.
    assert_eq!(mask_key("shortkey1"), "***");
    assert_eq!(mask_key(""), "***");
}

#[test]
fn get_config_defaults_when_missing() {
    let c = get_config(None).unwrap();
    assert_eq!(c.exchanges.len(), 0);
    let s = c.security.unwrap();
    assert_eq!(s.max_order_size, "100.0");
    assert!(s.confirm_trades);
    assert!(c.notifications.is_none());
}

#[test]
fn save_exchange_then_get_config_redacts() {
    let text = save_exchange(
        None,
        "binance".to_string(),
        "AKEY567890REST".to_string(),
        "s3cr3t".to_string(),
        false,
    )
    .unwrap();
    let c = get_config(Some(&text)).unwrap();
    assert_eq!(c.exchanges.len(), 1);
    assert_eq!(c.exchanges[0].name, "binance");
    // The key shows only its edges; the secret is fully replaced.
    assert_eq!(c.exchanges[0].config.api_key, "AKEY5...0REST");
    assert_eq!(c.exchanges[0].config.secret, "********");
    assert!(!c.exchanges[0].config.testnet);
}

#[test]
fn save_exchange_upserts_by_name() {
    let text1 = save_exchange(None, "kraken".to_string(), "firstkey99".to_string(),
        "s1".to_string(), false).unwrap();
    let text2 = save_exchange(Some(&text1), "kraken".to_string(), "secondkey9".to_string(),
        "s2".to_string(), true).unwrap();
    let c = parse_config(&text2).unwrap();
    assert_eq!(c.exchanges.len(), 1);
    assert_eq!(c.exchanges[0].config.api_key, "secondkey9");
    assert!(c.exchanges[0].config.testnet);
    let text3 = save_exchange(Some(&text2), "bybit".to_string(), "thirdkey99".to_string(),
        "s3".to_string(), false).unwrap();
    let c = parse_config(&text3).unwrap();
    assert_eq!(c.exchanges.len(), 2);
    assert_eq!(c.exchanges[1].name, "bybit");
}

#[test]
fn config_round_trips_with_notifications() {
    let mut c = default_config();
    c = upsert_exchange(c, "binance".to_string(), "k1234567890".to_string(),
        "s3cr3t".to_string(), true);
    c.notifications = Some(omnitrade_core::config::NotificationConfig {
        native: Some(true),
        telegram: Some(omnitrade_core::config::TelegramConfig {
            enabled: true,
            bot_token: Some("tok".to_string()),
            chat_id: None,
        }),
        discord: None,
    });
    let text = render_config(&c);
    let back: Config = parse_config(&text).unwrap();
    assert_eq!(back.exchanges.len(), 1);
    assert_eq!(back.exchanges[0].config.api_key, "k1234567890");
    let n = back.notifications.unwrap();
    assert_eq!(n.native, Some(true));
    let t = n.telegram.unwrap();
    assert!(t.enabled);
    assert_eq!(t.bot_token.as_deref(), Some("tok"));
    assert_eq!(t.chat_id, None);
    assert!(n.discord.is_none());
}

#[test]
fn paper_wallet_defaults_when_missing() {
    let w = get_paper_portfolio(None, 1700000000000).unwrap();
    assert_eq!(w.version, 1);
    assert_eq!(w.created_at, 1700000000000);
    assert_eq!(w.usdt, "10000.0");
    assert_eq!(w.usdt.parse::<f64>().unwrap(), 10000.0);
    assert_eq!(w.holdings.len(), 0);
}

#[test]
fn paper_wallet_parses_holdings() {
    let text = "{\n  \"version\": 1,\n  \"createdAt\": 1700000000000,\n  \"usdt\": 9000.5,\n  \"holdings\": {\n    \"BTC\": {\n      \"asset\": \"BTC\",\n      \"amount\": 0.5,\n      \"avgBuyPrice\": 60000.0,\n      \"totalCost\": 30000.0\n    }\n  }\n}";
    let w = parse_wallet(text).unwrap();
    assert_eq!(w.version, 1);
    assert_eq!(w.usdt, "9000.5");
    assert_eq!(w.holdings.len(), 1);
    assert_eq!(w.holdings[0].name, "BTC");
    assert_eq!(w.holdings[0].holding.asset, "BTC");
    assert_eq!(w.holdings[0].holding.amount, "0.5");
    assert_eq!(w.holdings[0].holding.avg_buy_price, "60000.0");
    assert_eq!(w.holdings[0].holding.total_cost, "30000.0");
}

#[test]
fn live_portfolio_is_a_stub() {
    let p = get_live_portfolio("binance");
    assert_eq!(p.total_value, "0.0");
    assert_eq!(p.total_value.parse::<f64>().unwrap(), 0.0);
    assert_eq!(p.holdings.len(), 0);
}

#[test]
fn alerts_round_trip_extreme_timestamps() {
    let mut a = sample_alert("edge", "BTC/USDT");
    a.created_at = i64::MIN;
    a.triggered_at = Some(i64::MAX);
    let text = save_alerts(&vec![a]);
    let back = parse_alerts(&text).unwrap();
    assert_eq!(back[0].created_at, i64::MIN);
    assert_eq!(back[0].triggered_at, Some(i64::MAX));
}


#[test]
fn wallet_render_then_parse_round_trips() {
    let w = get_paper_portfolio(None, 77).unwrap();
    let text = render_wallet(&w);
    let back = parse_wallet(&text).unwrap();
    assert_eq!(back.version, 1);
    assert_eq!(back.created_at, 77);
    assert_eq!(back.usdt, "10000.0");
    assert_eq!(back.holdings.len(), 0);
}

#[test]
fn collection_files_are_canonical() {
    // A whitespace variant of a valid file is refused as corrupt: the store
    // accepts exactly what it writes.
    assert!(matches!(
        parse_alerts("{ \"alerts\": [] }"),
        Err(StoreError::CorruptState(_))
    ));
    assert!(matches!(
        parse_dca_configs("{\"configs\":[]}"),
        Err(StoreError::CorruptState(_))
    ));
}

#[test]
fn config_with_duplicate_names_is_refused() {
    let mut c = default_config();
    c = upsert_exchange(c, "kraken".to_string(), "k1".to_string(), "s1".to_string(), false);
    c.exchanges.push(omnitrade_core::config::ExchangeEntry {
        name: "kraken".to_string(),
        config: omnitrade_core::config::ExchangeConfig {
            api_key: "k2".to_string(),
            secret: "s2".to_string(),
            testnet: true,
        },
    });
    let text = render_config(&c);
    assert!(matches!(parse_config(&text), Err(StoreError::CorruptState(_))));
}

#[test]
fn non_decimal_numeric_fields_are_refused() {
    // A stored exponent-notation or junk number is not a plain decimal and
    // the file is refused, keeping every loaded numeric field decimal.
    let mut a = sample_alert("e", "X/USDT");
    a.target_price = "1e5".to_string();
    let text = save_alerts(&vec![a]);
    assert!(matches!(parse_alerts(&text), Err(StoreError::CorruptState(_))));
    let mut d = sample_dca("d", true);
    d.amount = "2.5e3".to_string();
    let text = save_dca_configs(&vec![d]);
    assert!(matches!(parse_dca_configs(&text), Err(StoreError::CorruptState(_))));
}
