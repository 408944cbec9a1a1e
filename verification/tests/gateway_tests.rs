use rqcore::config::RqCoreConfig;
use rqcore::email::RqEmail;
use rqcore::error::RqError;
use rqcore::events::{MarketValue, RqOrder, RqOrderType};
use rqcore::gateway::{build_connection_url, BrokersWatcher, Gateway, RoboTrader};
use rqcore::pricing::{OrderPlan, SkipReason};
use rqcore::server_ip::ServerIp;
use rqcore::strutil::{render_u64, str_eq, trim_ascii};

#[test]
fn connection_urls_are_ip_colon_port() {
    let url = build_connection_url(
        ServerIp::sq_core_server_public_ip_for_clients(),
        ServerIp::IB_SERVER_PORT_DCMAIN,
    );
    assert_eq!(url, "34.251.1.119:7303");
    let url2 = build_connection_url(
        ServerIp::sq_core_server_public_ip_for_clients(),
        ServerIp::IB_SERVER_PORT_GYANTAL,
    );
    assert_eq!(url2, "34.251.1.119:7301");
}

#[test]
fn gateway_connection_state() {
    let mut gw = Gateway::new("34.251.1.119:7303", 200);
    assert!(!gw.connected);
    gw.set_connected();
    assert!(gw.connected);
    gw.set_disconnected();
    assert!(!gw.connected);
    assert_eq!(gw.connection_url, "34.251.1.119:7303");
    assert_eq!(gw.client_id, 200);
}

#[test]
fn pool_holds_gateways_in_order() {
    let mut pool = BrokersWatcher::new();
    pool.add_gateway(Gateway::new("a:1", 200));
    pool.add_gateway(Gateway::new("b:2", 200));
    assert_eq!(pool.gateways.len(), 2);
    assert_eq!(pool.gateways[0].connection_url, "a:1");
    assert_eq!(pool.gateways[1].connection_url, "b:2");
}

#[test]
fn client_ids_per_host() {
    assert_eq!(BrokersWatcher::gateway_client_id(false, "anything").unwrap(), 200);
    assert_eq!(BrokersWatcher::gateway_client_id(true, "GYANTAL-PC").unwrap(), 210);
    assert_eq!(BrokersWatcher::gateway_client_id(true, "DAYA-LAPTOP").unwrap(), 215);
    assert_eq!(BrokersWatcher::gateway_client_id(true, "DRCHARMAT-LAPTOP").unwrap(), 216);
    assert!(BrokersWatcher::gateway_client_id(true, "SOMEONE-ELSE").is_err());
}

#[test]
fn planning_a_batch() {
    let orders = vec![
        RqOrder {
            order_type: RqOrderType::Buy,
            ticker: "A".to_string(),
            company_name: "A".to_string(),
            pos_market_value: MarketValue { num_cents: 7_000_000, den: 3 },
            known_last_price: Some(18250),
        },
        RqOrder {
            order_type: RqOrderType::Sell,
            ticker: "B".to_string(),
            company_name: "B".to_string(),
            pos_market_value: MarketValue { num_cents: 6_000_000, den: 1 },
            known_last_price: None,
        },
    ];
    let ticks = vec![None, None];
    let plans = RoboTrader::plan_orders(&orders, &ticks, false);
    assert_eq!(plans.len(), 2);
    assert_eq!(plans[0], OrderPlan::Execute { shares: 127, limit_cents: 18633 });
    assert_eq!(plans[1], OrderPlan::Skip(SkipReason::PriceUnresolved));
}

#[test]
fn addresses() {
    assert_eq!(ServerIp::localhost_loopback_with_ip(), "127.0.0.1");
    assert_eq!(ServerIp::localhost_meta_all_private_ip_with_ip(), "0.0.0.0");
    assert_eq!(ServerIp::health_monitor_public_ip(), "23.20.243.199");
    assert_eq!(ServerIp::health_monitor_public_ipv6(), "::ffff:23.20.243.199");
}

#[test]
fn email_composition() {
    let creds = RqEmail::init("sender@example.com", "app-password");
    assert_eq!(creds.sender_email, "sender@example.com");
    let msg = RqEmail::send_text("ops@example.com", "run ended", "2 orders submitted");
    assert_eq!(msg.to, "ops@example.com");
    assert_eq!(msg.subject, "run ended");
    assert_eq!(msg.body, "2 orders submitted");
    assert!(!msg.is_body_html);
    let html = RqEmail::send_html("ops@example.com", "s", "<b>x</b>");
    assert!(html.is_body_html);
}

#[test]
fn error_messages() {
    let e = RqError::Config("missing key".to_string());
    assert_eq!(e.message(), "Configuration error: missing key");
    let io = RqError::Io("file not found".to_string());
    assert_eq!(io.message(), "IO error: file not found");
}

#[test]
fn config_requires_all_values() {
    let ok = RqCoreConfig::new("id".to_string(), "secret".to_string(), "api".to_string());
    let c = ok.unwrap();
    assert_eq!(c.google_client_id, "id");
    assert_eq!(c.google_client_secret, "secret");
    assert_eq!(c.api_secret_code, "api");
    assert!(RqCoreConfig::new("".to_string(), "s".to_string(), "a".to_string()).is_err());
    assert!(RqCoreConfig::new("i".to_string(), "".to_string(), "a".to_string()).is_err());
    assert!(RqCoreConfig::new("i".to_string(), "s".to_string(), "".to_string()).is_err());
}

#[test]
fn text_helpers() {
    assert_eq!(trim_ascii("  hello world \r\n"), "hello world");
    assert_eq!(trim_ascii("\t\n "), "");
    assert_eq!(trim_ascii("x"), "x");
    assert_eq!(render_u64(0), "0");
    assert_eq!(render_u64(7303), "7303");
    assert_eq!(render_u64(18446744073709551615), "18446744073709551615");
    assert!(str_eq("abc", "abc"));
    assert!(!str_eq("abc", "abd"));
    assert!(!str_eq("abc", "abcd"));
}
