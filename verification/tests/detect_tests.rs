use rqcore::calendar::Date;
use rqcore::detect::{
    classify_article_body, classify_history_body, handle_analysis_response,
    handle_history_response, merge_fallback, BodyClass, DetectFailure, LogNote, TradingSession,
};
use rqcore::events::{MarketValue, RqOrderType, Stock, Transaction, TransactionEvent};

fn d(year: i32, month: u8, day: u8) -> Date {
    Date { year, month, day }
}

#[test]
fn short_body_with_subscription_marker_is_auth_expired() {
    let body = b"<html>Subscription is required to access this page</html>";
    assert_eq!(classify_history_body(body), BodyClass::AuthExpired);
}

#[test]
fn short_body_with_captcha_marker_is_blocked() {
    let body = b"<script src=\"/captcha.js\"></script>";
    assert_eq!(classify_history_body(body), BodyClass::Blocked);
}

#[test]
fn long_body_is_usable_even_with_markers() {
    let mut body = b"Subscription is required".to_vec();
    body.resize(2000, b' ');
    assert_eq!(classify_history_body(&body), BodyClass::Usable);
}

#[test]
fn plain_json_body_is_usable() {
    assert_eq!(classify_history_body(b"{\"data\":[],\"included\":[]}"), BodyClass::Usable);
}

#[test]
fn article_body_without_open_paywall_is_auth_expired() {
    assert_eq!(classify_article_body(b"{\"data\":[]}"), BodyClass::AuthExpired);
}

#[test]
fn article_body_with_open_paywall_is_usable() {
    assert_eq!(
        classify_article_body(b"{\"isPaywalled\":false,\"data\":[]}"),
        BodyClass::Usable
    );
}

#[test]
fn article_body_with_captcha_is_blocked() {
    assert_eq!(
        classify_article_body(b"\"isPaywalled\":false captcha.js"),
        BodyClass::Blocked
    );
}

#[test]
fn fresh_session_defaults() {
    let s = TradingSession::new();
    assert!(s.is_simulation);
    assert!(!s.has_traded);
    assert!(s.cookie.is_none());
    assert!(s.cookie_file_modtime.is_none());
    assert!(!s.cookie_verified_working);
    assert!(s.run_log.is_empty());
}

#[test]
fn cookie_cache_short_circuit() {
    let mut s = TradingSession::new();
    // Nothing cached: any stamp forces a read.
    assert!(s.needs_cookie_check());
    assert!(s.cookie_reload_decision(1000));
    s.store_cookie("  machine=abc; session=def \n", 1000);
    assert_eq!(s.cookie.as_deref(), Some("machine=abc; session=def"));
    // Second call against the unchanged stamp: no reread.
    assert!(!s.cookie_reload_decision(1000));
    // A changed modification stamp forces a reread.
    assert!(s.cookie_reload_decision(2000));
    // Once verified working, even the metadata check is skipped.
    s.cookie_verified_working = true;
    assert!(!s.needs_cookie_check());
    s.mark_cookie_unverified();
    assert!(s.needs_cookie_check());
}

fn sample_history() -> (Vec<Transaction>, Vec<Stock>) {
    let txs = vec![Transaction {
        id: "1".to_string(),
        action: "buy".to_string(),
        action_date: "2025-11-03".to_string(),
        rule: None,
        price: Some("182.50".to_string()),
        ticker_id: "s1".to_string(),
        starting_weight: None,
        new_weight: None,
    }];
    let stocks = vec![Stock {
        id: "s1".to_string(),
        name: "AAPL".to_string(),
        company_name: "Apple Inc.".to_string(),
    }];
    (txs, stocks)
}

#[test]
fn history_auth_failure_is_logged_and_nonfatal() {
    let mut s = TradingSession::new();
    let r = handle_history_response(
        &mut s,
        b"Subscription is required",
        None,
        &d(2025, 11, 3),
    );
    assert_eq!(r.unwrap_err(), DetectFailure::AuthExpired);
    assert_eq!(s.run_log, vec![LogNote::AuthExpired]);
    assert!(!s.cookie_verified_working);
}

#[test]
fn history_malformed_body_is_nonfatal() {
    let mut s = TradingSession::new();
    let r = handle_history_response(&mut s, b"{\"unexpected\": true}", None, &d(2025, 11, 3));
    assert_eq!(r.unwrap_err(), DetectFailure::MalformedResponse);
    assert_eq!(s.run_log, vec![LogNote::MalformedResponse]);
}

#[test]
fn history_parse_marks_cookie_verified() {
    let mut s = TradingSession::new();
    let (txs, stocks) = sample_history();
    let r = handle_history_response(
        &mut s,
        b"{\"data\":[...]}",
        Some((txs, stocks)),
        &d(2025, 11, 3),
    );
    let events = r.unwrap();
    assert_eq!(events.len(), 1);
    assert_eq!(events[0].ticker, "AAPL");
    // A parsed transaction proves the cookie works, independent of the date filter.
    assert!(s.cookie_verified_working);
    assert_eq!(s.run_log, vec![LogNote::ResponseParsed { transactions: 1, stocks: 1 }]);
}

#[test]
fn history_parse_of_empty_data_leaves_cookie_unverified() {
    let mut s = TradingSession::new();
    let r = handle_history_response(
        &mut s,
        b"{\"data\":[],\"included\":[]}",
        Some((Vec::new(), Vec::new())),
        &d(2025, 11, 3),
    );
    assert_eq!(r.unwrap().len(), 0);
    assert!(!s.cookie_verified_working);
}

#[test]
fn analysis_auth_failure_is_logged_and_nonfatal() {
    let mut s = TradingSession::new();
    let r = handle_analysis_response(&mut s, b"{\"data\":[]}", None, &d(2025, 11, 3));
    assert_eq!(r.unwrap_err(), DetectFailure::AuthExpired);
    assert_eq!(s.run_log, vec![LogNote::AuthExpired]);
}

fn ev(id: &str) -> TransactionEvent {
    TransactionEvent {
        transaction_id: id.to_string(),
        order_type: RqOrderType::Buy,
        action_date: d(2025, 11, 3),
        ticker: "T".to_string(),
        company_name: "T".to_string(),
        starting_weight: None,
        new_weight: None,
        price: None,
        pos_market_value: MarketValue { num_cents: 0, den: 1 },
    }
}

#[test]
fn fallback_replaces_only_empty_primary() {
    let merged = merge_fallback(vec![ev("p")], vec![ev("f")]);
    assert_eq!(merged.len(), 1);
    assert_eq!(merged[0].transaction_id, "p");
    let merged2 = merge_fallback(Vec::new(), vec![ev("f1"), ev("f2")]);
    assert_eq!(merged2.len(), 2);
    assert_eq!(merged2[0].transaction_id, "f1");
    let merged3 = merge_fallback(Vec::new(), Vec::new());
    assert!(merged3.is_empty());
}

#[test]
fn history_blocked_failure_is_logged_and_nonfatal() {
    let mut s = TradingSession::new();
    let r = handle_history_response(&mut s, b"see /captcha.js", None, &d(2025, 11, 3));
    assert_eq!(r.unwrap_err(), DetectFailure::Blocked);
    assert_eq!(s.run_log, vec![LogNote::Blocked]);
}

#[test]
fn analysis_blocked_failure_is_logged_and_nonfatal() {
    let mut s = TradingSession::new();
    let r = handle_analysis_response(
        &mut s,
        b"\"isPaywalled\":false and captcha.js",
        None,
        &d(2025, 11, 3),
    );
    assert_eq!(r.unwrap_err(), DetectFailure::Blocked);
    assert_eq!(s.run_log, vec![LogNote::Blocked]);
}
