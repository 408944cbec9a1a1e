use rqcore::markvalue::MarkValueCache;

#[test]
fn default_universe_parses_into_entries() {
    let mut cache = MarkValueCache::new();
    assert_eq!(cache.ticker_universe_csv, "TAYD,CGAU,DTEGY,ALIZY");
    assert!(cache.entries.is_empty());
    cache.init();
    let tickers: Vec<&str> = cache.entries.iter().map(|e| e.ticker.as_str()).collect();
    assert_eq!(tickers, vec!["TAYD", "CGAU", "DTEGY", "ALIZY"]);
    for e in &cache.entries {
        assert_eq!(e.value_cents, None);
        assert_eq!(e.mark_epoch, 0);
    }
}

#[test]
fn universe_fields_are_trimmed_and_empties_dropped() {
    let mut cache = MarkValueCache::new();
    cache.ticker_universe_csv = "  AAPL , ,PM,  ,NVDA  ".to_string();
    cache.init();
    let tickers: Vec<&str> = cache.entries.iter().map(|e| e.ticker.as_str()).collect();
    assert_eq!(tickers, vec!["AAPL", "PM", "NVDA"]);
}

#[test]
fn empty_universe_yields_no_entries() {
    let mut cache = MarkValueCache::new();
    cache.ticker_universe_csv = "".to_string();
    cache.init();
    assert!(cache.entries.is_empty());
    cache.ticker_universe_csv = " , ,, ".to_string();
    cache.init();
    assert!(cache.entries.is_empty());
}

#[test]
fn lookups_answer_per_ticker() {
    let mut cache = MarkValueCache::new();
    cache.init();
    assert_eq!(cache.get_mark_value("TAYD"), None); // known ticker, no quote yet
    assert_eq!(cache.get_mark_timevalue("TAYD"), Some((None, 0)));
    assert_eq!(cache.get_mark_timevalue("UNKNOWN"), None);
    cache.entries[0].value_cents = Some(725);
    cache.entries[0].mark_epoch = 1736960400;
    assert_eq!(cache.get_mark_value("TAYD"), Some(725));
    assert_eq!(cache.get_mark_timevalue("TAYD"), Some((Some(725), 1736960400)));
}
