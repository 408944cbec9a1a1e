//! Rebalance detection: classify a fetched response body before parsing,
//! manage the per-run session state (cookie cache, "cookie verified
//! working" flag, run log, exactly-once trading flag), and turn parsed
//! response data into the target date's events.

use vstd::prelude::*;

use crate::calendar::Date;
use crate::events::{
    build_tag_items, events_view, extract_article_events, extract_articles_spec,
    extract_history_events, extract_history_spec, tag_items_spec, Article, IncludedItem, Stock,
    Transaction, TransactionEvent,
};
use crate::strutil::{contains_bytes, contains_seq, trim_ascii, trim_spec};

verus! {

/// What a response body looks like before structured parsing.
#[derive(Clone, Copy, Debug, PartialEq, Eq, Structural)]
pub enum BodyClass {
    /// Worth parsing.
    Usable,
    /// The subscription or cookie is no longer accepted.
    AuthExpired,
    /// An anti-bot challenge was served.
    Blocked,
}

/// Why a detector call produced no events.  All of these are non-fatal: the
/// caller logs them and retries on the next poll tick.
#[derive(Clone, Copy, Debug, PartialEq, Eq, Structural)]
pub enum DetectFailure {
    AuthExpired,
    Blocked,
    MalformedResponse,
}

/// One entry of the session's run log (rendered to text by the caller when
/// the end-of-run notification is sent).
#[derive(Clone, Copy, Debug, PartialEq, Eq, Structural)]
pub enum LogNote {
    CookieRefreshed,
    AuthExpired,
    Blocked,
    MalformedResponse,
    ResponseParsed { transactions: usize, stocks: usize },
    NoEvents,
    TooManyEvents { count: usize },
    AlreadyTraded,
    TradeStarted { orders: usize },
}

/// The marker whose presence in a short body means the subscription expired.
pub open spec fn subscription_marker() -> Seq<u8> {
    vstd::utf8::encode_utf8("Subscription is required"@)
}

/// The marker whose presence means an anti-bot challenge.
pub open spec fn captcha_marker() -> Seq<u8> {
    vstd::utf8::encode_utf8("captcha.js"@)
}

/// The marker whose absence from an article body means the paywall was not
/// lifted for this session.
pub open spec fn paywall_open_marker() -> Seq<u8> {
    vstd::utf8::encode_utf8("\"isPaywalled\":false"@)
}

/// Classification of a transaction-history body: an anomalously short body
/// is checked for the subscription and captcha markers; anything else is
/// parsed.
pub open spec fn classify_history_spec(b: Seq<u8>) -> BodyClass {
    if b.len() < 1000 && contains_seq(b, subscription_marker()) {
        BodyClass::AuthExpired
    } else if b.len() < 1000 && contains_seq(b, captcha_marker()) {
        BodyClass::Blocked
    } else {
        BodyClass::Usable
    }
}

/// Classification of an analysis (article) body: without the open-paywall
/// marker the articles carry no tickers, so the body is unusable; the
/// captcha marker means a challenge.
pub open spec fn classify_article_spec(b: Seq<u8>) -> BodyClass {
    if !contains_seq(b, paywall_open_marker()) {
        BodyClass::AuthExpired
    } else if contains_seq(b, captcha_marker()) {
        BodyClass::Blocked
    } else {
        BodyClass::Usable
    }
}

/// Classify a transaction-history response body before parsing it.
pub fn classify_history_body(body: &[u8]) -> (r: BodyClass)
    ensures
        r == classify_history_spec(body@),
{
    if body.len() < 1000 {
        if contains_bytes(body, "Subscription is required".as_bytes()) {
            return BodyClass::AuthExpired;
        }
        if contains_bytes(body, "captcha.js".as_bytes()) {
            return BodyClass::Blocked;
        }
    }
    BodyClass::Usable
}

/// Classify an analysis response body before parsing it.
pub fn classify_article_body(body: &[u8]) -> (r: BodyClass)
    ensures
        r == classify_article_spec(body@),
{
    if !contains_bytes(body, "\"isPaywalled\":false".as_bytes()) {
        BodyClass::AuthExpired
    } else if contains_bytes(body, "captcha.js".as_bytes()) {
        BodyClass::Blocked
    } else {
        BodyClass::Usable
    }
}

/// Mutable per-run state: created fresh for each scheduled run and destroyed
/// at its end.
pub struct TradingSession {
    /// True until a run is confirmed live; no broker submission happens
    /// while set.
    pub is_simulation: bool,
    /// Monotonic: set when orders are handed to the broker layer, checked
    /// before, so one session never trades twice.
    pub has_traded: bool,
    /// Cached session cookie (the raw header value, trimmed).
    pub cookie: Option<String>,
    /// Modification stamp of the cookie file when the cookie was read.
    pub cookie_file_modtime: Option<u128>,
    /// Set once a structured record has been parsed from a response, which
    /// proves the cookie itself works; skips further cookie-file checks.
    pub cookie_verified_working: bool,
    /// Accumulated notes of what the run did, for the end-of-run
    /// notification.
    pub run_log: Vec<LogNote>,
}

impl TradingSession {
    /// A fresh session: simulation mode, nothing traded, no cookie cached.
    pub fn new() -> (r: TradingSession)
        ensures
            r.is_simulation,
            !r.has_traded,
            r.cookie is None,
            r.cookie_file_modtime is None,
            !r.cookie_verified_working,
            r.run_log@ == Seq::<LogNote>::empty(),
    {
        TradingSession {
            is_simulation: true,
            has_traded: false,
            cookie: None,
            cookie_file_modtime: None,
            cookie_verified_working: false,
            run_log: Vec::new(),
        }
    }

    /// Whether the cookie file needs to be looked at at all.  Once the
    /// cookie is verified working, even the metadata check is skipped.
    pub fn needs_cookie_check(&self) -> (r: bool)
        ensures
            r == !self.cookie_verified_working,
    {
        !self.cookie_verified_working
    }

    /// Whether the cookie file's contents must be (re)read, given its
    /// current modification stamp: only when no cookie is cached or the
    /// stamp changed since the cached one was read.
    pub fn cookie_reload_decision(&self, file_modtime: u128) -> (r: bool)
        ensures
            r == cookie_reload_spec(self, file_modtime),
    {
        match (&self.cookie, &self.cookie_file_modtime) {
            (Some(_), Some(t)) => *t != file_modtime,
            _ => true,
        }
    }

    /// Cache a cookie read from the cookie file: the stored value is the
    /// content with surrounding ASCII whitespace trimmed.
    pub fn store_cookie(&mut self, content: &str, file_modtime: u128)
        ensures
            final(self).cookie matches Some(c) && c@ == trim_spec(content@),
            final(self).cookie_file_modtime == Some(file_modtime),
            final(self).run_log@ == old(self).run_log@.push(LogNote::CookieRefreshed),
            final(self).is_simulation == old(self).is_simulation,
            final(self).has_traded == old(self).has_traded,
            final(self).cookie_verified_working == old(self).cookie_verified_working,
    {
        self.cookie = Some(trim_ascii(content));
        self.cookie_file_modtime = Some(file_modtime);
        self.run_log.push(LogNote::CookieRefreshed);
    }

    /// Forget that the cookie is known to work (called before each fetch;
    /// the response then re-proves it).
    pub fn mark_cookie_unverified(&mut self)
        ensures
            !final(self).cookie_verified_working,
            final(self).is_simulation == old(self).is_simulation,
            final(self).has_traded == old(self).has_traded,
            final(self).cookie == old(self).cookie,
            final(self).cookie_file_modtime == old(self).cookie_file_modtime,
            final(self).run_log == old(self).run_log,
    {
        self.cookie_verified_working = false;
    }
}

/// The reload rule as a spec: reread exactly when no cookie is cached or the
/// file's stamp differs from the cached one.
pub open spec fn cookie_reload_spec(s: &TradingSession, file_modtime: u128) -> bool {
    s.cookie is None || s.cookie_file_modtime != Some(file_modtime)
}

/// Cookie-cache short-circuit: once a cookie has been stored, a second
/// detector call against an unchanged file stamp does not reread the file's
/// contents, while a changed stamp forces a reread; and once the cookie is
/// verified working, even the metadata check is skipped.
pub proof fn lemma_cookie_cache_short_circuit(s: TradingSession, t: u128, t2: u128)
    requires
        s.cookie is Some,
        s.cookie_file_modtime == Some(t),
    ensures
        !cookie_reload_spec(&s, t),
        t2 != t ==> cookie_reload_spec(&s, t2),
{
}

/// Result of handling a transaction-history response: the extracted events
/// for the target date, updated session flags, or a non-fatal failure.
///
/// On a usable body whose structure parsed, the session's cookie is marked
/// verified as soon as at least one transaction row is present — whether or
/// not any row matches the target date.
pub fn handle_history_response(
    session: &mut TradingSession,
    body: &[u8],
    parsed: Option<(Vec<Transaction>, Vec<Stock>)>,
    target: &Date,
) -> (r: Result<Vec<TransactionEvent>, DetectFailure>)
    ensures
        classify_history_spec(body@) == BodyClass::AuthExpired ==> r == Err::<
            Vec<TransactionEvent>,
            DetectFailure,
        >(DetectFailure::AuthExpired) && self_log(final(session)) == old(session).run_log@.push(
            LogNote::AuthExpired,
        ) && session_unchanged_but_log(old(session), final(session)),
        classify_history_spec(body@) == BodyClass::Blocked ==> r == Err::<
            Vec<TransactionEvent>,
            DetectFailure,
        >(DetectFailure::Blocked) && self_log(final(session)) == old(session).run_log@.push(
            LogNote::Blocked,
        ) && session_unchanged_but_log(old(session), final(session)),
        classify_history_spec(body@) == BodyClass::Usable && parsed is None ==> r == Err::<
            Vec<TransactionEvent>,
            DetectFailure,
        >(DetectFailure::MalformedResponse) && self_log(final(session)) == old(
            session,
        ).run_log@.push(LogNote::MalformedResponse) && session_unchanged_but_log(
            old(session),
            final(session),
        ),
        classify_history_spec(body@) == BodyClass::Usable && parsed is Some ==> {
            let data = parsed.unwrap();
            &&& r matches Ok(evs) && events_view(evs@) == extract_history_spec(
                data.0@.map_values(|t: Transaction| t@),
                data.1@.map_values(|s: Stock| s@),
                *target,
            )
            &&& final(session).cookie_verified_working == (old(session).cookie_verified_working
                || data.0@.len() > 0)
            &&& final(session).run_log@ == old(session).run_log@.push(
                LogNote::ResponseParsed { transactions: data.0@.len() as usize, stocks: data.1@.len() as usize },
            )
            &&& final(session).is_simulation == old(session).is_simulation
            &&& final(session).has_traded == old(session).has_traded
            &&& final(session).cookie == old(session).cookie
            &&& final(session).cookie_file_modtime == old(session).cookie_file_modtime
        },
{
    match classify_history_body(body) {
        BodyClass::AuthExpired => {
            session.run_log.push(LogNote::AuthExpired);
            Err(DetectFailure::AuthExpired)
        },
        BodyClass::Blocked => {
            session.run_log.push(LogNote::Blocked);
            Err(DetectFailure::Blocked)
        },
        BodyClass::Usable => {
            match parsed {
                None => {
                    session.run_log.push(LogNote::MalformedResponse);
                    Err(DetectFailure::MalformedResponse)
                },
                Some((transactions, stocks)) => {
                    if transactions.len() > 0 {
                        session.cookie_verified_working = true;
                    }
                    session.run_log.push(
                        LogNote::ResponseParsed {
                            transactions: transactions.len(),
                            stocks: stocks.len(),
                        },
                    );
                    let events = extract_history_events(&transactions, &stocks, target);
                    Ok(events)
                },
            }
        },
    }
}

/// The session's run log (helper for contracts).
pub open spec fn self_log(s: &TradingSession) -> Seq<LogNote> {
    s.run_log@
}

/// All session fields except the run log are unchanged.
pub open spec fn session_unchanged_but_log(a: &TradingSession, b: &TradingSession) -> bool {
    &&& b.is_simulation == a.is_simulation
    &&& b.has_traded == a.has_traded
    &&& b.cookie == a.cookie
    &&& b.cookie_file_modtime == a.cookie_file_modtime
    &&& b.cookie_verified_working == a.cookie_verified_working
}

/// Result of handling an analysis (article) response: the extracted buy
/// events for the target date, updated session flags, or a non-fatal
/// failure.
///
/// On a usable body whose structure parsed, the session's cookie is marked
/// verified as soon as at least one instrument tag is present — whether or
/// not any article matches the target date.
pub fn handle_analysis_response(
    session: &mut TradingSession,
    body: &[u8],
    parsed: Option<(Vec<Article>, Vec<IncludedItem>)>,
    target: &Date,
) -> (r: Result<Vec<TransactionEvent>, DetectFailure>)
    ensures
        classify_article_spec(body@) == BodyClass::AuthExpired ==> r == Err::<
            Vec<TransactionEvent>,
            DetectFailure,
        >(DetectFailure::AuthExpired) && self_log(final(session)) == old(session).run_log@.push(
            LogNote::AuthExpired,
        ) && session_unchanged_but_log(old(session), final(session)),
        classify_article_spec(body@) == BodyClass::Blocked ==> r == Err::<
            Vec<TransactionEvent>,
            DetectFailure,
        >(DetectFailure::Blocked) && self_log(final(session)) == old(session).run_log@.push(
            LogNote::Blocked,
        ) && session_unchanged_but_log(old(session), final(session)),
        classify_article_spec(body@) == BodyClass::Usable && parsed is None ==> r == Err::<
            Vec<TransactionEvent>,
            DetectFailure,
        >(DetectFailure::MalformedResponse) && self_log(final(session)) == old(
            session,
        ).run_log@.push(LogNote::MalformedResponse) && session_unchanged_but_log(
            old(session),
            final(session),
        ),
        classify_article_spec(body@) == BodyClass::Usable && parsed is Some ==> {
            let data = parsed.unwrap();
            &&& r matches Ok(evs) && events_view(evs@) == extract_articles_spec(
                data.0@.map_values(|a: Article| a@),
                tag_items_spec(data.1@.map_values(|x: IncludedItem| x@)),
                *target,
            )
            &&& final(session).cookie_verified_working == (old(session).cookie_verified_working
                || tag_items_spec(data.1@.map_values(|x: IncludedItem| x@)).len() > 0)
            &&& final(session).run_log@ == old(session).run_log@.push(
                LogNote::ResponseParsed { transactions: data.0@.len() as usize, stocks: data.1@.len() as usize },
            )
            &&& final(session).is_simulation == old(session).is_simulation
            &&& final(session).has_traded == old(session).has_traded
            &&& final(session).cookie == old(session).cookie
            &&& final(session).cookie_file_modtime == old(session).cookie_file_modtime
        },
{
    match classify_article_body(body) {
        BodyClass::AuthExpired => {
            session.run_log.push(LogNote::AuthExpired);
            Err(DetectFailure::AuthExpired)
        },
        BodyClass::Blocked => {
            session.run_log.push(LogNote::Blocked);
            Err(DetectFailure::Blocked)
        },
        BodyClass::Usable => {
            match parsed {
                None => {
                    session.run_log.push(LogNote::MalformedResponse);
                    Err(DetectFailure::MalformedResponse)
                },
                Some((articles, included)) => {
                    let tags = build_tag_items(&included);
                    if tags.len() > 0 {
                        session.cookie_verified_working = true;
                    }
                    session.run_log.push(
                        LogNote::ResponseParsed {
                            transactions: articles.len(),
                            stocks: included.len(),
                        },
                    );
                    let events = extract_article_events(&articles, &tags, target);
                    Ok(events)
                },
            }
        },
    }
}

/// Merge the secondary (faster-publishing, buy-only) endpoint's events into
/// the primary endpoint's: the fallback replaces an empty primary result and
/// is never merged additively.
pub fn merge_fallback(
    primary: Vec<TransactionEvent>,
    fallback: Vec<TransactionEvent>,
) -> (r: Vec<TransactionEvent>)
    ensures
        primary@.len() > 0 ==> events_view(r@) == events_view(primary@),
        primary@.len() == 0 ==> events_view(r@) == events_view(fallback@),
{
    if primary.len() > 0 {
        primary
    } else {
        fallback
    }
}

} // verus!
