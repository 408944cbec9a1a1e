//! Rebalance-event records and the extraction logic that turns the data
//! source's transaction-history and article responses into events for the
//! target date, joined to their instruments.

use vstd::prelude::*;

use crate::calendar::{parse_date_spec, Date};
use crate::strutil::str_eq;

verus! {

/// Encoding of the two order directions.
#[derive(Clone, Copy, Debug, PartialEq, Eq, Structural)]
pub enum RqOrderType {
    Buy,
    Sell,
}

/// A target market value as the exact fraction `total cents / split count`
/// (an equal split of a capital total never loses a remainder).
#[derive(Clone, Copy, Debug, PartialEq, Eq, Structural)]
pub struct MarketValue {
    pub num_cents: u64,
    pub den: u64,
}

impl MarketValue {
    /// The zero value: no capital assigned.
    pub fn zero() -> (r: MarketValue)
        ensures
            r == (MarketValue { num_cents: 0, den: 1 }),
    {
        MarketValue { num_cents: 0, den: 1 }
    }
}

/// One row of the transaction-history response, as plain values.
#[derive(Debug)]
pub struct Transaction {
    pub id: String,
    /// `"buy"`, `"sell"`, or anything else (ignored).
    pub action: String,
    /// `YYYY-MM-DD`.
    pub action_date: String,
    /// `Some("rebalance")` marks housekeeping rows that are never traded.
    pub rule: Option<String>,
    /// Decimal price string, when the source published one.
    pub price: Option<String>,
    /// Joins `Stock::id`.
    pub ticker_id: String,
    pub starting_weight: Option<String>,
    pub new_weight: Option<String>,
}

/// One instrument of the response's `included` section.
#[derive(Debug)]
pub struct Stock {
    pub id: String,
    /// Ticker symbol.
    pub name: String,
    pub company_name: String,
}

/// A ticker reference attached to an article.
#[derive(Debug)]
pub struct TickerRef {
    pub id: String,
    /// Only references of kind `"tag"` join to instruments.
    pub kind: String,
}

/// One article of the analysis response, as plain values.
#[derive(Debug)]
pub struct Article {
    pub id: String,
    /// Timestamp such as `YYYY-MM-DDTHH:MM:SS-05:00`; only the date prefix
    /// matters.
    pub publish_on: String,
    pub primary_tickers: Vec<TickerRef>,
}

/// One item of the analysis response's `included` section.  `attrs_parsed`
/// is false when the item's attributes did not have the expected shape.
#[derive(Debug)]
pub struct IncludedItem {
    pub id: String,
    pub kind: String,
    pub name: Option<String>,
    pub company: Option<String>,
    pub attrs_parsed: bool,
}

/// One detected rebalance action.
#[derive(Debug)]
pub struct TransactionEvent {
    pub transaction_id: String,
    pub order_type: RqOrderType,
    pub action_date: Date,
    /// Ticker symbol.
    pub ticker: String,
    pub company_name: String,
    pub starting_weight: Option<String>,
    pub new_weight: Option<String>,
    pub price: Option<String>,
    /// Zero until the position sizer assigns it.
    pub pos_market_value: MarketValue,
}

/// A normalized trade instruction, produced 1:1 from a `TransactionEvent`.
#[derive(Debug)]
pub struct RqOrder {
    pub order_type: RqOrderType,
    pub ticker: String,
    pub company_name: String,
    pub pos_market_value: MarketValue,
    /// Price in cents parsed from the event, if it carried a parseable one.
    pub known_last_price: Option<u64>,
}

/// Mathematical model of a transaction row.
pub ghost struct TxModel {
    pub id: Seq<char>,
    pub action: Seq<char>,
    pub action_date: Seq<char>,
    pub rule: Option<Seq<char>>,
    pub price: Option<Seq<char>>,
    pub ticker_id: Seq<char>,
    pub starting_weight: Option<Seq<char>>,
    pub new_weight: Option<Seq<char>>,
}

/// Mathematical model of an instrument.
pub ghost struct StockModel {
    pub id: Seq<char>,
    pub name: Seq<char>,
    pub company_name: Seq<char>,
}

/// Mathematical model of a ticker reference.
pub ghost struct TickerRefModel {
    pub id: Seq<char>,
    pub kind: Seq<char>,
}

/// Mathematical model of an article.
pub ghost struct ArticleModel {
    pub id: Seq<char>,
    pub publish_on: Seq<char>,
    pub primary_tickers: Seq<TickerRefModel>,
}

/// Mathematical model of an `included` item.
pub ghost struct IncludedModel {
    pub id: Seq<char>,
    pub kind: Seq<char>,
    pub name: Option<Seq<char>>,
    pub company: Option<Seq<char>>,
    pub attrs_parsed: bool,
}

/// Mathematical model of a detected event.
pub ghost struct EventModel {
    pub transaction_id: Seq<char>,
    pub order_type: RqOrderType,
    pub action_date: Date,
    pub ticker: Seq<char>,
    pub company_name: Seq<char>,
    pub starting_weight: Option<Seq<char>>,
    pub new_weight: Option<Seq<char>>,
    pub price: Option<Seq<char>>,
    pub pos_market_value: MarketValue,
}

/// Mathematical model of an order.
pub ghost struct OrderModel {
    pub order_type: RqOrderType,
    pub ticker: Seq<char>,
    pub company_name: Seq<char>,
    pub pos_market_value: MarketValue,
    pub known_last_price: Option<u64>,
}

/// The view of an optional string.
pub open spec fn opt_view(o: Option<String>) -> Option<Seq<char>> {
    match o {
        Some(s) => Some(s@),
        None => None,
    }
}

impl View for Transaction {
    type V = TxModel;

    open spec fn view(&self) -> TxModel {
        TxModel {
            id: self.id@,
            action: self.action@,
            action_date: self.action_date@,
            rule: opt_view(self.rule),
            price: opt_view(self.price),
            ticker_id: self.ticker_id@,
            starting_weight: opt_view(self.starting_weight),
            new_weight: opt_view(self.new_weight),
        }
    }
}

impl View for Stock {
    type V = StockModel;

    open spec fn view(&self) -> StockModel {
        StockModel { id: self.id@, name: self.name@, company_name: self.company_name@ }
    }
}

impl View for TickerRef {
    type V = TickerRefModel;

    open spec fn view(&self) -> TickerRefModel {
        TickerRefModel { id: self.id@, kind: self.kind@ }
    }
}

impl View for Article {
    type V = ArticleModel;

    open spec fn view(&self) -> ArticleModel {
        ArticleModel {
            id: self.id@,
            publish_on: self.publish_on@,
            primary_tickers: self.primary_tickers@.map_values(|t: TickerRef| t@),
        }
    }
}

impl View for IncludedItem {
    type V = IncludedModel;

    open spec fn view(&self) -> IncludedModel {
        IncludedModel {
            id: self.id@,
            kind: self.kind@,
            name: opt_view(self.name),
            company: opt_view(self.company),
            attrs_parsed: self.attrs_parsed,
        }
    }
}

impl View for TransactionEvent {
    type V = EventModel;

    open spec fn view(&self) -> EventModel {
        EventModel {
            transaction_id: self.transaction_id@,
            order_type: self.order_type,
            action_date: self.action_date,
            ticker: self.ticker@,
            company_name: self.company_name@,
            starting_weight: opt_view(self.starting_weight),
            new_weight: opt_view(self.new_weight),
            price: opt_view(self.price),
            pos_market_value: self.pos_market_value,
        }
    }
}

impl View for RqOrder {
    type V = OrderModel;

    open spec fn view(&self) -> OrderModel {
        OrderModel {
            order_type: self.order_type,
            ticker: self.ticker@,
            company_name: self.company_name@,
            pos_market_value: self.pos_market_value,
            known_last_price: self.known_last_price,
        }
    }
}

/// The view of a vector of events.
pub open spec fn events_view(v: Seq<TransactionEvent>) -> Seq<EventModel> {
    v.map_values(|e: TransactionEvent| e@)
}

/// The first instrument with the given id, if any.
pub open spec fn stock_lookup(stocks: Seq<StockModel>, id: Seq<char>) -> Option<StockModel>
    decreases stocks.len(),
{
    if stocks.len() == 0 {
        None
    } else if stocks[0].id == id {
        Some(stocks[0])
    } else {
        stock_lookup(stocks.drop_first(), id)
    }
}

/// The order side a transaction's action denotes, if any.
pub open spec fn action_side(action: Seq<char>) -> Option<RqOrderType> {
    if action == "buy"@ {
        Some(RqOrderType::Buy)
    } else if action == "sell"@ {
        Some(RqOrderType::Sell)
    } else {
        None
    }
}

/// The event a transaction row yields for the target date: rows of another
/// date, housekeeping `rebalance` rows, unknown actions and rows whose
/// instrument is missing yield none.
pub open spec fn tx_event(t: TxModel, stocks: Seq<StockModel>, target: Date) -> Option<
    EventModel,
> {
    let side = action_side(t.action);
    if parse_date_spec(t.action_date) == Some(target) && t.rule != Some("rebalance"@)
        && side is Some && stock_lookup(stocks, t.ticker_id) is Some {
        let st = stock_lookup(stocks, t.ticker_id).unwrap();
        Some(
            EventModel {
                transaction_id: t.id,
                order_type: side.unwrap(),
                action_date: target,
                ticker: st.name,
                company_name: st.company_name,
                starting_weight: t.starting_weight,
                new_weight: t.new_weight,
                price: t.price,
                pos_market_value: MarketValue { num_cents: 0, den: 1 },
            },
        )
    } else {
        None
    }
}

/// All events the transaction rows yield for the target date, in row order.
pub open spec fn extract_history_spec(
    txs: Seq<TxModel>,
    stocks: Seq<StockModel>,
    target: Date,
) -> Seq<EventModel>
    decreases txs.len(),
{
    if txs.len() == 0 {
        Seq::empty()
    } else {
        let rest = extract_history_spec(txs.drop_last(), stocks, target);
        match tx_event(txs.last(), stocks, target) {
            Some(e) => rest.push(e),
            None => rest,
        }
    }
}

/// Find the first instrument with the given id.
fn find_stock<'a>(stocks: &'a Vec<Stock>, id: &str) -> (r: Option<&'a Stock>)
    ensures
        match r {
            Some(st) => stock_lookup(stocks@.map_values(|s: Stock| s@), id@) == Some(st@),
            None => stock_lookup(stocks@.map_values(|s: Stock| s@), id@) is None,
        },
{
    let ghost model = stocks@.map_values(|s: Stock| s@);
    proof {
        assert(model.skip(0) =~= model);
    }
    let mut i: usize = 0;
    while i < stocks.len()
        invariant
            model == stocks@.map_values(|s: Stock| s@),
            i <= stocks@.len(),
            model.len() == stocks@.len(),
            stock_lookup(model, id@) == stock_lookup(model.skip(i as int), id@),
        decreases stocks@.len() - i,
    {
        proof {
            assert(model.skip(i as int)[0] == model[i as int]);
        }
        if str_eq(stocks[i].id.as_str(), id) {
            return Some(&stocks[i]);
        }
        proof {
            assert(model.skip(i as int).drop_first() =~= model.skip(i + 1));
        }
        i = i + 1;
    }
    proof {
        assert(model.skip(stocks@.len() as int) =~= Seq::<StockModel>::empty());
    }
    None
}

/// Extract the events of the target date from a transaction-history
/// response: keep rows whose action date equals the target, drop housekeeping
/// `rebalance` rows and unknown actions, and join each row to its instrument
/// (rows without one are dropped).
pub fn extract_history_events(
    txs: &Vec<Transaction>,
    stocks: &Vec<Stock>,
    target: &Date,
) -> (r: Vec<TransactionEvent>)
    ensures
        events_view(r@) == extract_history_spec(
            txs@.map_values(|t: Transaction| t@),
            stocks@.map_values(|s: Stock| s@),
            *target,
        ),
{
    let ghost txm = txs@.map_values(|t: Transaction| t@);
    let ghost stm = stocks@.map_values(|s: Stock| s@);
    let mut out: Vec<TransactionEvent> = Vec::new();
    let mut i: usize = 0;
    while i < txs.len()
        invariant
            txm == txs@.map_values(|t: Transaction| t@),
            stm == stocks@.map_values(|s: Stock| s@),
            i <= txs@.len(),
            txm.len() == txs@.len(),
            events_view(out@) == extract_history_spec(txm.subrange(0, i as int), stm, *target),
        decreases txs@.len() - i,
    {
        let tx = &txs[i];
        proof {
            assert(txm.subrange(0, i + 1).drop_last() =~= txm.subrange(0, i as int));
            assert(txm.subrange(0, i + 1).last() == txm[i as int]);
            assert(txm[i as int] == tx@);
        }
        let side: Option<RqOrderType> = if str_eq(tx.action.as_str(), "buy") {
            Some(RqOrderType::Buy)
        } else if str_eq(tx.action.as_str(), "sell") {
            Some(RqOrderType::Sell)
        } else {
            None
        };
        let date_matches = match crate::calendar::parse_date(tx.action_date.as_str()) {
            Some(d) => d == *target,
            None => false,
        };
        let is_housekeeping = match &tx.rule {
            Some(rl) => str_eq(rl.as_str(), "rebalance"),
            None => false,
        };
        if date_matches && !is_housekeeping {
            if let Some(side_val) = side {
                if let Some(stock) = find_stock(stocks, tx.ticker_id.as_str()) {
                    let ev = TransactionEvent {
                        transaction_id: tx.id.clone(),
                        order_type: side_val,
                        action_date: *target,
                        ticker: stock.name.clone(),
                        company_name: stock.company_name.clone(),
                        starting_weight: clone_opt(&tx.starting_weight),
                        new_weight: clone_opt(&tx.new_weight),
                        price: clone_opt(&tx.price),
                        pos_market_value: MarketValue::zero(),
                    };
                    proof {
                        assert(tx_event(tx@, stm, *target) is Some);
                    }
                    let ghost prev = out@;
                    out.push(ev);
                    proof {
                        assert(events_view(out@) =~= events_view(prev).push(ev@));
                        assert(ev@ == tx_event(tx@, stm, *target).unwrap());
                    }
                }
            }
        }
        proof {
            if tx_event(tx@, stm, *target) is None {
                assert(events_view(out@) == extract_history_spec(
                    txm.subrange(0, i + 1),
                    stm,
                    *target,
                ));
            }
        }
        i = i + 1;
    }
    proof {
        assert(txm.subrange(0, txs@.len() as int) =~= txm);
    }
    out
}

/// Clone an optional string.
fn clone_opt(o: &Option<String>) -> (r: Option<String>)
    ensures
        opt_view(r) == opt_view(*o),
{
    match o {
        Some(s) => Some(s.clone()),
        None => None,
    }
}

/// An instrument tag from an article response's `included` section.
#[derive(Debug)]
pub struct TagItem {
    pub id: String,
    /// Ticker symbol; empty when the source omitted it.
    pub name: String,
    pub company: String,
}

/// Mathematical model of an instrument tag.
pub ghost struct TagModel {
    pub id: Seq<char>,
    pub name: Seq<char>,
    pub company: Seq<char>,
}

impl View for TagItem {
    type V = TagModel;

    open spec fn view(&self) -> TagModel {
        TagModel { id: self.id@, name: self.name@, company: self.company@ }
    }
}

/// An optional string's characters, empty when absent.
pub open spec fn opt_or_empty(o: Option<Seq<char>>) -> Seq<char> {
    match o {
        Some(s) => s,
        None => Seq::empty(),
    }
}

/// The instrument tags of an `included` section: the items of kind `"tag"`
/// whose attributes parsed, with absent names and companies as empty.
pub open spec fn tag_items_spec(incs: Seq<IncludedModel>) -> Seq<TagModel>
    decreases incs.len(),
{
    if incs.len() == 0 {
        Seq::empty()
    } else {
        let rest = tag_items_spec(incs.drop_last());
        let inc = incs.last();
        if inc.kind == "tag"@ && inc.attrs_parsed {
            rest.push(
                TagModel {
                    id: inc.id,
                    name: opt_or_empty(inc.name),
                    company: opt_or_empty(inc.company),
                },
            )
        } else {
            rest
        }
    }
}

/// The first tag with the given id, if any.
pub open spec fn tag_lookup(tags: Seq<TagModel>, id: Seq<char>) -> Option<TagModel>
    decreases tags.len(),
{
    if tags.len() == 0 {
        None
    } else if tags[0].id == id {
        Some(tags[0])
    } else {
        tag_lookup(tags.drop_first(), id)
    }
}

/// Whether a character occurs in a sequence.
pub open spec fn contains_char(s: Seq<char>, c: char) -> bool {
    exists|i: int| 0 <= i < s.len() && s[i] == c
}

/// Collect the instrument tags of an `included` section.
pub fn build_tag_items(included: &Vec<IncludedItem>) -> (r: Vec<TagItem>)
    ensures
        r@.map_values(|t: TagItem| t@) == tag_items_spec(
            included@.map_values(|x: IncludedItem| x@),
        ),
{
    let ghost incm = included@.map_values(|x: IncludedItem| x@);
    let mut out: Vec<TagItem> = Vec::new();
    let mut i: usize = 0;
    while i < included.len()
        invariant
            incm == included@.map_values(|x: IncludedItem| x@),
            i <= included@.len(),
            incm.len() == included@.len(),
            out@.map_values(|t: TagItem| t@) == tag_items_spec(incm.subrange(0, i as int)),
        decreases included@.len() - i,
    {
        let inc = &included[i];
        proof {
            assert(incm.subrange(0, i + 1).drop_last() =~= incm.subrange(0, i as int));
            assert(incm.subrange(0, i + 1).last() == incm[i as int]);
        }
        if inc.attrs_parsed && str_eq(inc.kind.as_str(), "tag") {
            let name = match &inc.name {
                Some(n) => n.clone(),
                None => String::new(),
            };
            let company = match &inc.company {
                Some(c) => c.clone(),
                None => String::new(),
            };
            let ghost prev = out@;
            out.push(TagItem { id: inc.id.clone(), name, company });
            proof {
                assert(out@.map_values(|t: TagItem| t@) =~= prev.map_values(
                    |t: TagItem| t@,
                ).push(out@.last()@));
            }
        }
        i = i + 1;
    }
    proof {
        assert(incm.subrange(0, included@.len() as int) =~= incm);
    }
    out
}

/// Find the first tag with the given id.
fn find_tag<'a>(tags: &'a Vec<TagItem>, id: &str) -> (r: Option<&'a TagItem>)
    ensures
        match r {
            Some(t) => tag_lookup(tags@.map_values(|t: TagItem| t@), id@) == Some(t@),
            None => tag_lookup(tags@.map_values(|t: TagItem| t@), id@) is None,
        },
{
    let ghost model = tags@.map_values(|t: TagItem| t@);
    proof {
        assert(model.skip(0) =~= model);
    }
    let mut i: usize = 0;
    while i < tags.len()
        invariant
            model == tags@.map_values(|t: TagItem| t@),
            i <= tags@.len(),
            model.len() == tags@.len(),
            tag_lookup(model, id@) == tag_lookup(model.skip(i as int), id@),
        decreases tags@.len() - i,
    {
        proof {
            assert(model.skip(i as int)[0] == model[i as int]);
        }
        if str_eq(tags[i].id.as_str(), id) {
            return Some(&tags[i]);
        }
        proof {
            assert(model.skip(i as int).drop_first() =~= model.skip(i + 1));
        }
        i = i + 1;
    }
    proof {
        assert(model.skip(tags@.len() as int) =~= Seq::<TagModel>::empty());
    }
    None
}

/// Whether a string contains a character.
fn str_contains_char(s: &str, c: char) -> (r: bool)
    ensures
        r == contains_char(s@, c),
{
    let len = s.unicode_len();
    let mut i: usize = 0;
    while i < len
        invariant
            len == s@.len(),
            i <= len,
            forall|j: int| 0 <= j < i ==> s@[j] != c,
        decreases len - i,
    {
        if s.get_char(i) == c {
            return true;
        }
        i = i + 1;
    }
    false
}

/// Whether an article was published on the target date (by the `YYYY-MM-DD`
/// prefix of its timestamp).
pub open spec fn published_on(a: ArticleModel, target: Date) -> bool {
    a.publish_on.len() >= 10 && parse_date_spec(a.publish_on.subrange(0, 10)) == Some(target)
}

/// The buy event a primary-ticker reference yields: references that are not
/// tags, have no known tag, or name a non-domestic ticker (one containing
/// `:`) yield none.
pub open spec fn ref_event(
    article_id: Seq<char>,
    d: TickerRefModel,
    tags: Seq<TagModel>,
    target: Date,
) -> Option<EventModel> {
    if d.kind == "tag"@ && tag_lookup(tags, d.id) is Some && !contains_char(
        tag_lookup(tags, d.id).unwrap().name,
        ':',
    ) {
        let tag = tag_lookup(tags, d.id).unwrap();
        Some(
            EventModel {
                transaction_id: article_id,
                order_type: RqOrderType::Buy,
                action_date: target,
                ticker: tag.name,
                company_name: tag.company,
                starting_weight: None,
                new_weight: None,
                price: None,
                pos_market_value: MarketValue { num_cents: 0, den: 1 },
            },
        )
    } else {
        None
    }
}

/// The events of one article's primary-ticker references, in order.
pub open spec fn refs_events(
    article_id: Seq<char>,
    refs: Seq<TickerRefModel>,
    tags: Seq<TagModel>,
    target: Date,
) -> Seq<EventModel>
    decreases refs.len(),
{
    if refs.len() == 0 {
        Seq::empty()
    } else {
        let rest = refs_events(article_id, refs.drop_last(), tags, target);
        match ref_event(article_id, refs.last(), tags, target) {
            Some(e) => rest.push(e),
            None => rest,
        }
    }
}

/// The events one article yields: its references' events if it was published
/// on the target date, none otherwise.
pub open spec fn article_events(a: ArticleModel, tags: Seq<TagModel>, target: Date) -> Seq<
    EventModel,
> {
    if published_on(a, target) {
        refs_events(a.id, a.primary_tickers, tags, target)
    } else {
        Seq::empty()
    }
}

/// All events an analysis response yields for the target date, in article
/// and reference order.
pub open spec fn extract_articles_spec(
    arts: Seq<ArticleModel>,
    tags: Seq<TagModel>,
    target: Date,
) -> Seq<EventModel>
    decreases arts.len(),
{
    if arts.len() == 0 {
        Seq::empty()
    } else {
        extract_articles_spec(arts.drop_last(), tags, target) + article_events(
            arts.last(),
            tags,
            target,
        )
    }
}

/// Extract the buy events of the target date from an analysis response:
/// keep articles published on the target date and turn each primary ticker
/// that joins to a tag into a buy event, skipping non-domestic tickers
/// (names containing `:`).
pub fn extract_article_events(
    articles: &Vec<Article>,
    tags: &Vec<TagItem>,
    target: &Date,
) -> (r: Vec<TransactionEvent>)
    ensures
        events_view(r@) == extract_articles_spec(
            articles@.map_values(|a: Article| a@),
            tags@.map_values(|t: TagItem| t@),
            *target,
        ),
{
    let ghost artm = articles@.map_values(|a: Article| a@);
    let ghost tagm = tags@.map_values(|t: TagItem| t@);
    let mut out: Vec<TransactionEvent> = Vec::new();
    let mut i: usize = 0;
    while i < articles.len()
        invariant
            artm == articles@.map_values(|a: Article| a@),
            tagm == tags@.map_values(|t: TagItem| t@),
            i <= articles@.len(),
            artm.len() == articles@.len(),
            events_view(out@) == extract_articles_spec(artm.subrange(0, i as int), tagm, *target),
        decreases articles@.len() - i,
    {
        let art = &articles[i];
        proof {
            assert(artm.subrange(0, i + 1).drop_last() =~= artm.subrange(0, i as int));
            assert(artm.subrange(0, i + 1).last() == artm[i as int]);
            assert(artm[i as int] == art@);
        }
        let date_matches = match crate::calendar::parse_date_prefix(art.publish_on.as_str()) {
            Some(d) => d == *target,
            None => false,
        };
        if date_matches {
            let ghost base = events_view(out@);
            let refs = &art.primary_tickers;
            let ghost refm = art@.primary_tickers;
            let mut j: usize = 0;
            while j < refs.len()
                invariant
                    tagm == tags@.map_values(|t: TagItem| t@),
                    refm == refs@.map_values(|t: TickerRef| t@),
                    j <= refs@.len(),
                    refm.len() == refs@.len(),
                    events_view(out@) == base + refs_events(
                        art@.id,
                        refm.subrange(0, j as int),
                        tagm,
                        *target,
                    ),
                decreases refs@.len() - j,
            {
                let d = &refs[j];
                proof {
                    assert(refm.subrange(0, j + 1).drop_last() =~= refm.subrange(0, j as int));
                    assert(refm.subrange(0, j + 1).last() == refm[j as int]);
                    assert(refm[j as int] == d@);
                }
                if str_eq(d.kind.as_str(), "tag") {
                    if let Some(tag) = find_tag(tags, d.id.as_str()) {
                        if !str_contains_char(tag.name.as_str(), ':') {
                            let ev = TransactionEvent {
                                transaction_id: art.id.clone(),
                                order_type: RqOrderType::Buy,
                                action_date: *target,
                                ticker: tag.name.clone(),
                                company_name: tag.company.clone(),
                                starting_weight: None,
                                new_weight: None,
                                price: None,
                                pos_market_value: MarketValue::zero(),
                            };
                            let ghost prev = out@;
                            out.push(ev);
                            proof {
                                assert(events_view(out@) =~= events_view(prev).push(
                                    out@.last()@,
                                ));
                            }
                        }
                    }
                }
                j = j + 1;
            }
            proof {
                assert(refm.subrange(0, refs@.len() as int) =~= refm);
                assert(refm == art@.primary_tickers);
                assert(published_on(art@, *target)) by {
                    assert(art@.publish_on == art.publish_on@);
                }
            }
        } else {
            proof {
                assert(!published_on(art@, *target));
                assert(events_view(out@) + Seq::<EventModel>::empty() =~= events_view(out@));
            }
        }
        i = i + 1;
    }
    proof {
        assert(artm.subrange(0, articles@.len() as int) =~= artm);
    }
    out
}

/// The order an event maps to: the same side, instrument and target value,
/// with the event's price string parsed to cents when it parses.
pub open spec fn order_of_event(e: EventModel) -> OrderModel {
    OrderModel {
        order_type: e.order_type,
        ticker: e.ticker,
        company_name: e.company_name,
        pos_market_value: e.pos_market_value,
        known_last_price: match e.price {
            Some(p) => crate::pricing::parse_price_spec(vstd::utf8::encode_utf8(p)),
            None => None,
        },
    }
}

/// The orders of a batch of events, 1:1 and in order.
pub open spec fn orders_of_events(evs: Seq<EventModel>) -> Seq<OrderModel> {
    evs.map_values(|e: EventModel| order_of_event(e))
}

/// Turn each detected event into a normalized order, parsing its known
/// price string into cents (an unparseable price becomes "no known price").
pub fn build_rqorders(events: &Vec<TransactionEvent>) -> (r: Vec<RqOrder>)
    ensures
        r@.map_values(|o: RqOrder| o@) == orders_of_events(events_view(events@)),
{
    let ghost evm = events_view(events@);
    let mut out: Vec<RqOrder> = Vec::new();
    let mut i: usize = 0;
    while i < events.len()
        invariant
            evm == events_view(events@),
            i <= events@.len(),
            evm.len() == events@.len(),
            out@.map_values(|o: RqOrder| o@) =~= evm.subrange(0, i as int).map_values(
                |e: EventModel| order_of_event(e),
            ),
        decreases events@.len() - i,
    {
        let e = &events[i];
        let known: Option<u64> = match &e.price {
            Some(p) => crate::pricing::parse_price_cents(p.as_str().as_bytes()),
            None => None,
        };
        let ord = RqOrder {
            order_type: e.order_type,
            ticker: e.ticker.clone(),
            company_name: e.company_name.clone(),
            pos_market_value: e.pos_market_value,
            known_last_price: known,
        };
        let ghost prev = out@;
        out.push(ord);
        proof {
            assert(evm[i as int] == e@);
            assert(out@.map_values(|o: RqOrder| o@) =~= prev.map_values(|o: RqOrder| o@).push(
                out@.last()@,
            ));
            assert(out@.last()@ == order_of_event(evm[i as int]));
            assert(evm.subrange(0, i + 1).drop_last() =~= evm.subrange(0, i as int));
        }
        i = i + 1;
    }
    proof {
        assert(evm.subrange(0, events@.len() as int) =~= evm);
    }
    out
}

/// How many events of the batch are on the given side.
pub open spec fn count_side(events: Seq<EventModel>, side: RqOrderType) -> int
    decreases events.len(),
{
    if events.len() == 0 {
        0int
    } else {
        count_side(events.drop_last(), side) + if events.last().order_type == side {
            1int
        } else {
            0int
        }
    }
}

/// Count the buy and sell events of a batch.
pub fn count_order_types(events: &Vec<TransactionEvent>) -> (r: (usize, usize))
    ensures
        r.0 == count_side(events_view(events@), RqOrderType::Buy),
        r.1 == count_side(events_view(events@), RqOrderType::Sell),
{
    let ghost evm = events_view(events@);
    let mut buys: usize = 0;
    let mut sells: usize = 0;
    let mut i: usize = 0;
    while i < events.len()
        invariant
            evm == events_view(events@),
            i <= events@.len(),
            evm.len() == events@.len(),
            buys == count_side(evm.subrange(0, i as int), RqOrderType::Buy),
            sells == count_side(evm.subrange(0, i as int), RqOrderType::Sell),
            buys + sells <= i,
        decreases events@.len() - i,
    {
        proof {
            assert(evm.subrange(0, i + 1).drop_last() =~= evm.subrange(0, i as int));
            assert(evm.subrange(0, i + 1).last() == evm[i as int]);
        }
        if matches!(events[i].order_type, RqOrderType::Buy) {
            buys = buys + 1;
        } else {
            sells = sells + 1;
        }
        i = i + 1;
    }
    proof {
        assert(evm.subrange(0, events@.len() as int) =~= evm);
    }
    (buys, sells)
}

} // verus!
