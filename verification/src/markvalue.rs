//! The mark-value cache: estimated instrument values (mark-to-market, in
//! cents) keyed by ticker, initialized from a comma-separated ticker
//! universe.  A value is absent until a feed fills it in.

use vstd::prelude::*;

use crate::strutil::{str_eq, trim_ascii, trim_spec};

verus! {

/// One cached mark: the ticker, the estimated value in cents (absent until
/// a quote arrives), and the UTC epoch second of the estimate.
#[derive(Debug)]
pub struct MarkEntry {
    pub ticker: String,
    pub value_cents: Option<u64>,
    pub mark_epoch: i64,
}

/// Mathematical model of a cached mark.
pub ghost struct MarkEntryModel {
    pub ticker: Seq<char>,
    pub value_cents: Option<u64>,
    pub mark_epoch: i64,
}

impl View for MarkEntry {
    type V = MarkEntryModel;

    open spec fn view(&self) -> MarkEntryModel {
        MarkEntryModel {
            ticker: self.ticker@,
            value_cents: self.value_cents,
            mark_epoch: self.mark_epoch,
        }
    }
}

/// Split a character sequence at every comma: always one more field than
/// there are commas, in order, commas not included.
pub open spec fn split_commas(s: Seq<char>) -> Seq<Seq<char>>
    decreases s.len(),
{
    if s.len() == 0 {
        seq![Seq::<char>::empty()]
    } else {
        let rest = split_commas(s.drop_last());
        if s.last() == ',' {
            rest.push(Seq::empty())
        } else {
            rest.update(rest.len() - 1, rest.last().push(s.last()))
        }
    }
}

/// `split_commas` never yields an empty field list.
pub proof fn lemma_split_commas_nonempty(s: Seq<char>)
    ensures
        split_commas(s).len() >= 1,
    decreases s.len(),
{
    if s.len() > 0 {
        lemma_split_commas_nonempty(s.drop_last());
    }
}

/// The fields that make it into the cache: each comma-separated field
/// trimmed of ASCII whitespace, with empty results dropped.
pub open spec fn kept_tickers(raw: Seq<Seq<char>>) -> Seq<Seq<char>>
    decreases raw.len(),
{
    if raw.len() == 0 {
        Seq::empty()
    } else {
        let rest = kept_tickers(raw.drop_last());
        let t = trim_spec(raw.last());
        if t.len() > 0 {
            rest.push(t)
        } else {
            rest
        }
    }
}

/// The ticker universe a comma-separated string denotes.
pub open spec fn universe_spec(s: Seq<char>) -> Seq<Seq<char>> {
    kept_tickers(split_commas(s))
}

/// The first cached mark for a ticker, if any.
pub open spec fn mark_lookup(entries: Seq<MarkEntryModel>, ticker: Seq<char>) -> Option<
    MarkEntryModel,
>
    decreases entries.len(),
{
    if entries.len() == 0 {
        None
    } else if entries[0].ticker == ticker {
        Some(entries[0])
    } else {
        mark_lookup(entries.drop_first(), ticker)
    }
}

/// The cache: a configured ticker universe and one entry per ticker.
pub struct MarkValueCache {
    pub ticker_universe_csv: String,
    pub entries: Vec<MarkEntry>,
}

impl MarkValueCache {
    /// A cache with the default ticker universe and no entries yet.
    pub fn new() -> (r: MarkValueCache)
        ensures
            r.ticker_universe_csv@ == "TAYD,CGAU,DTEGY,ALIZY"@,
            r.entries@ == Seq::<MarkEntry>::empty(),
    {
        MarkValueCache {
            ticker_universe_csv: String::from_str("TAYD,CGAU,DTEGY,ALIZY"),
            entries: Vec::new(),
        }
    }

    /// Rebuild the entries from the ticker universe: one entry per
    /// trimmed non-empty comma-separated field, in order, each with no
    /// value yet and an epoch stamp of zero.
    pub fn init(&mut self)
        ensures
            final(self).ticker_universe_csv == old(self).ticker_universe_csv,
            final(self).entries@.map_values(|e: MarkEntry| e@.ticker) == universe_spec(
                old(self).ticker_universe_csv@,
            ),
            forall|i: int|
                0 <= i < final(self).entries@.len() ==> ((#[trigger] final(self).entries@[i]).value_cents is None
                    && final(self).entries@[i].mark_epoch == 0),
    {
        let csv = self.ticker_universe_csv.clone();
        let s: &str = csv.as_str();
        let len = s.unicode_len();
        let mut out: Vec<MarkEntry> = Vec::new();
        let ghost mut raw_done: Seq<Seq<char>> = Seq::empty();
        let mut start: usize = 0;
        let mut i: usize = 0;
        proof {
            assert(s@.subrange(0, 0) =~= Seq::<char>::empty());
            assert(split_commas(s@.subrange(0, 0)) =~= raw_done.push(s@.subrange(0, 0)));
        }
        while i < len
            invariant
                len == s@.len(),
                start <= i <= len,
                split_commas(s@.subrange(0, i as int)) == raw_done.push(
                    s@.subrange(start as int, i as int),
                ),
                out@.map_values(|e: MarkEntry| e@.ticker) == kept_tickers(raw_done),
                forall|k: int|
                    0 <= k < out@.len() ==> (#[trigger] out@[k]).value_cents is None
                        && out@[k].mark_epoch == 0,
            decreases len - i,
        {
            let c = s.get_char(i);
            proof {
                assert(s@.subrange(0, i + 1).drop_last() =~= s@.subrange(0, i as int));
                assert(s@.subrange(0, i + 1).last() == s@[i as int]);
            }
            if c == ',' {
                let token = s.substring_char(start, i);
                let trimmed = trim_ascii(token);
                let ghost tok = s@.subrange(start as int, i as int);
                proof {
                    let prev = raw_done.push(tok);
                    assert(split_commas(s@.subrange(0, i + 1)) =~= prev.push(Seq::empty()));
                    assert(prev.push(Seq::empty()).drop_last() =~= prev);
                    assert(kept_tickers(prev.push(Seq::empty())) == kept_tickers(prev)) by {
                        assert(trim_spec(Seq::<char>::empty()).len() == 0);
                    }
                    assert(prev.drop_last() =~= raw_done);
                    assert(prev.last() == tok);
                }
                if trimmed.as_str().is_empty() {
                } else {
                    let ghost prev_out = out@;
                    out.push(
                        MarkEntry { ticker: trimmed, value_cents: None, mark_epoch: 0 },
                    );
                    proof {
                        assert(out@.map_values(|e: MarkEntry| e@.ticker) =~= prev_out.map_values(
                            |e: MarkEntry| e@.ticker,
                        ).push(out@.last()@.ticker));
                    }
                }
                proof {
                    raw_done = raw_done.push(tok);
                    assert(s@.subrange(i + 1, i + 1) =~= Seq::<char>::empty());
                    assert(split_commas(s@.subrange(0, i + 1)) =~= raw_done.push(
                        s@.subrange(i + 1, i + 1),
                    ));
                }
                start = i + 1;
            } else {
                proof {
                    let prev = raw_done.push(s@.subrange(start as int, i as int));
                    lemma_split_commas_nonempty(s@.subrange(0, i as int));
                    assert(prev.last() == s@.subrange(start as int, i as int));
                    assert(prev.update(prev.len() - 1, prev.last().push(s@[i as int]))
                        =~= raw_done.push(
                        s@.subrange(start as int, i as int).push(s@[i as int]),
                    ));
                    assert(s@.subrange(start as int, i as int).push(s@[i as int]) =~= s@.subrange(
                        start as int,
                        i + 1,
                    ));
                }
            }
            i = i + 1;
        }
        // Flush the final field.
        let token = s.substring_char(start, len);
        let trimmed = trim_ascii(token);
        proof {
            assert(s@.subrange(0, len as int) =~= s@);
            let whole = raw_done.push(s@.subrange(start as int, len as int));
            assert(whole.drop_last() =~= raw_done);
            assert(whole.last() == s@.subrange(start as int, len as int));
        }
        if !trimmed.as_str().is_empty() {
            let ghost prev_out = out@;
            out.push(MarkEntry { ticker: trimmed, value_cents: None, mark_epoch: 0 });
            proof {
                assert(out@.map_values(|e: MarkEntry| e@.ticker) =~= prev_out.map_values(
                    |e: MarkEntry| e@.ticker,
                ).push(out@.last()@.ticker));
            }
        }
        self.entries = out;
    }

    /// The cached value for a ticker: `None` when the ticker is unknown or
    /// no quote has arrived yet.
    pub fn get_mark_value(&self, ticker: &str) -> (r: Option<u64>)
        ensures
            r == match mark_lookup(self.entries@.map_values(|e: MarkEntry| e@), ticker@) {
                Some(e) => e.value_cents,
                None => None,
            },
    {
        match self.find_entry(ticker) {
            Some(e) => e.value_cents,
            None => None,
        }
    }

    /// The cached value and its time stamp for a ticker.
    pub fn get_mark_timevalue(&self, ticker: &str) -> (r: Option<(Option<u64>, i64)>)
        ensures
            r == match mark_lookup(self.entries@.map_values(|e: MarkEntry| e@), ticker@) {
                Some(e) => Some((e.value_cents, e.mark_epoch)),
                None => None::<(Option<u64>, i64)>,
            },
    {
        match self.find_entry(ticker) {
            Some(e) => Some((e.value_cents, e.mark_epoch)),
            None => None,
        }
    }

    /// Find the first entry for a ticker.
    fn find_entry<'a>(&'a self, ticker: &str) -> (r: Option<&'a MarkEntry>)
        ensures
            match r {
                Some(e) => mark_lookup(self.entries@.map_values(|x: MarkEntry| x@), ticker@)
                    == Some(e@),
                None => mark_lookup(self.entries@.map_values(|x: MarkEntry| x@), ticker@)
                    is None,
            },
    {
        let ghost model = self.entries@.map_values(|x: MarkEntry| x@);
        proof {
            assert(model.skip(0) =~= model);
        }
        let mut i: usize = 0;
        while i < self.entries.len()
            invariant
                model == self.entries@.map_values(|x: MarkEntry| x@),
                i <= self.entries@.len(),
                model.len() == self.entries@.len(),
                mark_lookup(model, ticker@) == mark_lookup(model.skip(i as int), ticker@),
            decreases self.entries@.len() - i,
        {
            proof {
                assert(model.skip(i as int)[0] == model[i as int]);
            }
            if str_eq(self.entries[i].ticker.as_str(), ticker) {
                return Some(&self.entries[i]);
            }
            proof {
                assert(model.skip(i as int).drop_first() =~= model.skip(i + 1));
            }
            i = i + 1;
        }
        proof {
            assert(model.skip(self.entries@.len() as int) =~= Seq::<MarkEntryModel>::empty());
        }
        None
    }
}

} // verus!
