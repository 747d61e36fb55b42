//! Bookkeeping of the tickers subscribed on the market-data connection, and
//! the JSON control messages that change them.
//!
//! Tickers are trimmed and upper-cased; a blank one refuses the whole
//! request. Subscribing reports only the tickers that were not yet
//! subscribed, unsubscribing only those that were, each list sorted; the
//! message reads `{"symbols":[...],"type":"subscribe"}` (or
//! `"unsubscribe"`), keys in the order serde_json writes them.

use vstd::prelude::*;
use crate::errors::MarketDataError;
use crate::sorted_texts::{
    lemma_sorted_no_duplicates, lemma_sorted_texts_of, lemma_take_to_set_step, sorted_insert, sorted_remove, sorted_texts,
    strictly_sorted, find_slot,
};
use crate::text::{
    concat, in_ascii_normal_form, json_quote, json_quoted, lemma_normalize_fixed, lemma_texts_push, normalize,
    normalize_str, owned, texts,
};

verus! {

/// Why a blank ticker is refused.
pub open spec fn blank_symbol_message() -> Seq<char> {
    "Không thể đăng ký symbol rỗng"@
}

/// The quoted tickers joined by commas.
pub open spec fn json_list_items(syms: Seq<Seq<char>>) -> Seq<char>
    decreases syms.len(),
{
    if syms.len() == 0 {
        seq![]
    } else if syms.len() == 1 {
        json_quoted(syms[0])
    } else {
        json_list_items(syms.drop_last()) + seq![','] + json_quoted(syms.last())
    }
}

/// The control message of kind `kind` for the tickers `syms`.
pub open spec fn symbols_message(kind: Seq<char>, syms: Seq<Seq<char>>) -> Seq<char> {
    "{\"symbols\":["@ + json_list_items(syms) + "],\"type\":"@ + json_quoted(kind) + "}"@
}

/// The tickers of a request, each normalised.
pub open spec fn normalized_all(symbols: Seq<&str>) -> Seq<Seq<char>> {
    symbols.map_values(|s: &str| normalize(s@))
}

/// The tickers a request names, normalised.
pub open spec fn requested(symbols: Seq<&str>) -> Set<Seq<char>> {
    normalized_all(symbols).to_set()
}

/// Whether a request names a ticker that is blank once normalised.
pub open spec fn has_blank(symbols: Seq<&str>) -> bool {
    exists|i: int| 0 <= i < symbols.len() && normalize(#[trigger] symbols[i]@).len() == 0
}

/// What a request yields: no message when nothing changed, otherwise the
/// message of kind `kind` listing the changed tickers in order.
pub open spec fn change_message(kind: Seq<char>, changed: Set<Seq<char>>) -> Option<Seq<char>> {
    if changed.len() == 0 {
        None
    } else {
        Some(symbols_message(kind, sorted_texts(changed)))
    }
}

pub open spec fn opt_text(o: Option<String>) -> Option<Seq<char>> {
    match o {
        Some(s) => Some(s@),
        None => None,
    }
}

/// The control message of kind `kind` for the tickers `syms`.
fn build_message(kind: &str, syms: &Vec<String>) -> (r: String)
    ensures
        r@ == symbols_message(kind@, texts(syms@)),
{
    let mut items = String::new();
    let n = syms.len();
    let mut i: usize = 0;
    while i < n
        invariant
            n == syms@.len(),
            0 <= i <= n,
            items@ == json_list_items(texts(syms@).take(i as int)),
        decreases n - i,
    {
        proof {
            reveal_strlit(",");
        }
        let ghost t = texts(syms@).take(i + 1);
        assert(t.drop_last() =~= texts(syms@).take(i as int));
        assert(t.last() == syms@[i as int]@);
        let q = json_quote(syms[i].as_str());
        if i == 0 {
            items = q;
        } else {
            let with_comma = concat(items.as_str(), ",");
            items = concat(with_comma.as_str(), q.as_str());
        }
        i = i + 1;
    }
    assert(texts(syms@).take(n as int) =~= texts(syms@));
    let head = concat("{\"symbols\":[", items.as_str());
    let mid = concat(head.as_str(), "],\"type\":");
    let kind_q = json_quote(kind);
    let body = concat(mid.as_str(), kind_q.as_str());
    concat(body.as_str(), "}")
}

/// Subscribing a request again right after it succeeded changes nothing
/// and sends no message.
pub proof fn lemma_subscribe_idempotent(active: Set<Seq<char>>, req: Set<Seq<char>>)
    ensures
        active.union(req).union(req) == active.union(req),
        change_message("subscribe"@, req.difference(active.union(req))) is None,
{
    assert(active.union(req).union(req) =~= active.union(req));
    assert(req.difference(active.union(req)) =~= Set::<Seq<char>>::empty());
}

/// Unsubscribing a request right after subscribing it leaves none of its
/// tickers subscribed, keeps every other, and announces all of them.
pub proof fn lemma_unsubscribe_after_subscribe(active: Set<Seq<char>>, req: Set<Seq<char>>)
    ensures
        active.union(req).difference(req) == active.difference(req),
        req.intersect(active.union(req)) == req,
{
    assert(active.union(req).difference(req) =~= active.difference(req));
    assert(req.intersect(active.union(req)) =~= req);
}

/// After a request is subscribed, every ticker it names (in any case, with
/// any surrounding blanks) reads as subscribed.
pub proof fn lemma_subscribed_after_subscribe(active: Set<Seq<char>>, symbols: Seq<&str>, i: int)
    requires
        0 <= i < symbols.len(),
    ensures
        active.union(requested(symbols)).contains(normalize(symbols[i]@)),
{
    assert(normalized_all(symbols)[i] == normalize(symbols[i]@));
}

/// Subscription state: the subscribed tickers.
#[derive(Debug, Clone)]
pub struct SubscriptionManager {
    active_symbols: Vec<String>,
}

impl SubscriptionManager {
    /// The subscribed tickers, in increasing order.
    pub closed spec fn symbols(&self) -> Seq<Seq<char>> {
        texts(self.active_symbols@)
    }

    /// The set of subscribed tickers.
    pub open spec fn active(&self) -> Set<Seq<char>> {
        self.symbols().to_set()
    }

    pub open spec fn wf(&self) -> bool {
        strictly_sorted(self.symbols())
    }

    /// No ticker subscribed.
    pub fn new() -> (r: SubscriptionManager)
        ensures
            r.wf(),
            r.symbols().len() == 0,
    {
        SubscriptionManager { active_symbols: Vec::new() }
    }

    /// Trims and upper-cases a ticker; a blank one is refused.
    pub fn normalize_symbol(symbol: &str) -> (r: Result<String, MarketDataError>)
        ensures
            normalize(symbol@).len() > 0 ==> (r matches Ok(s) && s@ == normalize(symbol@)),
            normalize(symbol@).len() == 0 ==> (r matches Err(MarketDataError::EmptyData(m)) && m@
                == blank_symbol_message()),
    {
        let s = normalize_str(symbol);
        if s.as_str().is_empty() {
            return Err(MarketDataError::EmptyData(owned("Không thể đăng ký symbol rỗng")));
        }
        Ok(s)
    }

    /// The normalised tickers of a request, or the refusal of its first
    /// blank one.
    fn normalize_all(symbols: &[&str]) -> (r: Result<Vec<String>, MarketDataError>)
        ensures
            has_blank(symbols@) ==> (r matches Err(MarketDataError::EmptyData(m)) && m@
                == blank_symbol_message()),
            !has_blank(symbols@) ==> (r matches Ok(keys) && texts(keys@) == normalized_all(symbols@)),
    {
        let mut keys: Vec<String> = Vec::new();
        let n = symbols.len();
        let mut i: usize = 0;
        while i < n
            invariant
                n == symbols@.len(),
                0 <= i <= n,
                texts(keys@) == normalized_all(symbols@).take(i as int),
                forall|k: int| 0 <= k < i ==> normalize(#[trigger] symbols@[k]@).len() > 0,
            decreases n - i,
        {
            match Self::normalize_symbol(symbols[i]) {
                Ok(k) => {
                    let ghost before = keys@;
                    let ghost kv = k;
                    keys.push(k);
                    proof {
                        lemma_texts_push(before, kv);
                        assert(texts(keys@) =~= normalized_all(symbols@).take(i + 1));
                    }
                },
                Err(e) => {
                    return Err(e);
                },
            }
            i = i + 1;
        }
        assert(normalized_all(symbols@).take(n as int) =~= normalized_all(symbols@));
        Ok(keys)
    }

    /// A manager subscribed to `symbols`, with the message announcing them.
    pub fn with_symbols(symbols: &[&str]) -> (r: Result<(SubscriptionManager, Option<String>), MarketDataError>)
        ensures
            has_blank(symbols@) ==> (r matches Err(MarketDataError::EmptyData(m)) && m@
                == blank_symbol_message()),
            !has_blank(symbols@) ==> (r matches Ok((m, msg)) && m.wf() && m.active() == requested(
                symbols@,
            ) && opt_text(msg) == change_message("subscribe"@, requested(symbols@))),
    {
        let mut s = Self::new();
        proof {
            assert(s.active() =~= Set::<Seq<char>>::empty());
            assert(requested(symbols@).difference(s.active()) =~= requested(symbols@));
            assert(s.active().union(requested(symbols@)) =~= requested(symbols@));
        }
        match s.subscribe(symbols) {
            Ok(payload) => Ok((s, payload)),
            Err(e) => Err(e),
        }
    }

    /// Subscribes the tickers of a request. Refused, changing nothing, when
    /// one is blank; otherwise the message lists the tickers that were not
    /// yet subscribed (none: no message).
    pub fn subscribe(&mut self, symbols: &[&str]) -> (r: Result<Option<String>, MarketDataError>)
        requires
            old(self).wf(),
        ensures
            final(self).wf(),
            has_blank(symbols@) ==> (r matches Err(MarketDataError::EmptyData(m)) && m@
                == blank_symbol_message()) && final(self).symbols() == old(self).symbols(),
            !has_blank(symbols@) ==> (r matches Ok(msg) && final(self).active() == old(self).active().union(
                requested(symbols@),
            ) && opt_text(msg) == change_message(
                "subscribe"@,
                requested(symbols@).difference(old(self).active()),
            )),
    {
        let keys = match Self::normalize_all(symbols) {
            Ok(k) => k,
            Err(e) => {
                return Err(e);
            },
        };
        let ghost req = texts(keys@);
        assert(req.to_set() =~= requested(symbols@));
        let mut added: Vec<String> = Vec::new();
        let n = keys.len();
        let mut j: usize = 0;
        while j < n
            invariant
                n == keys@.len(),
                req == texts(keys@),
                0 <= j <= n,
                strictly_sorted(self.symbols()),
                strictly_sorted(texts(added@)),
                self.active() == old(self).active().union(req.take(j as int).to_set()),
                texts(added@).to_set() == req.take(j as int).to_set().difference(old(self).active()),
            decreases n - j,
        {
            proof {
                lemma_take_to_set_step(req, j as int);
                assert(req[j as int] == keys@[j as int]@);
            }
            let ghost kk = req[j as int];
            let ghost a0 = self.active();
            let ghost d0 = texts(added@).to_set();
            let k = keys[j].clone();
            let fresh = sorted_insert(&mut self.active_symbols, k);
            if fresh {
                let k2 = keys[j].clone();
                let _ = sorted_insert(&mut added, k2);
            }
            proof {
                let p0 = req.take(j as int).to_set();
                assert(fresh == !a0.contains(kk));
                assert(self.active() =~= old(self).active().union(req.take(j + 1).to_set()));
                let d1 = texts(added@).to_set();
                assert(fresh ==> d1 == d0.insert(kk));
                assert(!fresh ==> d1 == d0);
                assert forall|x: Seq<char>| d1.contains(x) <==> p0.insert(kk).difference(old(self).active()).contains(x) by {
                    if x == kk && !fresh {
                        assert(old(self).active().contains(kk) || p0.contains(kk));
                    }
                }
                assert(d1 =~= req.take(j + 1).to_set().difference(old(self).active()));
            }
            j = j + 1;
        }
        assert(req.take(n as int) =~= req);
        let ghost changed = requested(symbols@).difference(old(self).active());
        proof {
            lemma_sorted_no_duplicates(texts(added@));
            texts(added@).unique_seq_to_set();
            lemma_sorted_texts_of(texts(added@));
        }
        if added.len() == 0 {
            assert(changed =~= Set::<Seq<char>>::empty());
            Ok(None)
        } else {
            Ok(Some(build_message("subscribe", &added)))
        }
    }

    /// Unsubscribes the tickers of a request. Refused, changing nothing,
    /// when one is blank; otherwise the message lists the tickers that were
    /// subscribed (none: no message).
    pub fn unsubscribe(&mut self, symbols: &[&str]) -> (r: Result<Option<String>, MarketDataError>)
        requires
            old(self).wf(),
        ensures
            final(self).wf(),
            has_blank(symbols@) ==> (r matches Err(MarketDataError::EmptyData(m)) && m@
                == blank_symbol_message()) && final(self).symbols() == old(self).symbols(),
            !has_blank(symbols@) ==> (r matches Ok(msg) && final(self).active() == old(self).active().difference(
                requested(symbols@),
            ) && opt_text(msg) == change_message(
                "unsubscribe"@,
                requested(symbols@).intersect(old(self).active()),
            )),
    {
        let keys = match Self::normalize_all(symbols) {
            Ok(k) => k,
            Err(e) => {
                return Err(e);
            },
        };
        let ghost req = texts(keys@);
        assert(req.to_set() =~= requested(symbols@));
        let mut removed: Vec<String> = Vec::new();
        let n = keys.len();
        let mut j: usize = 0;
        while j < n
            invariant
                n == keys@.len(),
                req == texts(keys@),
                0 <= j <= n,
                strictly_sorted(self.symbols()),
                strictly_sorted(texts(removed@)),
                self.active() == old(self).active().difference(req.take(j as int).to_set()),
                texts(removed@).to_set() == req.take(j as int).to_set().intersect(old(self).active()),
            decreases n - j,
        {
            proof {
                lemma_take_to_set_step(req, j as int);
                assert(req[j as int] == keys@[j as int]@);
            }
            let ghost kk = req[j as int];
            let ghost a0 = self.active();
            let ghost d0 = texts(removed@).to_set();
            let gone = sorted_remove(&mut self.active_symbols, keys[j].as_str());
            if gone {
                let k = keys[j].clone();
                let _ = sorted_insert(&mut removed, k);
            }
            proof {
                let p0 = req.take(j as int).to_set();
                assert(gone == a0.contains(kk));
                assert(self.active() =~= old(self).active().difference(req.take(j + 1).to_set()));
                let d1 = texts(removed@).to_set();
                assert(gone ==> d1 == d0.insert(kk));
                assert(!gone ==> d1 == d0);
                assert forall|x: Seq<char>| d1.contains(x) <==> p0.insert(kk).intersect(old(self).active()).contains(x) by {
                    if x == kk && !gone && old(self).active().contains(kk) {
                        assert(p0.contains(kk));
                    }
                }
                assert(d1 =~= req.take(j + 1).to_set().intersect(old(self).active()));
            }
            j = j + 1;
        }
        assert(req.take(n as int) =~= req);
        let ghost changed = requested(symbols@).intersect(old(self).active());
        proof {
            lemma_sorted_no_duplicates(texts(removed@));
            texts(removed@).unique_seq_to_set();
            lemma_sorted_texts_of(texts(removed@));
        }
        if removed.len() == 0 {
            assert(changed =~= Set::<Seq<char>>::empty());
            Ok(None)
        } else {
            Ok(Some(build_message("unsubscribe", &removed)))
        }
    }

    /// The message that subscribes every subscribed ticker again (after a
    /// reconnection); none when nothing is subscribed.
    pub fn generate_resubscribe_message(&self) -> (r: Result<Option<String>, MarketDataError>)
        requires
            self.wf(),
        ensures
            r matches Ok(msg) && opt_text(msg) == change_message("subscribe"@, self.active()),
    {
        proof {
            lemma_sorted_no_duplicates(self.symbols());
            self.symbols().unique_seq_to_set();
            lemma_sorted_texts_of(self.symbols());
        }
        if self.active_symbols.len() == 0 {
            assert(self.active() =~= Set::<Seq<char>>::empty());
            return Ok(None);
        }
        Ok(Some(build_message("subscribe", &self.active_symbols)))
    }

    /// Whether `symbol` (normalised) is subscribed.
    pub fn is_subscribed(&self, symbol: &str) -> (r: bool)
        requires
            self.wf(),
        ensures
            r == self.active().contains(normalize(symbol@)),
    {
        let key = normalize_str(symbol);
        let (_, found) = find_slot(&self.active_symbols, key.as_str());
        found
    }

    /// The subscribed tickers, in increasing order. Each listed ticker in
    /// ASCII normal form (every ticker subscribed from ASCII text is, see
    /// `lemma_normalize_idempotent`) reads back as subscribed.
    pub fn get_active_symbols(&self) -> (r: Vec<String>)
        requires
            self.wf(),
        ensures
            texts(r@) == sorted_texts(self.active()),
            forall|k: int|
                0 <= k < r@.len() && in_ascii_normal_form(#[trigger] r@[k]@) ==> self.active().contains(
                    normalize(r@[k]@),
                ),
    {
        proof {
            lemma_sorted_texts_of(self.symbols());
        }
        let mut out: Vec<String> = Vec::new();
        let n = self.active_symbols.len();
        let mut i: usize = 0;
        while i < n
            invariant
                n == self.active_symbols@.len(),
                0 <= i <= n,
                texts(out@) == self.symbols().take(i as int),
            decreases n - i,
        {
            let ghost before = out@;
            let x = self.active_symbols[i].clone();
            let ghost xv = x;
            out.push(x);
            proof {
                lemma_texts_push(before, xv);
                assert(texts(out@) =~= self.symbols().take(i + 1));
            }
            i = i + 1;
        }
        assert(self.symbols().take(n as int) =~= self.symbols());
        proof {
            assert forall|k: int|
                0 <= k < out@.len() && in_ascii_normal_form(#[trigger] out@[k]@) implies self.active().contains(
                normalize(out@[k]@),
            ) by {
                lemma_normalize_fixed(out@[k]@);
                assert(texts(out@)[k] == out@[k]@);
                assert(self.symbols().contains(self.symbols()[k]));
            }
        }
        out
    }

    /// Number of subscribed tickers.
    pub fn len(&self) -> (r: usize)
        requires
            self.wf(),
        ensures
            r == self.active().len(),
    {
        proof {
            lemma_sorted_no_duplicates(self.symbols());
            self.symbols().unique_seq_to_set();
        }
        self.active_symbols.len()
    }

    /// Whether no ticker is subscribed.
    pub fn is_empty(&self) -> (r: bool)
        requires
            self.wf(),
        ensures
            r == (self.active().len() == 0),
    {
        proof {
            lemma_sorted_no_duplicates(self.symbols());
            self.symbols().unique_seq_to_set();
        }
        self.active_symbols.len() == 0
    }
}

} // verus!
