//! Per-symbol detection of frozen market data.
//!
//! A detector watches a fixed list of tickers (trimmed and upper-cased,
//! blanks left out, each once) and remembers, on a monotonic clock, when each
//! last produced an event. A watched ticker is active while its last event is
//! younger than the threshold, stale from then on, and never-seen until its
//! first event; any other ticker is untracked.

use vstd::prelude::*;
use crate::market::MarketEvent;
use crate::text::{normalize, normalize_str, text_eq, texts};
use crate::timestamp::{MonoInstant, TimeSpan};

verus! {

/// Liveness of one ticker.
#[derive(Debug, Clone, Copy, PartialEq, Eq, Structural)]
pub enum SymbolLiveness {
    Active,
    Stale,
    NeverSeen,
    Untracked,
}

/// The watch list built from `symbols`: each normalised, blanks left out,
/// repeats left out, in order of first appearance.
pub open spec fn watch_list(symbols: Seq<Seq<char>>) -> Seq<Seq<char>>
    decreases symbols.len(),
{
    if symbols.len() == 0 {
        seq![]
    } else {
        let w = watch_list(symbols.drop_last());
        let n = normalize(symbols.last());
        if n.len() > 0 && !w.contains(n) {
            w.push(n)
        } else {
            w
        }
    }
}

/// Liveness judged from the last event time (`None`: no event yet) at
/// `now`, with `threshold_ns` nanoseconds of silence making a ticker stale.
pub open spec fn judge(last: Option<u64>, now: u64, threshold_ns: int) -> SymbolLiveness {
    match last {
        None => SymbolLiveness::NeverSeen,
        Some(t) => {
            let elapsed: int = if now >= t {
                now - t
            } else {
                0
            };
            if elapsed >= threshold_ns {
                SymbolLiveness::Stale
            } else {
                SymbolLiveness::Active
            }
        },
    }
}

/// Liveness of ticker `key` (already normalised) in a watch list `syms` with
/// last event times `last` (aligned with `syms`).
pub open spec fn liveness(
    syms: Seq<Seq<char>>,
    last: Seq<Option<u64>>,
    key: Seq<char>,
    now: u64,
    threshold_ns: int,
) -> SymbolLiveness {
    if !syms.contains(key) {
        SymbolLiveness::Untracked
    } else {
        judge(last[syms.index_of(key)], now, threshold_ns)
    }
}

/// Whether a last event time marks its ticker as needing attention.
pub open spec fn needs_attention(last: Option<u64>, now: u64, threshold_ns: int) -> bool {
    judge(last, now, threshold_ns) == SymbolLiveness::Stale || judge(last, now, threshold_ns)
        == SymbolLiveness::NeverSeen
}

/// The watched tickers needing attention (stale or never seen), in watch
/// order.
pub open spec fn pending(syms: Seq<Seq<char>>, last: Seq<Option<u64>>, now: u64, threshold_ns: int) -> Seq<
    Seq<char>,
>
    decreases syms.len(),
{
    if syms.len() == 0 || last.len() < syms.len() {
        seq![]
    } else {
        let n = syms.len() - 1;
        let p = pending(syms.drop_last(), last, now, threshold_ns);
        if needs_attention(last[n], now, threshold_ns) {
            p.push(syms[n])
        } else {
            p
        }
    }
}

/// In a list without repeats, the index of an element is where it is.
proof fn lemma_index_of_distinct(s: Seq<Seq<char>>, i: int)
    requires
        s.no_duplicates(),
        0 <= i < s.len(),
    ensures
        s.index_of(s[i]) == i,
{
    assert(s.contains(s[i]));
    let j = s.index_of(s[i]);
    assert(0 <= j < s.len() && s[j] == s[i]);
}

/// After an event of a watched ticker is recorded at `t`, the ticker is
/// active until `threshold_ns` have passed since `t`, then stale; every
/// other ticker keeps its liveness.
pub proof fn lemma_record_then_check(
    syms: Seq<Seq<char>>,
    last: Seq<Option<u64>>,
    key: Seq<char>,
    other: Seq<char>,
    t: u64,
    now: u64,
    threshold_ns: int,
)
    requires
        syms.no_duplicates(),
        last.len() == syms.len(),
        syms.contains(key),
    ensures
        ({
            let last2 = last.update(syms.index_of(key), Some(t));
            &&& liveness(syms, last2, key, now, threshold_ns) == judge(Some(t), now, threshold_ns)
            &&& other != key ==> liveness(syms, last2, other, now, threshold_ns) == liveness(
                syms,
                last,
                other,
                now,
                threshold_ns,
            )
        }),
{
    let i = syms.index_of(key);
    if syms.contains(other) && other != key {
        let j = syms.index_of(other);
        assert(syms[j] == other && syms[i] == key);
    }
}

/// Without new events, a stale ticker stays stale and an active one can
/// only become stale as the clock moves forward.
pub proof fn lemma_staleness_persists(last: Option<u64>, t1: u64, t2: u64, threshold_ns: int)
    requires
        t1 <= t2,
    ensures
        judge(last, t1, threshold_ns) == SymbolLiveness::Stale ==> judge(last, t2, threshold_ns)
            == SymbolLiveness::Stale,
        judge(last, t2, threshold_ns) == SymbolLiveness::Active ==> judge(last, t1, threshold_ns)
            == SymbolLiveness::Active,
{
}

/// The bulk scan lists exactly the watched tickers whose own status is
/// stale or never-seen.
pub proof fn lemma_pending_members(
    syms: Seq<Seq<char>>,
    last: Seq<Option<u64>>,
    now: u64,
    threshold_ns: int,
    key: Seq<char>,
)
    requires
        syms.no_duplicates(),
        last.len() == syms.len(),
    ensures
        pending(syms, last, now, threshold_ns).contains(key) <==> (syms.contains(key) && (liveness(
            syms,
            last,
            key,
            now,
            threshold_ns,
        ) == SymbolLiveness::Stale || liveness(syms, last, key, now, threshold_ns)
            == SymbolLiveness::NeverSeen)),
{
    lemma_pending_prefix(syms, last, now, threshold_ns, key, syms.len() as int);
    assert(syms.take(syms.len() as int) =~= syms);
    if syms.contains(key) {
        let i = syms.index_of(key);
        assert(syms[i] == key);
    }
}

proof fn lemma_pending_prefix(
    syms: Seq<Seq<char>>,
    last: Seq<Option<u64>>,
    now: u64,
    threshold_ns: int,
    key: Seq<char>,
    k: int,
)
    requires
        syms.no_duplicates(),
        last.len() == syms.len(),
        0 <= k <= syms.len(),
    ensures
        pending(syms.take(k), last, now, threshold_ns).contains(key) <==> (exists|i: int|
            0 <= i < k && syms[i] == key && needs_attention(last[i], now, threshold_ns)),
    decreases k,
{
    let p = syms.take(k);
    if k > 0 {
        assert(p.drop_last() =~= syms.take(k - 1));
        lemma_pending_prefix(syms, last, now, threshold_ns, key, k - 1);
        let q = pending(syms.take(k - 1), last, now, threshold_ns);
        if needs_attention(last[k - 1], now, threshold_ns) && syms[k - 1] == key {
            assert(pending(p, last, now, threshold_ns)[q.len() as int] == key);
        }
        if pending(p, last, now, threshold_ns).contains(key) && !q.contains(key) {
            let m = choose|m: int| 0 <= m < pending(p, last, now, threshold_ns).len() && pending(p, last, now, threshold_ns)[m] == key;
            if m < q.len() {
                assert(q[m] == key);
            }
        }
        if q.contains(key) {
            let m = choose|m: int| 0 <= m < q.len() && q[m] == key;
            if needs_attention(last[k - 1], now, threshold_ns) {
                assert(pending(p, last, now, threshold_ns)[m] == key);
            }
        }
    }
}

/// The frozen-data detector.
pub struct StaleDataDetector {
    threshold: TimeSpan,
    watched_symbols: Vec<String>,
    last_update: Vec<Option<MonoInstant>>,
}

pub open spec fn readings(v: Seq<Option<MonoInstant>>) -> Seq<Option<u64>> {
    v.map_values(
        |o: Option<MonoInstant>|
            match o {
                Some(t) => Some(t.nanos_spec()),
                None => None,
            },
    )
}

impl StaleDataDetector {
    /// The watched tickers, in watch order.
    pub closed spec fn symbols(&self) -> Seq<Seq<char>> {
        texts(self.watched_symbols@)
    }

    /// Last event time of each watched ticker, aligned with `symbols`.
    pub closed spec fn last_seen(&self) -> Seq<Option<u64>> {
        readings(self.last_update@)
    }

    pub closed spec fn threshold_spec(&self) -> TimeSpan {
        self.threshold
    }

    /// Liveness of a raw ticker at `now`.
    pub open spec fn status_of(&self, symbol: Seq<char>, now: u64) -> SymbolLiveness {
        liveness(self.symbols(), self.last_seen(), normalize(symbol), now, self.threshold_spec().total_nanos())
    }

    /// One last time per watched ticker; no ticker watched twice.
    pub open spec fn wf(&self) -> bool {
        &&& self.last_seen().len() == self.symbols().len()
        &&& self.symbols().no_duplicates()
    }

    /// A detector watching the normalised, non-blank `symbols`, none seen yet.
    pub fn new(threshold: TimeSpan, symbols: Vec<String>) -> (r: StaleDataDetector)
        ensures
            r.wf(),
            r.threshold_spec() == threshold,
            r.symbols() == watch_list(texts(symbols@)),
            r.last_seen().len() == r.symbols().len(),
            forall|i: int| 0 <= i < r.last_seen().len() ==> r.last_seen()[i] is None,
    {
        let mut watched: Vec<String> = Vec::new();
        let mut last: Vec<Option<MonoInstant>> = Vec::new();
        let n = symbols.len();
        let mut i: usize = 0;
        while i < n
            invariant
                n == symbols@.len(),
                0 <= i <= n,
                texts(watched@) == watch_list(texts(symbols@).take(i as int)),
                texts(watched@).no_duplicates(),
                last@.len() == watched@.len(),
                forall|j: int| 0 <= j < last@.len() ==> last@[j] is None,
            decreases n - i,
        {
            let ghost before = texts(symbols@).take(i as int);
            assert(texts(symbols@).take(i + 1).drop_last() =~= before);
            let s = normalize_str(symbols[i].as_str());
            let mut found = false;
            let mut j: usize = 0;
            while j < watched.len()
                invariant
                    0 <= j <= watched@.len(),
                    found == (exists|m: int| 0 <= m < j && texts(watched@)[m] == s@),
                decreases watched@.len() - j,
            {
                assert(texts(watched@)[j as int] == watched@[j as int]@);
                if text_eq(watched[j].as_str(), s.as_str()) {
                    found = true;
                }
                j = j + 1;
            }
            proof {
                let w = texts(watched@);
                if w.contains(s@) {
                    let m = choose|m: int| 0 <= m < w.len() && w[m] == s@;
                    assert(found);
                }
            }
            if !s.as_str().is_empty() && !found {
                let ghost w_old = texts(watched@);
                watched.push(s);
                last.push(None);
                proof {
                    assert(texts(watched@) =~= w_old.push(normalize(symbols@[i as int]@)));
                    assert(texts(watched@).no_duplicates()) by {
                        let w = texts(watched@);
                        assert forall|a: int, b: int| 0 <= a < b < w.len() implies w[a] != w[b] by {
                            if b == w.len() - 1 {
                                assert(w_old.contains(w[a]));
                            }
                        }
                    }
                }
            }
            proof {
                assert(normalize(symbols@[i as int]@).len() == s@.len());
            }
            i = i + 1;
        }
        assert(texts(symbols@).take(n as int) =~= texts(symbols@));
        StaleDataDetector { threshold, watched_symbols: watched, last_update: last }
    }

    /// Position of normalised ticker `key` in the watch list, if watched.
    fn position(&self, key: &str) -> (r: Option<usize>)
        requires
            self.wf(),
        ensures
            r is None <==> !self.symbols().contains(key@),
            r matches Some(i) ==> i < self.symbols().len() && i == self.symbols().index_of(key@),
    {
        let n = self.watched_symbols.len();
        let mut i: usize = 0;
        while i < n
            invariant
                self.wf(),
                n == self.watched_symbols@.len(),
                0 <= i <= n,
                forall|m: int| 0 <= m < i ==> self.symbols()[m] != key@,
            decreases n - i,
        {
            if text_eq(self.watched_symbols[i].as_str(), key) {
                proof {
                    lemma_index_of_distinct(self.symbols(), i as int);
                }
                return Some(i);
            }
            i = i + 1;
        }
        None
    }

    /// Records an event of `symbol` at `now`; `false`, changing nothing, when
    /// the ticker is not watched.
    pub fn record_update(&mut self, symbol: &str, now: MonoInstant) -> (r: bool)
        requires
            old(self).wf(),
        ensures
            final(self).wf(),
            final(self).symbols() == old(self).symbols(),
            final(self).threshold_spec() == old(self).threshold_spec(),
            r == old(self).symbols().contains(normalize(symbol@)),
            r ==> final(self).last_seen() == old(self).last_seen().update(
                old(self).symbols().index_of(normalize(symbol@)),
                Some(now.nanos_spec()),
            ),
            !r ==> final(self).last_seen() == old(self).last_seen(),
    {
        let key = normalize_str(symbol);
        match self.position(key.as_str()) {
            Some(i) => {
                self.last_update.set(i, Some(now));
                proof {
                    assert(self.last_seen() =~= old(self).last_seen().update(i as int, Some(now.nanos_spec())));
                }
                true
            },
            None => false,
        }
    }

    /// Liveness of `symbol` at `now`.
    pub fn check_status(&self, symbol: &str, now: MonoInstant) -> (r: SymbolLiveness)
        requires
            self.wf(),
        ensures
            r == self.status_of(symbol@, now.nanos_spec()),
    {
        let key = normalize_str(symbol);
        match self.position(key.as_str()) {
            None => SymbolLiveness::Untracked,
            Some(i) => self.judge_at(i, now),
        }
    }

    /// Liveness of the `i`-th watched ticker at `now`.
    fn judge_at(&self, i: usize, now: MonoInstant) -> (r: SymbolLiveness)
        requires
            self.wf(),
            i < self.symbols().len(),
        ensures
            r == judge(self.last_seen()[i as int], now.nanos_spec(), self.threshold_spec().total_nanos()),
    {
        match self.last_update[i] {
            None => SymbolLiveness::NeverSeen,
            Some(last_time) => {
                let elapsed = now.duration_since(last_time);
                if elapsed.ge(&self.threshold) {
                    SymbolLiveness::Stale
                } else {
                    SymbolLiveness::Active
                }
            },
        }
    }

    /// The watched tickers that are stale or never seen at `now`, in watch
    /// order.
    pub fn get_stale_symbols(&self, now: MonoInstant) -> (r: Vec<String>)
        requires
            self.wf(),
        ensures
            texts(r@) == pending(
                self.symbols(),
                self.last_seen(),
                now.nanos_spec(),
                self.threshold_spec().total_nanos(),
            ),
    {
        let mut out: Vec<String> = Vec::new();
        let n = self.watched_symbols.len();
        let mut i: usize = 0;
        while i < n
            invariant
                self.wf(),
                n == self.watched_symbols@.len(),
                0 <= i <= n,
                texts(out@) == pending(
                    self.symbols().take(i as int),
                    self.last_seen(),
                    now.nanos_spec(),
                    self.threshold_spec().total_nanos(),
                ),
            decreases n - i,
        {
            let ghost syms = self.symbols().take(i + 1);
            assert(syms.drop_last() =~= self.symbols().take(i as int));
            let status = self.judge_at(i, now);
            match status {
                SymbolLiveness::Stale | SymbolLiveness::NeverSeen => {
                    let ghost before = texts(out@);
                    out.push(self.watched_symbols[i].clone());
                    assert(texts(out@) =~= before.push(self.symbols()[i as int]));
                },
                _ => {},
            }
            i = i + 1;
        }
        assert(self.symbols().take(n as int) =~= self.symbols());
        out
    }

    /// Records `event` for its ticker at `now` (see `record_update`).
    pub fn record_event(&mut self, event: &MarketEvent, now: MonoInstant) -> (r: bool)
        requires
            old(self).wf(),
        ensures
            final(self).wf(),
            final(self).symbols() == old(self).symbols(),
            final(self).threshold_spec() == old(self).threshold_spec(),
            r == old(self).symbols().contains(normalize(event.symbol_spec())),
            r ==> final(self).last_seen() == old(self).last_seen().update(
                old(self).symbols().index_of(normalize(event.symbol_spec())),
                Some(now.nanos_spec()),
            ),
            !r ==> final(self).last_seen() == old(self).last_seen(),
    {
        match event {
            MarketEvent::Trade(trade) => self.record_update(trade.symbol.as_str(), now),
            MarketEvent::Quote(quote) => self.record_update(quote.symbol.as_str(), now),
        }
    }
}

/// A detector's status reading after an event is recorded: the ticker of
/// the event is active until the threshold has passed since the event, then
/// stale, and every other ticker reads as it did before.
pub proof fn lemma_detector_record_then_check(
    before: StaleDataDetector,
    after: StaleDataDetector,
    symbol: Seq<char>,
    other: Seq<char>,
    t: u64,
    now: u64,
)
    requires
        before.wf(),
        after.symbols() == before.symbols(),
        after.threshold_spec() == before.threshold_spec(),
        before.symbols().contains(normalize(symbol)),
        after.last_seen() == before.last_seen().update(
            before.symbols().index_of(normalize(symbol)),
            Some(t),
        ),
    ensures
        after.status_of(symbol, now) == judge(Some(t), now, before.threshold_spec().total_nanos()),
        normalize(other) != normalize(symbol) ==> after.status_of(other, now) == before.status_of(
            other,
            now,
        ),
{
    lemma_record_then_check(
        before.symbols(),
        before.last_seen(),
        normalize(symbol),
        normalize(other),
        t,
        now,
        before.threshold_spec().total_nanos(),
    );
}

/// How a watched ticker's liveness follows from its last event time: never
/// seen without one; otherwise stale once at least the threshold has passed
/// since it, active before that (a time later than `now` counting as just
/// now).
pub proof fn lemma_judge_by_elapsed(last: Option<u64>, now: u64, threshold_ns: int)
    ensures
        last is None <==> judge(last, now, threshold_ns) == SymbolLiveness::NeverSeen,
        last matches Some(t) && now >= t && now - t >= threshold_ns ==> judge(last, now, threshold_ns)
            == SymbolLiveness::Stale,
        last matches Some(t) && now >= t && now - t < threshold_ns ==> judge(last, now, threshold_ns)
            == SymbolLiveness::Active,
        last matches Some(t) && now < t ==> judge(last, now, threshold_ns) == if threshold_ns <= 0 {
            SymbolLiveness::Stale
        } else {
            SymbolLiveness::Active
        },
{
}

/// A ticker that is not watched reads as untracked; a watched one is judged
/// by its own last event time.
pub proof fn lemma_liveness_of_watched(
    syms: Seq<Seq<char>>,
    last: Seq<Option<u64>>,
    key: Seq<char>,
    i: int,
    now: u64,
    threshold_ns: int,
)
    requires
        syms.no_duplicates(),
        0 <= i < syms.len(),
    ensures
        liveness(syms, last, syms[i], now, threshold_ns) == judge(last[i], now, threshold_ns),
        !syms.contains(key) ==> liveness(syms, last, key, now, threshold_ns) == SymbolLiveness::Untracked,
{
    lemma_index_of_distinct(syms, i);
}

} // verus!
