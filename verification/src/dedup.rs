//! Duplicate suppression for market events.
//!
//! Quotes are identified by a 64-bit fingerprint of all their fields; the
//! fingerprints of the most recent distinct quotes are remembered in a
//! bounded first-in first-out window, and a quote whose fingerprint is in the
//! window is a duplicate. Trades are never suppressed: each one is a distinct
//! market fact.

use vstd::prelude::*;
use std::collections::hash_map::DefaultHasher;
use std::collections::{HashSet, VecDeque};
use std::hash::Hasher;
use vstd::std_specs::hash::DefaultHasherAdditionalSpecFns;
use vstd::utf8::encode_utf8;
use crate::ieee::Ieee64;
use crate::market::{MarketEvent, Quote};

verus! {

broadcast use vstd::std_specs::hash::group_hash_axioms;

/// Window size used when a capacity of zero is asked for.
pub const DEFAULT_CAPACITY: usize = 10_000;

/// The `n` low-order bytes of `x`, least significant first.
pub open spec fn le_bytes(x: nat, n: nat) -> Seq<u8>
    decreases n,
{
    if n == 0 {
        seq![]
    } else {
        seq![(x % 256) as u8] + le_bytes(x / 256, (n - 1) as nat)
    }
}

/// The bit pattern a price or volume is hashed by: that of `+0.0` for
/// either zero, so that `-0.0` and `+0.0` are the same value.
pub open spec fn canonical_bits(x: Ieee64) -> u64 {
    if x.is_zero_spec() {
        0
    } else {
        x.bits
    }
}

/// What the fingerprint of a quote feeds the hasher, write by write: the
/// ticker's UTF-8 bytes and a terminating `0xff`, the bit patterns of the
/// four prices and volumes (either zero as `+0.0`), then the timestamp's
/// seconds and nanoseconds.
pub open spec fn quote_hash_input(q: Quote) -> Seq<Seq<u8>> {
    seq![
        encode_utf8(q.symbol@),
        seq![0xffu8],
        le_bytes(canonical_bits(q.bid_price) as nat, 8),
        le_bytes(canonical_bits(q.bid_vol) as nat, 8),
        le_bytes(canonical_bits(q.ask_price) as nat, 8),
        le_bytes(canonical_bits(q.ask_vol) as nat, 8),
        le_bytes(q.timestamp.secs_spec() as u64 as nat, 8),
        le_bytes(q.timestamp.nanos_spec() as nat, 4),
    ]
}

/// The fingerprint of a quote.
pub open spec fn quote_fingerprint(q: Quote) -> u64 {
    DefaultHasher::spec_finish(quote_hash_input(q))
}

/// Offering fingerprint `fp` to the window `w` of size limit `cap`: whether
/// it is a duplicate, and the window after. A new fingerprint is appended
/// and the oldest ones leave while the window is over its limit.
pub open spec fn dedup_step(w: Seq<u64>, cap: nat, fp: u64) -> (bool, Seq<u64>) {
    if w.contains(fp) {
        (true, w)
    } else {
        let w1 = w.push(fp);
        if w1.len() > cap {
            (false, w1.skip(w1.len() - cap))
        } else {
            (false, w1)
        }
    }
}

/// The last `n` elements of `s`, all of them when there are fewer.
pub open spec fn last_n(s: Seq<u64>, n: nat) -> Seq<u64> {
    if s.len() > n {
        s.skip(s.len() - n)
    } else {
        s
    }
}

/// The state a fresh de-duplicator with window size `cap` reaches over the
/// events `evs`, offered in order: the window, the events counted, the
/// quotes reported as duplicates and the trades reported as duplicates.
pub open spec fn dedup_run(cap: nat, evs: Seq<MarketEvent>) -> (Seq<u64>, nat, nat, nat)
    decreases evs.len(),
{
    if evs.len() == 0 {
        (seq![], 0, 0, 0)
    } else {
        let (w, n, dq, dt) = dedup_run(cap, evs.drop_last());
        match evs.last() {
            MarketEvent::Trade(_) => (w, n + 1, dq, dt),
            MarketEvent::Quote(q) => {
                let (dup, w2) = dedup_step(w, cap, quote_fingerprint(q));
                (w2, n + 1, if dup {
                    dq + 1
                } else {
                    dq
                }, dt)
            },
        }
    }
}

/// The fingerprints of the quotes among `evs` that were not reported as
/// duplicates, in the order they were offered.
pub open spec fn stored_fps(cap: nat, evs: Seq<MarketEvent>) -> Seq<u64>
    decreases evs.len(),
{
    if evs.len() == 0 {
        seq![]
    } else {
        let prev = stored_fps(cap, evs.drop_last());
        match evs.last() {
            MarketEvent::Trade(_) => prev,
            MarketEvent::Quote(q) => if dedup_run(cap, evs.drop_last()).0.contains(
                quote_fingerprint(q),
            ) {
                prev
            } else {
                prev.push(quote_fingerprint(q))
            },
        }
    }
}

/// How many of `evs` are quotes.
pub open spec fn quote_count(evs: Seq<MarketEvent>) -> nat
    decreases evs.len(),
{
    if evs.len() == 0 {
        0
    } else {
        quote_count(evs.drop_last()) + if evs.last() is Quote {
            1nat
        } else {
            0
        }
    }
}

proof fn lemma_run_push(cap: nat, evs: Seq<MarketEvent>, e: MarketEvent)
    ensures
        evs.push(e).drop_last() == evs,
        evs.push(e).last() == e,
{
    assert(evs.push(e).drop_last() =~= evs);
}

fn canonical_bits_of(x: Ieee64) -> (r: u64)
    ensures
        r == canonical_bits(x),
{
    if x.is_zero() {
        0
    } else {
        x.to_bits()
    }
}

/// The `n` low-order bytes of `x`, least significant first.
fn le_bytes_of(x: u64, n: usize) -> (r: Vec<u8>)
    requires
        n <= 8,
    ensures
        r@ == le_bytes(x as nat, n as nat),
{
    let mut out: Vec<u8> = Vec::new();
    let mut y: u64 = x;
    let mut i: usize = 0;
    while i < n
        invariant
            i <= n,
            out@ + le_bytes(y as nat, (n - i) as nat) == le_bytes(x as nat, n as nat),
        decreases n - i,
    {
        let ghost rest = le_bytes(y as nat, (n - i) as nat);
        assert(rest == seq![(y as nat % 256) as u8] + le_bytes(y as nat / 256, (n - i - 1) as nat));
        out.push((y % 256) as u8);
        y = y / 256;
        i = i + 1;
        assert(out@ + le_bytes(y as nat, (n - i) as nat) =~= le_bytes(x as nat, n as nat));
    }
    assert(out@ =~= out@ + le_bytes(y as nat, 0));
    out
}

/// The event de-duplicator.
pub struct EventDeduplicator {
    capacity: usize,
    dedup_trades: bool,
    seen_quotes: HashSet<u64>,
    order_quotes: VecDeque<u64>,
    total_received: u64,
    dropped_quotes: u64,
    dropped_trades: u64,
}

impl EventDeduplicator {
    /// The remembered fingerprints, oldest first.
    pub closed spec fn window(&self) -> Seq<u64> {
        self.order_quotes@
    }

    pub closed spec fn capacity_spec(&self) -> usize {
        self.capacity
    }

    pub closed spec fn dedup_trades_spec(&self) -> bool {
        self.dedup_trades
    }

    pub closed spec fn total_received_spec(&self) -> u64 {
        self.total_received
    }

    pub closed spec fn dropped_quotes_spec(&self) -> u64 {
        self.dropped_quotes
    }

    pub closed spec fn dropped_trades_spec(&self) -> u64 {
        self.dropped_trades
    }

    /// The window and the three counters, as [`dedup_run`] gives them.
    pub open spec fn state(&self) -> (Seq<u64>, nat, nat, nat) {
        (
            self.window(),
            self.total_received_spec() as nat,
            self.dropped_quotes_spec() as nat,
            self.dropped_trades_spec() as nat,
        )
    }

    /// The set of fingerprints agrees with the window, which holds no
    /// fingerprint twice and no more than the (non-zero) capacity.
    pub closed spec fn wf(&self) -> bool {
        &&& self.capacity >= 1
        &&& self.order_quotes@.no_duplicates()
        &&& self.order_quotes@.len() <= self.capacity
        &&& forall|v: u64| self.seen_quotes@.contains(v) <==> self.order_quotes@.contains(v)
    }

    /// A de-duplicator remembering up to `capacity` quote fingerprints (the
    /// default when `capacity` is zero).
    pub fn new(capacity: usize, dedup_trades: bool) -> (r: EventDeduplicator)
        ensures
            r.wf(),
            r.capacity_spec() == if capacity == 0 {
                DEFAULT_CAPACITY
            } else {
                capacity
            },
            r.dedup_trades_spec() == dedup_trades,
            r.window().len() == 0,
            r.total_received_spec() == 0,
            r.dropped_quotes_spec() == 0,
            r.dropped_trades_spec() == 0,
            r.state() == dedup_run(r.capacity_spec() as nat, seq![]),
    {
        let cap = if capacity == 0 {
            DEFAULT_CAPACITY
        } else {
            capacity
        };
        let r = EventDeduplicator {
            capacity: cap,
            dedup_trades,
            seen_quotes: HashSet::with_capacity(cap),
            order_quotes: VecDeque::with_capacity(cap),
            total_received: 0,
            dropped_quotes: 0,
            dropped_trades: 0,
        };
        assert(r.window() =~= seq![]);
        r
    }

    /// The 64-bit fingerprint of a quote: the default hasher fed the
    /// ticker, the four price and volume bit patterns (a zero of either sign
    /// as `+0.0`) and the timestamp.
    pub fn fingerprint(quote: &Quote) -> (r: u64)
        ensures
            r == quote_fingerprint(*quote),
    {
        let mut hasher = DefaultHasher::new();
        hasher.write(quote.symbol.as_str().as_bytes());
        let end: Vec<u8> = vec![0xffu8];
        hasher.write(end.as_slice());
        let b1 = le_bytes_of(canonical_bits_of(quote.bid_price), 8);
        hasher.write(b1.as_slice());
        let b2 = le_bytes_of(canonical_bits_of(quote.bid_vol), 8);
        hasher.write(b2.as_slice());
        let b3 = le_bytes_of(canonical_bits_of(quote.ask_price), 8);
        hasher.write(b3.as_slice());
        let b4 = le_bytes_of(canonical_bits_of(quote.ask_vol), 8);
        hasher.write(b4.as_slice());
        let secs: i64 = quote.timestamp.timestamp_secs();
        let b5 = le_bytes_of(secs as u64, 8);
        hasher.write(b5.as_slice());
        let nanos: u32 = quote.timestamp.subsec_nanos();
        let b6 = le_bytes_of(nanos as u64, 4);
        hasher.write(b6.as_slice());
        proof {
            let h = hasher@;
            let q = quote_hash_input(*quote);
            assert(h.len() == 8);
            assert(h[0] == q[0] && h[1] == q[1] && h[2] == q[2]);
            assert(h[6] == q[6] && h[7] == q[7]);
            assert(h =~= q);
        }
        hasher.finish()
    }

    /// Counts the event and tells whether it is a duplicate. A quote is one
    /// exactly when its fingerprint is in the window; otherwise the
    /// fingerprint joins the window, the oldest leaving when it is full.
    /// A trade is never a duplicate, whatever `dedup_trades` says: every
    /// trade is a distinct market fact, as the type's own rules put it, so
    /// the flag is kept and reported but does not suppress trades.
    pub fn is_duplicate(&mut self, event: &MarketEvent) -> (r: bool)
        requires
            old(self).wf(),
            old(self).total_received_spec() < u64::MAX,
            old(self).dropped_quotes_spec() < u64::MAX,
        ensures
            final(self).wf(),
            final(self).capacity_spec() == old(self).capacity_spec(),
            final(self).dedup_trades_spec() == old(self).dedup_trades_spec(),
            final(self).total_received_spec() == old(self).total_received_spec() + 1,
            final(self).dropped_trades_spec() == old(self).dropped_trades_spec(),
            match *event {
                MarketEvent::Trade(_) => {
                    &&& !r
                    &&& final(self).window() == old(self).window()
                    &&& final(self).dropped_quotes_spec() == old(self).dropped_quotes_spec()
                },
                MarketEvent::Quote(q) => {
                    &&& (r, final(self).window()) == dedup_step(
                        old(self).window(),
                        old(self).capacity_spec() as nat,
                        quote_fingerprint(q),
                    )
                    &&& final(self).dropped_quotes_spec() == old(self).dropped_quotes_spec() + if r {
                        1int
                    } else {
                        0
                    }
                },
            },
            forall|evs: Seq<MarketEvent>|
                #[trigger] dedup_run(old(self).capacity_spec() as nat, evs) == old(self).state()
                    ==> dedup_run(old(self).capacity_spec() as nat, evs.push(*event))
                    == final(self).state(),
    {
        proof {
            assert forall|evs: Seq<MarketEvent>|
                #[trigger] dedup_run(old(self).capacity_spec() as nat, evs) == old(self).state()
                    implies evs.push(*event).drop_last() == evs && evs.push(*event).last() == *event by {
                lemma_run_push(old(self).capacity_spec() as nat, evs, *event);
            }
        }
        let r = self.is_duplicate_step(event);
        r
    }

    fn is_duplicate_step(&mut self, event: &MarketEvent) -> (r: bool)
        requires
            old(self).wf(),
            old(self).total_received_spec() < u64::MAX,
            old(self).dropped_quotes_spec() < u64::MAX,
        ensures
            final(self).wf(),
            final(self).capacity_spec() == old(self).capacity_spec(),
            final(self).dedup_trades_spec() == old(self).dedup_trades_spec(),
            final(self).total_received_spec() == old(self).total_received_spec() + 1,
            final(self).dropped_trades_spec() == old(self).dropped_trades_spec(),
            match *event {
                MarketEvent::Trade(_) => {
                    &&& !r
                    &&& final(self).window() == old(self).window()
                    &&& final(self).dropped_quotes_spec() == old(self).dropped_quotes_spec()
                },
                MarketEvent::Quote(q) => {
                    &&& (r, final(self).window()) == dedup_step(
                        old(self).window(),
                        old(self).capacity_spec() as nat,
                        quote_fingerprint(q),
                    )
                    &&& final(self).dropped_quotes_spec() == old(self).dropped_quotes_spec() + if r {
                        1int
                    } else {
                        0
                    }
                },
            },
    {
        self.total_received = self.total_received + 1;
        match event {
            MarketEvent::Quote(quote) => {
                let fp = Self::fingerprint(quote);
                if self.seen_quotes.contains(&fp) {
                    self.dropped_quotes = self.dropped_quotes + 1;
                    true
                } else {
                    let ghost w1 = self.order_quotes@.push(fp);
                    self.seen_quotes.insert(fp);
                    self.order_quotes.push_back(fp);
                    assert forall|v: u64| self.seen_quotes@.contains(v) <==> self.order_quotes@.contains(v) by {
                        if v != fp && self.order_quotes@.contains(v) {
                            let i = choose|i: int| 0 <= i < w1.len() && w1[i] == v;
                            assert(old(self).order_quotes@[i] == v);
                        }
                        if old(self).order_quotes@.contains(v) {
                            let i = choose|i: int| 0 <= i < old(self).order_quotes@.len() && old(self).order_quotes@[i] == v;
                            assert(w1[i] == v);
                        }
                        assert(w1[w1.len() - 1] == fp);
                    }
                    assert(w1.no_duplicates()) by {
                        assert forall|a: int, b: int| 0 <= a < b < w1.len() implies w1[a] != w1[b] by {
                            if b == w1.len() - 1 {
                                assert(old(self).order_quotes@.contains(w1[a]));
                            }
                        }
                    }
                    let ghost mut dropped: int = 0;
                    while self.order_quotes.len() > self.capacity
                        invariant
                            self.capacity >= 1,
                            self.capacity == old(self).capacity,
                            0 <= dropped <= w1.len(),
                            self.order_quotes@ == w1.skip(dropped),
                            w1.len() <= self.capacity + 1,
                            dropped > 0 ==> w1.len() - dropped == self.capacity,
                            w1.no_duplicates(),
                            forall|v: u64| self.seen_quotes@.contains(v) <==> self.order_quotes@.contains(v),
                            self.total_received == old(self).total_received + 1,
                            self.dropped_quotes == old(self).dropped_quotes,
                            self.dropped_trades == old(self).dropped_trades,
                            self.dedup_trades == old(self).dedup_trades,
                        decreases self.order_quotes@.len(),
                    {
                        let ghost before = self.order_quotes@;
                        match self.order_quotes.pop_front() {
                            Some(old_fp) => {
                                self.seen_quotes.remove(&old_fp);
                                proof {
                                    assert forall|v: u64| self.seen_quotes@.contains(v) <==> self.order_quotes@.contains(v) by {
                                        if self.order_quotes@.contains(v) {
                                            let i = choose|i: int| 0 <= i < self.order_quotes@.len() && self.order_quotes@[i] == v;
                                            assert(before[i + 1] == v);
                                            assert(before[0] == w1[dropped]);
                                            assert(w1[dropped + i + 1] == v);
                                        }
                                        if v != old_fp && before.contains(v) {
                                            let i = choose|i: int| 0 <= i < before.len() && before[i] == v;
                                            assert(i != 0);
                                            assert(self.order_quotes@[i - 1] == v);
                                        }
                                    }
                                    dropped = dropped + 1;
                                    assert(self.order_quotes@ =~= w1.skip(dropped));
                                }
                            },
                            None => {},
                        }
                    }
                    proof {
                        let w2 = self.order_quotes@;
                        assert(w2.no_duplicates()) by {
                            assert forall|a: int, b: int| 0 <= a < b < w2.len() implies w2[a] != w2[b] by {
                                assert(w2[a] == w1[a + dropped] && w2[b] == w1[b + dropped]);
                            }
                        }
                        if w1.len() > self.capacity {
                            assert(dropped == 1);
                        } else {
                            assert(dropped == 0);
                            assert(w2 =~= w1);
                        }
                    }
                    false
                }
            },
            MarketEvent::Trade(_) => false,
        }
    }

    /// Size limit of the window.
    pub fn capacity(&self) -> (r: usize)
        ensures
            r == self.capacity_spec(),
    {
        self.capacity
    }

    /// Whether trade de-duplication was asked for (trades are never
    /// suppressed either way).
    pub fn dedup_trades(&self) -> (r: bool)
        ensures
            r == self.dedup_trades_spec(),
    {
        self.dedup_trades
    }

    /// Events offered so far.
    pub fn total_received(&self) -> (r: u64)
        ensures
            r == self.total_received_spec(),
    {
        self.total_received
    }

    /// Quotes reported as duplicates so far.
    pub fn dropped_quotes(&self) -> (r: u64)
        ensures
            r == self.dropped_quotes_spec(),
    {
        self.dropped_quotes
    }

    /// Trades reported as duplicates so far (always zero).
    pub fn dropped_trades(&self) -> (r: u64)
        ensures
            r == self.dropped_trades_spec(),
    {
        self.dropped_trades
    }
}

/// A quote offered again right after it was offered is a duplicate,
/// whatever the window held before.
pub proof fn lemma_repeat_is_duplicate(w: Seq<u64>, cap: nat, fp: u64)
    requires
        cap >= 1,
    ensures
        dedup_step(dedup_step(w, cap, fp).1, cap, fp).0,
{
    let w2 = dedup_step(w, cap, fp).1;
    if !w.contains(fp) {
        assert(w2[w2.len() - 1] == fp);
    }
}

/// A full window that is offered a new fingerprint forgets exactly its
/// oldest one and appends the new one.
pub proof fn lemma_full_window_forgets_oldest(w: Seq<u64>, cap: nat, fp: u64)
    requires
        cap >= 1,
        w.len() == cap,
        w.no_duplicates(),
        !w.contains(fp),
    ensures
        ({
            let (dup, w2) = dedup_step(w, cap, fp);
            &&& !dup
            &&& w2 == w.skip(1).push(fp)
            &&& !w2.contains(w[0])
            &&& w2.contains(fp)
        }),
{
    let (dup, w2) = dedup_step(w, cap, fp);
    assert(w2 =~= w.skip(1).push(fp));
    assert(w2[w2.len() - 1] == fp);
    if w2.contains(w[0]) {
        let i = choose|i: int| 0 <= i < w2.len() && w2[i] == w[0];
        if i < w2.len() - 1 {
            assert(w2[i] == w[i + 1]);
        }
    }
}

/// The window never holds more fingerprints than the capacity, nor one
/// fingerprint twice, and the capacity is never zero.
pub proof fn lemma_window_bounded(d: &EventDeduplicator)
    requires
        d.wf(),
    ensures
        d.capacity_spec() >= 1,
        d.window().len() <= d.capacity_spec(),
        d.window().no_duplicates(),
{
}

/// Over any run of events offered to a fresh de-duplicator with window size
/// `cap`: every event is counted; no trade is ever reported; every quote is
/// either reported as a duplicate or stored; and the window is exactly the
/// last `cap` stored fingerprints, none twice.
pub proof fn lemma_dedup_run(cap: nat, evs: Seq<MarketEvent>)
    requires
        cap >= 1,
    ensures
        ({
            let (w, n, dq, dt) = dedup_run(cap, evs);
            let st = stored_fps(cap, evs);
            &&& n == evs.len()
            &&& dt == 0
            &&& dq + st.len() == quote_count(evs)
            &&& w == last_n(st, cap)
            &&& w.len() <= cap
            &&& w.no_duplicates()
        }),
    decreases evs.len(),
{
    if evs.len() > 0 {
        let prev = evs.drop_last();
        lemma_dedup_run(cap, prev);
        let (w, n, dq, dt) = dedup_run(cap, prev);
        let st = stored_fps(cap, prev);
        match evs.last() {
            MarketEvent::Trade(_) => {},
            MarketEvent::Quote(q) => {
                let fp = quote_fingerprint(q);
                if !w.contains(fp) {
                    let w1 = w.push(fp);
                    let st2 = st.push(fp);
                    assert(w1.no_duplicates()) by {
                        assert forall|a: int, b: int| 0 <= a < b < w1.len() implies w1[a] != w1[b] by {
                            if b == w1.len() - 1 {
                                assert(w.contains(w1[a]));
                            }
                        }
                    }
                    if w1.len() > cap {
                        assert(st.len() >= cap);
                        assert(w1.skip(w1.len() - cap) =~= st2.skip(st2.len() - cap));
                        let w2 = w1.skip(w1.len() - cap);
                        assert(w2.no_duplicates()) by {
                            assert forall|a: int, b: int| 0 <= a < b < w2.len() implies w2[a] != w2[b] by {
                                assert(w2[a] == w1[a + 1] && w2[b] == w1[b + 1]);
                            }
                        }
                    } else {
                        assert(st.len() < cap);
                        assert(w1 =~= st2);
                    }
                }
            },
        }
    }
}

/// A quote is reported as a duplicate exactly when its fingerprint is among
/// the last `cap` fingerprints stored before it; a trade is never reported.
pub proof fn lemma_dedup_verdict(cap: nat, evs: Seq<MarketEvent>, e: MarketEvent)
    requires
        cap >= 1,
    ensures
        dedup_run(cap, evs.push(e)).2 == dedup_run(cap, evs).2 + if e matches MarketEvent::Quote(q)
            && last_n(stored_fps(cap, evs), cap).contains(quote_fingerprint(q)) {
            1nat
        } else {
            0
        },
{
    lemma_run_push(cap, evs, e);
    lemma_dedup_run(cap, evs);
}

/// Two quotes that differ at most in the sign of zero prices or volumes have
/// the same fingerprint, so the second is a duplicate of the first.
pub proof fn lemma_signed_zeros_fingerprint_alike(q1: Quote, q2: Quote)
    requires
        q1.symbol@ == q2.symbol@,
        q1.timestamp == q2.timestamp,
        canonical_bits(q1.bid_price) == canonical_bits(q2.bid_price),
        canonical_bits(q1.bid_vol) == canonical_bits(q2.bid_vol),
        canonical_bits(q1.ask_price) == canonical_bits(q2.ask_price),
        canonical_bits(q1.ask_vol) == canonical_bits(q2.ask_vol),
    ensures
        quote_fingerprint(q1) == quote_fingerprint(q2),
{
    assert(quote_hash_input(q1) =~= quote_hash_input(q2));
}

/// `256` to the power `n`.
pub open spec fn pow256(n: nat) -> nat
    decreases n,
{
    if n == 0 {
        1
    } else {
        256 * pow256((n - 1) as nat)
    }
}

/// Equal low-order bytes mean equal values modulo `256^n`.
proof fn lemma_le_bytes_injective(x: nat, y: nat, n: nat)
    requires
        le_bytes(x, n) == le_bytes(y, n),
    ensures
        pow256(n) > 0,
        x % pow256(n) == y % pow256(n),
    decreases n,
{
    if n == 0 {
        assert(x % 1 == 0 && y % 1 == 0) by (nonlinear_arith);
    } else {
        let m = (n - 1) as nat;
        let a = le_bytes(x, n);
        let b = le_bytes(y, n);
        assert(a[0] == b[0]);
        assert(a[0] == (x % 256) as u8);
        assert(b[0] == (y % 256) as u8);
        assert(x % 256 == y % 256);
        assert(a.skip(1) =~= le_bytes(x / 256, m));
        assert(b.skip(1) =~= le_bytes(y / 256, m));
        lemma_le_bytes_injective(x / 256, y / 256, m);
        vstd::arithmetic::div_mod::lemma_breakdown(x as int, 256, pow256(m) as int);
        vstd::arithmetic::div_mod::lemma_breakdown(y as int, 256, pow256(m) as int);
    }
}

proof fn lemma_pow256_values()
    ensures
        pow256(4) == 0x1_0000_0000,
        pow256(8) == 0x1_0000_0000_0000_0000,
{
    assert(pow256(0) == 1);
    assert(pow256(1) == 256);
    assert(pow256(2) == 0x1_0000);
    assert(pow256(3) == 0x100_0000);
    assert(pow256(4) == 0x1_0000_0000);
    assert(pow256(5) == 0x100_0000_0000);
    assert(pow256(6) == 0x1_0000_0000_0000);
    assert(pow256(7) == 0x100_0000_0000_0000);
    assert(pow256(8) == 0x1_0000_0000_0000_0000);
}

/// Eight equal low-order bytes of two 64-bit values mean equal values.
proof fn lemma_le_bytes_u64(x: u64, y: u64)
    requires
        le_bytes(x as nat, 8) == le_bytes(y as nat, 8),
    ensures
        x == y,
{
    lemma_le_bytes_injective(x as nat, y as nat, 8);
    lemma_pow256_values();
    vstd::arithmetic::div_mod::lemma_small_mod(x as nat, pow256(8));
    vstd::arithmetic::div_mod::lemma_small_mod(y as nat, pow256(8));
}

/// Two prices or volumes a fingerprint cannot tell apart: the same bits, or
/// both a zero.
pub open spec fn same_value(a: Ieee64, b: Ieee64) -> bool {
    a.bits == b.bits || (a.is_zero_spec() && b.is_zero_spec())
}

proof fn lemma_canonical_bits_same(a: Ieee64, b: Ieee64)
    requires
        le_bytes(canonical_bits(a) as nat, 8) == le_bytes(canonical_bits(b) as nat, 8),
    ensures
        same_value(a, b),
{
    lemma_le_bytes_u64(canonical_bits(a), canonical_bits(b));
}

/// The fingerprint is fed every field of a quote: two quotes whose hash
/// input is the same have the same ticker, the same bid and ask prices and
/// volumes (up to the sign of a zero) and the same timestamp. So any two
/// quotes that differ in price, volume, ticker or time are hashed from
/// different input.
pub proof fn lemma_hash_input_covers_every_field(q1: Quote, q2: Quote)
    requires
        quote_hash_input(q1) == quote_hash_input(q2),
    ensures
        q1.symbol@ == q2.symbol@,
        same_value(q1.bid_price, q2.bid_price),
        same_value(q1.bid_vol, q2.bid_vol),
        same_value(q1.ask_price, q2.ask_price),
        same_value(q1.ask_vol, q2.ask_vol),
        q1.timestamp.secs_spec() == q2.timestamp.secs_spec(),
        q1.timestamp.nanos_spec() == q2.timestamp.nanos_spec(),
{
    let h1 = quote_hash_input(q1);
    let h2 = quote_hash_input(q2);
    assert(h1[0] == h2[0]);
    vstd::utf8::encode_utf8_decode_utf8(q1.symbol@);
    vstd::utf8::encode_utf8_decode_utf8(q2.symbol@);
    assert(h1[2] == h2[2]);
    lemma_canonical_bits_same(q1.bid_price, q2.bid_price);
    assert(h1[3] == h2[3]);
    lemma_canonical_bits_same(q1.bid_vol, q2.bid_vol);
    assert(h1[4] == h2[4]);
    lemma_canonical_bits_same(q1.ask_price, q2.ask_price);
    assert(h1[5] == h2[5]);
    lemma_canonical_bits_same(q1.ask_vol, q2.ask_vol);
    assert(h1[6] == h2[6]);
    let s1 = q1.timestamp.secs_spec();
    let s2 = q2.timestamp.secs_spec();
    lemma_le_bytes_u64(s1 as u64, s2 as u64);
    assert(s1 as u64 == s2 as u64 ==> s1 == s2) by (bit_vector);
    assert(h1[7] == h2[7]);
    let n1 = q1.timestamp.nanos_spec();
    let n2 = q2.timestamp.nanos_spec();
    lemma_le_bytes_injective(n1 as nat, n2 as nat, 4);
    lemma_pow256_values();
    vstd::arithmetic::div_mod::lemma_small_mod(n1 as nat, pow256(4));
    vstd::arithmetic::div_mod::lemma_small_mod(n2 as nat, pow256(4));
}

} // verus!
