//! Re-sequencing of out-of-order market events behind a watermark.
//!
//! Events are buffered in timestamp order. The watermark trails the latest
//! timestamp seen by the allowed lateness; events at or before it are
//! released, events that arrive before it are dropped as late, and when the
//! buffer holds more than its capacity the earliest timestamps are released
//! early (raising the watermark to them).

use vstd::prelude::*;
use vstd::multiset::Multiset;
use crate::market::MarketEvent;
use crate::timestamp::{floor_secs, span_fits_delta, valid_epoch_secs, MarketTimestamp, TimeSpan};

verus! {

/// The event re-sequencer.
pub struct EventSequencer {
    pub max_capacity: usize,
    pub allowed_lateness: TimeSpan,
    /// Latest event timestamp accepted so far.
    pub max_seen_ts: Option<MarketTimestamp>,
    /// Events at or before this instant are released; earlier arrivals are late.
    pub watermark: Option<MarketTimestamp>,
    /// Buffered events in timestamp order (equal timestamps in arrival order).
    pub buffers: Vec<MarketEvent>,
    /// Number of buffered events.
    pub current_size: usize,
}

/// Outcome of offering an event to the sequencer.
#[derive(Debug, Clone, PartialEq, Eq)]
pub enum PushResult {
    Buffered,
    DroppedLate { event_ts: MarketTimestamp, watermark: MarketTimestamp },
}

/// Position of an event on the time line.
pub open spec fn ev_time(e: MarketEvent) -> int {
    e.timestamp_spec().instant()
}

pub open spec fn opt_instant(o: Option<MarketTimestamp>) -> Option<int> {
    match o {
        Some(t) => Some(t.instant()),
        None => None,
    }
}

/// Events in non-decreasing timestamp order.
pub open spec fn sorted_by_time(s: Seq<MarketEvent>) -> bool {
    forall|i: int, j: int| 0 <= i <= j < s.len() ==> ev_time(#[trigger] s[i]) <= ev_time(#[trigger] s[j])
}

/// Number of events at or before instant `x`.
pub open spec fn count_at_or_before(s: Seq<MarketEvent>, x: int) -> int
    decreases s.len(),
{
    if s.len() == 0 {
        0
    } else {
        count_at_or_before(s.drop_last(), x) + if ev_time(s.last()) <= x {
            1int
        } else {
            0
        }
    }
}

/// The later of two optional marks, `None` counting as earliest.
pub open spec fn later_mark(a: Option<int>, b: Option<int>) -> Option<int> {
    match (a, b) {
        (Some(x), Some(y)) => Some(if x >= y { x } else { y }),
        (Some(x), None) => Some(x),
        (None, _) => b,
    }
}

/// The watermark a new latest timestamp `t` implies: `t` less the allowed
/// lateness, when that is still a valid timestamp.
pub open spec fn natural_mark(t: int, lateness: TimeSpan) -> Option<int> {
    let m = t - lateness.total_nanos();
    if span_fits_delta(lateness) && valid_epoch_secs(floor_secs(m)) {
        Some(m)
    } else {
        None
    }
}

/// Sequencer state: watermark, latest timestamp seen, buffered events.
pub type SeqState = (Option<int>, Option<int>, Seq<MarketEvent>);

/// Offering event `e`: whether it is accepted, and the state after.
pub open spec fn push_step(st: SeqState, lateness: TimeSpan, e: MarketEvent) -> (bool, SeqState) {
    let (wm, ms, buf) = st;
    let t = ev_time(e);
    if wm is Some && t < wm->0 {
        (false, st)
    } else {
        let (wm1, ms1) = if ms is None || t > ms->0 {
            (later_mark(wm, natural_mark(t, lateness)), Some(t))
        } else {
            (wm, ms)
        };
        (true, (wm1, ms1, buf.insert(count_at_or_before(buf, t), e)))
    }
}

/// How many leading events the watermark releases.
pub open spec fn ready_count(wm: Option<int>, buf: Seq<MarketEvent>) -> int {
    match wm {
        Some(w) => count_at_or_before(buf, w),
        None => 0,
    }
}

/// End of the run of events sharing the timestamp of `buf[k]`, scanning from `j`.
pub open spec fn run_end(buf: Seq<MarketEvent>, k: int, j: int) -> int
    decreases buf.len() - j,
{
    if 0 <= k < buf.len() && k < j < buf.len() && ev_time(buf[j]) == ev_time(buf[k]) {
        run_end(buf, k, j + 1)
    } else {
        j
    }
}

/// Where forced release stops: from `k`, whole runs of equal timestamps are
/// released until at most `cap` events remain.
pub open spec fn evict_end(buf: Seq<MarketEvent>, k: int, cap: int) -> int
    decreases buf.len() - k,
{
    if k < 0 || k >= buf.len() || buf.len() - k <= cap {
        k
    } else {
        proof {
            lemma_run_end_ge(buf, k, k + 1);
        }
        evict_end(buf, run_end(buf, k, k + 1), cap)
    }
}

/// Offering event `e` and releasing what is ready: whether it was accepted,
/// the state after, and the events released in order.
pub open spec fn ingest_step(st: SeqState, lateness: TimeSpan, cap: int, e: MarketEvent) -> (
    bool,
    SeqState,
    Seq<MarketEvent>,
) {
    let (acc, st1) = push_step(st, lateness, e);
    if !acc {
        (false, st, seq![])
    } else {
        let (wm1, ms1, b1) = st1;
        let k1 = ready_count(wm1, b1);
        let k2 = evict_end(b1, k1, cap);
        let wm2 = if k2 > k1 {
            later_mark(wm1, Some(ev_time(b1[k2 - 1])))
        } else {
            wm1
        };
        (true, (wm2, ms1, b1.skip(k2)), b1.take(k2))
    }
}

pub proof fn lemma_run_end_ge(buf: Seq<MarketEvent>, k: int, j: int)
    requires
        j <= buf.len(),
    ensures
        j <= run_end(buf, k, j) <= buf.len(),
    decreases buf.len() - j,
{
    if 0 <= k < buf.len() && k < j < buf.len() && ev_time(buf[j]) == ev_time(buf[k]) {
        lemma_run_end_ge(buf, k, j + 1);
    }
}

proof fn lemma_count_split(s: Seq<MarketEvent>, x: int, i: int)
    requires
        0 <= i <= s.len(),
        forall|j: int| 0 <= j < i ==> ev_time(#[trigger] s[j]) <= x,
        forall|j: int| i <= j < s.len() ==> ev_time(#[trigger] s[j]) > x,
    ensures
        count_at_or_before(s, x) == i,
    decreases s.len(),
{
    if s.len() > 0 {
        let t = s.drop_last();
        if i == s.len() {
            lemma_count_split(t, x, i - 1);
        } else {
            lemma_count_split(t, x, i);
        }
    }
}

proof fn lemma_sorted_insert(s: Seq<MarketEvent>, i: int, e: MarketEvent)
    requires
        sorted_by_time(s),
        0 <= i <= s.len(),
        forall|j: int| 0 <= j < i ==> ev_time(#[trigger] s[j]) <= ev_time(e),
        forall|j: int| i <= j < s.len() ==> ev_time(#[trigger] s[j]) > ev_time(e),
    ensures
        sorted_by_time(s.insert(i, e)),
{
    let r = s.insert(i, e);
    assert forall|a: int, b: int| 0 <= a <= b < r.len() implies ev_time(#[trigger] r[a]) <= ev_time(
        #[trigger] r[b],
    ) by {
        if a < i && b < i {
        } else if a < i && b == i {
        } else if a < i {
            assert(r[b] == s[b - 1]);
        } else if a == i && b == i {
        } else if a == i {
            assert(r[b] == s[b - 1]);
        } else {
            assert(r[a] == s[a - 1]);
            assert(r[b] == s[b - 1]);
        }
    }
}

proof fn lemma_run_end_props(buf: Seq<MarketEvent>, k: int, j: int)
    requires
        0 <= k < j <= buf.len(),
        forall|m: int| k <= m < j ==> ev_time(#[trigger] buf[m]) == ev_time(buf[k]),
    ensures
        j <= run_end(buf, k, j) <= buf.len(),
        forall|m: int| k <= m < run_end(buf, k, j) ==> ev_time(#[trigger] buf[m]) == ev_time(buf[k]),
        run_end(buf, k, j) < buf.len() ==> ev_time(buf[run_end(buf, k, j)]) != ev_time(buf[k]),
    decreases buf.len() - j,
{
    if j < buf.len() && ev_time(buf[j]) == ev_time(buf[k]) {
        lemma_run_end_props(buf, k, j + 1);
    }
}


/// Every buffered event lies strictly after the watermark, and the buffer is
/// in timestamp order.
pub open spec fn settled(st: SeqState) -> bool {
    &&& sorted_by_time(st.2)
    &&& st.0 matches Some(w) ==> forall|j: int| 0 <= j < st.2.len() ==> ev_time(#[trigger] st.2[j]) > w
}

proof fn lemma_count_sorted(s: Seq<MarketEvent>, x: int)
    requires
        sorted_by_time(s),
    ensures
        0 <= count_at_or_before(s, x) <= s.len(),
        forall|j: int| 0 <= j < count_at_or_before(s, x) ==> ev_time(#[trigger] s[j]) <= x,
        forall|j: int| count_at_or_before(s, x) <= j < s.len() ==> ev_time(#[trigger] s[j]) > x,
    decreases s.len(),
{
    if s.len() > 0 {
        let t = s.drop_last();
        assert(sorted_by_time(t)) by {
            assert forall|a: int, b: int| 0 <= a <= b < t.len() implies ev_time(#[trigger] t[a]) <= ev_time(
                #[trigger] t[b],
            ) by {
                assert(t[a] == s[a] && t[b] == s[b]);
            }
        }
        lemma_count_sorted(t, x);
        let c = count_at_or_before(t, x);
        let n = s.len() - 1;
        if ev_time(s[n]) <= x {
            if c < t.len() {
                assert(t[c] == s[c]);
                assert(ev_time(s[c]) <= ev_time(s[n]));
            }
            assert forall|j: int| 0 <= j < s.len() implies ev_time(#[trigger] s[j]) <= x by {
                assert(ev_time(s[j]) <= ev_time(s[n]));
            }
        } else {
            assert forall|j: int| 0 <= j < c implies ev_time(#[trigger] s[j]) <= x by {
                assert(t[j] == s[j]);
            }
            assert forall|j: int| c <= j < s.len() implies ev_time(#[trigger] s[j]) > x by {
                if j < n {
                    assert(t[j] == s[j]);
                }
            }
        }
    }
}

proof fn lemma_evict_end_props(b: Seq<MarketEvent>, k: int, cap: int)
    requires
        0 <= k <= b.len(),
        cap >= 0,
    ensures
        k <= evict_end(b, k, cap) <= b.len(),
        b.len() - evict_end(b, k, cap) <= cap,
        evict_end(b, k, cap) > k ==> (evict_end(b, k, cap) == b.len() || ev_time(b[evict_end(b, k, cap)])
            != ev_time(b[evict_end(b, k, cap) - 1])),
    decreases b.len() - k,
{
    if k < b.len() && b.len() - k > cap {
        lemma_run_end_props(b, k, k + 1);
        let r = run_end(b, k, k + 1);
        lemma_evict_end_props(b, r, cap);
        assert(ev_time(b[r - 1]) == ev_time(b[k]));
    }
}

proof fn lemma_sorted_take_skip(s: Seq<MarketEvent>, k: int)
    requires
        sorted_by_time(s),
        0 <= k <= s.len(),
    ensures
        sorted_by_time(s.take(k)),
        sorted_by_time(s.skip(k)),
{
    let a = s.take(k);
    let b = s.skip(k);
    assert forall|i: int, j: int| 0 <= i <= j < a.len() implies ev_time(#[trigger] a[i]) <= ev_time(
        #[trigger] a[j],
    ) by {
        assert(a[i] == s[i] && a[j] == s[j]);
    }
    assert forall|i: int, j: int| 0 <= i <= j < b.len() implies ev_time(#[trigger] b[i]) <= ev_time(
        #[trigger] b[j],
    ) by {
        assert(b[i] == s[i + k] && b[j] == s[j + k]);
    }
}

proof fn lemma_push_step_props(st: SeqState, lateness: TimeSpan, e: MarketEvent)
    requires
        sorted_by_time(st.2),
    ensures
        ({
            let (acc, st1) = push_step(st, lateness, e);
            &&& acc == !(st.0 matches Some(w) && ev_time(e) < w)
            &&& acc ==> sorted_by_time(st1.2)
            &&& acc ==> st1.2.len() == st.2.len() + 1
            &&& acc ==> forall|j: int| 0 <= j < st1.2.len() ==> (#[trigger] st1.2[j] == e || st.2.contains(st1.2[j]))
            &&& !acc ==> st1 == st
            &&& st.0 matches Some(w0) ==> (st1.0 matches Some(w1) && w0 <= w1)
        }),
{
    let (acc, st1) = push_step(st, lateness, e);
    if acc {
        let t = ev_time(e);
        let buf = st.2;
        lemma_count_sorted(buf, t);
        let c = count_at_or_before(buf, t);
        lemma_sorted_insert(buf, c, e);
        assert forall|j: int| 0 <= j < st1.2.len() implies (#[trigger] st1.2[j] == e || buf.contains(st1.2[j])) by {
            if j < c {
                assert(st1.2[j] == buf[j]);
            } else if j > c {
                assert(st1.2[j] == buf[j - 1]);
            }
        }
    }
}

/// One ingest keeps the watermark from moving back, drops exactly the
/// events before it, releases events in timestamp order and none after the
/// new watermark, and, once an event is accepted, leaves at most `cap`
/// events buffered, all strictly after the new watermark; the released and
/// the buffered events are then exactly the events buffered before and the
/// new one, none lost and none repeated.
pub proof fn lemma_ingest_step_props(st: SeqState, lateness: TimeSpan, cap: int, e: MarketEvent)
    requires
        sorted_by_time(st.2),
        cap >= 0,
    ensures
        ({
            let (acc, st2, out) = ingest_step(st, lateness, cap, e);
            &&& acc == !(st.0 matches Some(w) && ev_time(e) < w)
            &&& !acc ==> st2 == st && out.len() == 0
            &&& st.0 matches Some(w0) ==> (st2.0 matches Some(w2) && w0 <= w2)
            &&& sorted_by_time(out)
            &&& sorted_by_time(st2.2)
            &&& out.len() > 0 ==> st2.0 is Some
            &&& st2.0 matches Some(w) ==> forall|j: int| 0 <= j < out.len() ==> ev_time(#[trigger] out[j]) <= w
            &&& acc ==> settled(st2)
            &&& acc ==> st2.2.len() <= cap
            &&& acc ==> out.len() + st2.2.len() == st.2.len() + 1
            &&& acc ==> (out + st2.2).to_multiset() == st.2.to_multiset().insert(e)
        }),
{
    lemma_push_step_props(st, lateness, e);
    let (acc, st1) = push_step(st, lateness, e);
    if acc {
        let (wm1, ms1, b1) = st1;
        let k1 = ready_count(wm1, b1);
        if wm1 is Some {
            lemma_count_sorted(b1, wm1->0);
        }
        lemma_evict_end_props(b1, k1, cap);
        let k2 = evict_end(b1, k1, cap);
        lemma_sorted_take_skip(b1, k2);
        let (_, st2, out) = ingest_step(st, lateness, cap, e);
        lemma_count_sorted(st.2, ev_time(e));
        assert(out + st2.2 =~= b1);
        vstd::seq_lib::to_multiset_insert(st.2, count_at_or_before(st.2, ev_time(e)), e);
        let wm2 = st2.0;
        if k2 > k1 {
            let tk = ev_time(b1[k2 - 1]);
            assert forall|j: int| 0 <= j < out.len() implies ev_time(#[trigger] out[j]) <= wm2->0 by {
                assert(out[j] == b1[j]);
                assert(ev_time(b1[j]) <= tk);
            }
            assert forall|j: int| 0 <= j < st2.2.len() implies ev_time(#[trigger] st2.2[j]) > wm2->0 by {
                assert(st2.2[j] == b1[j + k2]);
                assert(ev_time(b1[k2]) >= tk);
                assert(ev_time(b1[j + k2]) >= ev_time(b1[k2]));
            }
        } else if wm1 is Some {
            assert forall|j: int| 0 <= j < out.len() implies ev_time(#[trigger] out[j]) <= wm2->0 by {
                assert(out[j] == b1[j]);
            }
            assert forall|j: int| 0 <= j < st2.2.len() implies ev_time(#[trigger] st2.2[j]) > wm2->0 by {
                assert(st2.2[j] == b1[j + k2]);
            }
        }
    }
}

/// Released events form one stream in timestamp order: nothing a later
/// ingest releases is earlier than anything an earlier ingest released.
pub proof fn lemma_ingest_stream_order(
    st: SeqState,
    lateness: TimeSpan,
    cap: int,
    e1: MarketEvent,
    e2: MarketEvent,
)
    requires
        sorted_by_time(st.2),
        cap >= 0,
    ensures
        ({
            let (_, st1, out1) = ingest_step(st, lateness, cap, e1);
            let (_, _, out2) = ingest_step(st1, lateness, cap, e2);
            forall|a: int, b: int|
                0 <= a < out1.len() && 0 <= b < out2.len() ==> ev_time(#[trigger] out1[a]) <= ev_time(
                    #[trigger] out2[b],
                )
        }),
{
    lemma_ingest_step_props(st, lateness, cap, e1);
    let (acc1, st1, out1) = ingest_step(st, lateness, cap, e1);
    lemma_ingest_step_props(st1, lateness, cap, e2);
    let (acc2, st2, out2) = ingest_step(st1, lateness, cap, e2);
    if out1.len() > 0 && acc2 {
        let w = st1.0->0;
        lemma_push_step_props(st1, lateness, e2);
        let (_, sp) = push_step(st1, lateness, e2);
        let b1 = sp.2;
        assert forall|j: int| 0 <= j < b1.len() implies ev_time(#[trigger] b1[j]) >= w by {
            if b1[j] != e2 {
                let i = choose|i: int| 0 <= i < st1.2.len() && st1.2[i] == b1[j];
                assert(ev_time(st1.2[i]) > w);
            }
        }
        let k1 = ready_count(sp.0, b1);
        if sp.0 is Some {
            lemma_count_sorted(b1, sp.0->0);
        }
        lemma_evict_end_props(b1, k1, cap);
        assert forall|a: int, b: int|
            0 <= a < out1.len() && 0 <= b < out2.len() implies ev_time(#[trigger] out1[a]) <= ev_time(
                #[trigger] out2[b],
            ) by {
            assert(out2[b] == b1[b]);
            assert(ev_time(out1[a]) <= w);
        }
    }
}

/// One more ingest after a run: the state it leaves, the released events
/// appended, and the event appended to the accepted ones when it is accepted.
pub open spec fn ingest_extend(
    run: (SeqState, Seq<MarketEvent>, Seq<MarketEvent>),
    lateness: TimeSpan,
    cap: int,
    e: MarketEvent,
) -> (SeqState, Seq<MarketEvent>, Seq<MarketEvent>) {
    let (st, out, acc) = run;
    let (a, st2, o) = ingest_step(st, lateness, cap, e);
    (st2, out + o, if a {
        acc.push(e)
    } else {
        acc
    })
}

/// Ingesting `evs` in order from state `st`: the state reached, every
/// released event in release order, and the events that were accepted.
pub open spec fn ingest_run(st: SeqState, lateness: TimeSpan, cap: int, evs: Seq<MarketEvent>) -> (
    SeqState,
    Seq<MarketEvent>,
    Seq<MarketEvent>,
)
    decreases evs.len(),
{
    if evs.len() == 0 {
        (st, seq![], seq![])
    } else {
        ingest_extend(ingest_run(st, lateness, cap, evs.drop_last()), lateness, cap, evs.last())
    }
}

proof fn lemma_ingest_run_extend(lateness: TimeSpan, cap: int, e: MarketEvent)
    ensures
        forall|st0: SeqState, evs: Seq<MarketEvent>|
            #[trigger] ingest_run(st0, lateness, cap, evs.push(e)) == ingest_extend(
                ingest_run(st0, lateness, cap, evs),
                lateness,
                cap,
                e,
            ),
{
    assert forall|st0: SeqState, evs: Seq<MarketEvent>|
        #[trigger] ingest_run(st0, lateness, cap, evs.push(e)) == ingest_extend(
            ingest_run(st0, lateness, cap, evs),
            lateness,
            cap,
            e,
        ) by {
        assert(evs.push(e).drop_last() =~= evs);
    }
}

/// What an accepted ingest releases is never before the watermark it found.
proof fn lemma_step_after_mark(st: SeqState, lateness: TimeSpan, cap: int, e: MarketEvent)
    requires
        settled(st),
        st.0 is Some,
        cap >= 0,
    ensures
        ({
            let (_, _, out) = ingest_step(st, lateness, cap, e);
            forall|j: int| 0 <= j < out.len() ==> ev_time(#[trigger] out[j]) >= st.0->0
        }),
{
    let (acc, st2, out) = ingest_step(st, lateness, cap, e);
    if acc {
        let w = st.0->0;
        lemma_push_step_props(st, lateness, e);
        let (_, sp) = push_step(st, lateness, e);
        let b1 = sp.2;
        assert forall|j: int| 0 <= j < b1.len() implies ev_time(#[trigger] b1[j]) >= w by {
            if b1[j] != e {
                let i = choose|i: int| 0 <= i < st.2.len() && st.2[i] == b1[j];
                assert(ev_time(st.2[i]) > w);
            }
        }
        let k1 = ready_count(sp.0, b1);
        if sp.0 is Some {
            lemma_count_sorted(b1, sp.0->0);
        }
        lemma_evict_end_props(b1, k1, cap);
        assert forall|j: int| 0 <= j < out.len() implies ev_time(#[trigger] out[j]) >= w by {
            assert(out[j] == b1[j]);
        }
    }
}

/// Over any run of ingests from a settled state holding at most `cap`
/// events: the released events form one stream in timestamp order, none
/// after the watermark reached; at most `cap` events stay buffered, all
/// after that watermark and in timestamp order; and the released and the
/// buffered events are exactly the events buffered at the start and those
/// accepted, none lost and none repeated.
pub proof fn lemma_ingest_run(st: SeqState, lateness: TimeSpan, cap: int, evs: Seq<MarketEvent>)
    requires
        settled(st),
        st.2.len() <= cap,
    ensures
        ({
            let (st2, out, acc) = ingest_run(st, lateness, cap, evs);
            &&& sorted_by_time(out)
            &&& settled(st2)
            &&& st2.2.len() <= cap
            &&& out.len() > 0 ==> st2.0 is Some
            &&& st2.0 matches Some(w) ==> forall|j: int| 0 <= j < out.len() ==> ev_time(#[trigger] out[j]) <= w
            &&& (out + st2.2).to_multiset() == st.2.to_multiset().add(acc.to_multiset())
        }),
    decreases evs.len(),
{
    broadcast use {
        vstd::seq_lib::lemma_multiset_commutative,
        vstd::seq_lib::group_to_multiset_ensures,
        vstd::multiset::group_multiset_axioms,
    };

    if evs.len() == 0 {
        assert(Seq::<MarketEvent>::empty() + st.2 =~= st.2);
        assert(Seq::<MarketEvent>::empty().to_multiset() =~= Multiset::empty()) by {
            assert(Seq::<MarketEvent>::empty().to_multiset().len() == 0);
        }
        assert(st.2.to_multiset().add(Multiset::empty()) =~= st.2.to_multiset());
    } else {
        let e = evs.last();
        lemma_ingest_run(st, lateness, cap, evs.drop_last());
        let (st1, out1, acc1) = ingest_run(st, lateness, cap, evs.drop_last());
        lemma_ingest_step_props(st1, lateness, cap, e);
        let (a, st2, o) = ingest_step(st1, lateness, cap, e);
        let out = out1 + o;
        if a {
            if st1.0 is Some {
                lemma_step_after_mark(st1, lateness, cap, e);
            }
            assert(sorted_by_time(out)) by {
                assert forall|i: int, j: int| 0 <= i <= j < out.len() implies ev_time(
                    #[trigger] out[i],
                ) <= ev_time(#[trigger] out[j]) by {
                    if j < out1.len() {
                        assert(out[i] == out1[i] && out[j] == out1[j]);
                    } else if i >= out1.len() {
                        assert(out[i] == o[i - out1.len()] && out[j] == o[j - out1.len()]);
                    } else {
                        assert(out[i] == out1[i] && out[j] == o[j - out1.len()]);
                        assert(ev_time(out1[i]) <= st1.0->0);
                        assert(ev_time(o[j - out1.len()]) >= st1.0->0);
                    }
                }
            }
            assert forall|j: int| st2.0 is Some && 0 <= j < out.len() implies ev_time(#[trigger] out[j])
                <= st2.0->0 by {
                if j < out1.len() {
                    assert(out[j] == out1[j]);
                } else {
                    assert(out[j] == o[j - out1.len()]);
                }
            }
            assert(out + st2.2 =~= out1 + (o + st2.2));
            assert((out1 + (o + st2.2)).to_multiset() =~= out1.to_multiset().add(
                st1.2.to_multiset().insert(e),
            ));
            assert((out1 + st1.2).to_multiset() =~= out1.to_multiset().add(st1.2.to_multiset()));
            assert(acc1.push(e).to_multiset() =~= acc1.to_multiset().insert(e));
            let m0 = st.2.to_multiset();
            let mo = out1.to_multiset();
            let mb = st1.2.to_multiset();
            let ma = acc1.to_multiset();
            assert(mo.add(mb) =~= m0.add(ma));
            assert(mo.add(mb.insert(e)) =~= m0.add(ma.insert(e))) by {
                assert forall|x: MarketEvent| #[trigger] mo.add(mb.insert(e)).count(x) == m0.add(
                    ma.insert(e),
                ).count(x) by {
                    assert(mo.add(mb).count(x) == m0.add(ma).count(x));
                }
            }
        } else {
            assert(o =~= Seq::<MarketEvent>::empty());
            assert(out =~= out1);
        }
    }
}

impl EventSequencer {
    /// Consistent bookkeeping: the size matches the buffer, which is in
    /// timestamp order.
    pub open spec fn wf(&self) -> bool {
        self.current_size == self.buffers@.len() && sorted_by_time(self.buffers@)
    }

    pub open spec fn state(&self) -> SeqState {
        (opt_instant(self.watermark), opt_instant(self.max_seen_ts), self.buffers@)
    }

    pub fn new(allowed_lateness: TimeSpan, max_capacity: usize) -> (r: EventSequencer)
        ensures
            r.wf(),
            r.max_capacity == max_capacity,
            r.allowed_lateness == allowed_lateness,
            r.max_seen_ts is None,
            r.watermark is None,
            r.buffers@.len() == 0,
            r.state() == (None::<int>, None::<int>, Seq::<MarketEvent>::empty()),
    {
        EventSequencer {
            max_capacity,
            allowed_lateness,
            max_seen_ts: None,
            watermark: None,
            buffers: Vec::new(),
            current_size: 0,
        }
    }

    /// Offers an event: dropped when it lies before the watermark, otherwise
    /// buffered in timestamp order, raising the latest timestamp seen and the
    /// watermark it implies.
    pub fn push(&mut self, event: MarketEvent) -> (r: PushResult)
        requires
            old(self).wf(),
        ensures
            final(self).wf(),
            final(self).max_capacity == old(self).max_capacity,
            final(self).allowed_lateness == old(self).allowed_lateness,
            push_step(old(self).state(), old(self).allowed_lateness, event) == (
            r is Buffered, final(self).state()),
            r matches PushResult::DroppedLate { event_ts, watermark } ==> event_ts
                == event.timestamp_spec() && old(self).watermark == Some(watermark),
            r is DroppedLate ==> final(self).watermark == old(self).watermark && final(self).buffers@ == old(self).buffers@,
    {
        let event_ts = event.timestamp();
        if let Some(wt) = self.watermark {
            if event_ts.lt(&wt) {
                return PushResult::DroppedLate { event_ts, watermark: wt };
            }
        }
        let newer = match self.max_seen_ts {
            None => true,
            Some(m) => m.lt(&event_ts),
        };
        if newer {
            self.max_seen_ts = Some(event_ts);
            let natural = match event_ts.checked_sub_duration(self.allowed_lateness) {
                Ok(t) => Some(t),
                Err(_) => None,
            };
            self.watermark = later(self.watermark, natural);
        }
        let n = self.buffers.len();
        let mut i: usize = 0;
        while i < n && self.buffers[i].timestamp().le(&event_ts)
            invariant
                n == self.buffers@.len(),
                0 <= i <= n,
                event_ts == event.timestamp_spec(),
                forall|j: int| 0 <= j < i ==> ev_time(#[trigger] self.buffers@[j]) <= ev_time(event),
            decreases n - i,
        {
            i = i + 1;
        }
        proof {
            let s = self.buffers@;
            assert forall|j: int| i <= j < s.len() implies ev_time(#[trigger] s[j]) > ev_time(event) by {
                assert(ev_time(s[i as int]) > ev_time(event));
                assert(ev_time(s[i as int]) <= ev_time(s[j]));
            }
            lemma_count_split(s, ev_time(event), i as int);
            lemma_sorted_insert(s, i as int, event);
        }
        self.buffers.insert(i, event);
        self.current_size = self.buffers.len();
        PushResult::Buffered
    }

    /// Releases, in timestamp order, the buffered events at or before the
    /// watermark.
    pub fn flush_ready(&mut self) -> (r: Vec<MarketEvent>)
        requires
            old(self).wf(),
        ensures
            final(self).wf(),
            ({
                let k = ready_count(opt_instant(old(self).watermark), old(self).buffers@);
                &&& r@ == old(self).buffers@.take(k)
                &&& final(self).buffers@ == old(self).buffers@.skip(k)
            }),
            final(self).watermark == old(self).watermark,
            final(self).max_seen_ts == old(self).max_seen_ts,
            final(self).max_capacity == old(self).max_capacity,
            final(self).allowed_lateness == old(self).allowed_lateness,
            old(self).watermark matches Some(w) ==> (forall|j: int| 0 <= j < r@.len() ==> ev_time(
                #[trigger] r@[j],
            ) <= w.instant()) && (forall|j: int| 0 <= j < final(self).buffers@.len() ==> ev_time(
                #[trigger] final(self).buffers@[j],
            ) > w.instant()),
    {
        let wm = match self.watermark {
            None => {
                assert(old(self).buffers@.skip(0) =~= old(self).buffers@);
                assert(old(self).buffers@.take(0) =~= Seq::<MarketEvent>::empty());
                return Vec::new();
            },
            Some(w) => w,
        };
        let n = self.buffers.len();
        let mut i: usize = 0;
        while i < n && self.buffers[i].timestamp().le(&wm)
            invariant
                n == self.buffers@.len(),
                0 <= i <= n,
                forall|j: int| 0 <= j < i ==> ev_time(#[trigger] self.buffers@[j]) <= wm.instant(),
            decreases n - i,
        {
            i = i + 1;
        }
        proof {
            let s = self.buffers@;
            assert forall|j: int| i <= j < s.len() implies ev_time(#[trigger] s[j]) > wm.instant() by {
                assert(ev_time(s[i as int]) > wm.instant());
                assert(ev_time(s[i as int]) <= ev_time(s[j]));
            }
            lemma_count_split(s, wm.instant(), i as int);
        }
        let ghost s = self.buffers@;
        let rest = self.buffers.split_off(i);
        let mut ready = rest;
        std::mem::swap(&mut ready, &mut self.buffers);
        self.current_size = self.buffers.len();
        proof {
            assert(self.buffers@ =~= s.skip(i as int));
            assert forall|j: int| 0 <= j < self.buffers@.len() implies ev_time(
                #[trigger] self.buffers@[j],
            ) > wm.instant() by {
                assert(self.buffers@[j] == s[j + i]);
            }
        }
        ready
    }

    /// Offers an event and releases what becomes ready: first what the
    /// watermark covers, then, while more than `max_capacity` events remain
    /// buffered, every event of the earliest timestamp (raising the watermark
    /// to it).
    pub fn ingest(&mut self, event: MarketEvent) -> (r: (PushResult, Vec<MarketEvent>))
        requires
            old(self).wf(),
        ensures
            final(self).wf(),
            final(self).max_capacity == old(self).max_capacity,
            final(self).allowed_lateness == old(self).allowed_lateness,
            ({
                let (acc, st, out) = ingest_step(
                    old(self).state(),
                    old(self).allowed_lateness,
                    old(self).max_capacity as int,
                    event,
                );
                &&& acc == (r.0 is Buffered)
                &&& st == final(self).state()
                &&& out == r.1@
            }),
            r.0 matches PushResult::DroppedLate { event_ts, watermark } ==> event_ts
                == event.timestamp_spec() && old(self).watermark == Some(watermark),
            forall|st0: SeqState, evs: Seq<MarketEvent>|
                #[trigger] ingest_run(
                    st0,
                    old(self).allowed_lateness,
                    old(self).max_capacity as int,
                    evs,
                ).0 == old(self).state() ==> ingest_run(
                    st0,
                    old(self).allowed_lateness,
                    old(self).max_capacity as int,
                    evs.push(event),
                ) == (final(self).state(), ingest_run(
                    st0,
                    old(self).allowed_lateness,
                    old(self).max_capacity as int,
                    evs,
                ).1 + r.1@, if r.0 is Buffered {
                    ingest_run(st0, old(self).allowed_lateness, old(self).max_capacity as int, evs).2.push(
                        event,
                    )
                } else {
                    ingest_run(st0, old(self).allowed_lateness, old(self).max_capacity as int, evs).2
                }),
    {
        proof {
            lemma_ingest_run_extend(self.allowed_lateness, self.max_capacity as int, event);
        }
        let push_res = self.push(event);
        match push_res {
            PushResult::DroppedLate { .. } => {
                return (push_res, Vec::new());
            },
            PushResult::Buffered => {},
        }
        let ghost b1 = self.buffers@;
        let ghost wm1 = opt_instant(self.watermark);
        let ghost ms1 = self.max_seen_ts;
        let mut ready = self.flush_ready();
        let ghost k1 = ready_count(wm1, b1);
        proof {
            assert(ready@ == b1.take(k1));
            assert(0 <= k1 <= b1.len()) by {
                if wm1 is Some {
                    lemma_count_bounds(b1, wm1->0);
                }
            }
        }
        let ghost mut k: int = k1;
        while self.current_size > self.max_capacity
            invariant
                self.wf(),
                self.max_capacity == old(self).max_capacity,
                self.allowed_lateness == old(self).allowed_lateness,
                0 <= k1 <= k <= b1.len(),
                sorted_by_time(b1),
                self.buffers@ == b1.skip(k),
                ready@ == b1.take(k),
                evict_end(b1, k, self.max_capacity as int) == evict_end(b1, k1, self.max_capacity as int),
                opt_instant(self.watermark) == if k > k1 {
                    later_mark(wm1, Some(ev_time(b1[k - 1])))
                } else {
                    wm1
                },
                self.max_seen_ts == ms1,
            decreases self.buffers@.len(),
        {
            let n = self.buffers.len();
            let first_ts = self.buffers[0].timestamp();
            let mut j: usize = 1;
            while j < n && self.buffers[j].timestamp().same(&first_ts)
                invariant
                    n == self.buffers@.len(),
                    n > 0,
                    1 <= j <= n,
                    first_ts == self.buffers@[0].timestamp_spec(),
                    forall|m: int| 0 <= m < j ==> ev_time(#[trigger] self.buffers@[m]) == first_ts.instant(),
                decreases n - j,
            {
                j = j + 1;
            }
            proof {
                let s = self.buffers@;
                assert(s =~= b1.skip(k));
                assert forall|m: int| k <= m < k + j implies ev_time(#[trigger] b1[m]) == ev_time(b1[k]) by {
                    assert(b1[m] == s[m - k]);
                    assert(b1[k] == s[0]);
                }
                lemma_run_end_props(b1, k, k + 1);
                lemma_run_end_matches(b1, k, j as int);
                assert(b1.len() - k > self.max_capacity);
            }
            let ghost s = self.buffers@;
            let rest = self.buffers.split_off(j);
            let mut group = rest;
            std::mem::swap(&mut group, &mut self.buffers);
            self.watermark = later(self.watermark, Some(first_ts));
            ready.append(&mut group);
            self.current_size = self.buffers.len();
            proof {
                let k_old = k;
                k = k + j as int;
                assert(self.buffers@ =~= b1.skip(k));
                assert(ready@ =~= b1.take(k));
                assert(b1[k - 1] == s[j - 1]);
                assert(sorted_by_time(self.buffers@)) by {
                    assert forall|a: int, b: int| 0 <= a <= b < self.buffers@.len() implies ev_time(
                        #[trigger] self.buffers@[a],
                    ) <= ev_time(#[trigger] self.buffers@[b]) by {
                        assert(self.buffers@[a] == b1[a + k]);
                        assert(self.buffers@[b] == b1[b + k]);
                    }
                }
                if k_old > k1 {
                    assert(ev_time(b1[k_old - 1]) <= ev_time(b1[k - 1]));
                }
            }
        }
        proof {
            assert(evict_end(b1, k, self.max_capacity as int) == k);
        }
        (push_res, ready)
    }

    /// Releases every buffered event, in timestamp order.
    pub fn flush_all(&mut self) -> (r: Vec<MarketEvent>)
        requires
            old(self).wf(),
        ensures
            final(self).wf(),
            r@ == old(self).buffers@,
            final(self).buffers@.len() == 0,
            final(self).current_size == 0,
            final(self).watermark == old(self).watermark,
            final(self).max_seen_ts == old(self).max_seen_ts,
            final(self).max_capacity == old(self).max_capacity,
            final(self).allowed_lateness == old(self).allowed_lateness,
    {
        let mut all = Vec::new();
        std::mem::swap(&mut all, &mut self.buffers);
        self.current_size = 0;
        all
    }
}

proof fn lemma_count_bounds(s: Seq<MarketEvent>, x: int)
    ensures
        0 <= count_at_or_before(s, x) <= s.len(),
    decreases s.len(),
{
    if s.len() > 0 {
        lemma_count_bounds(s.drop_last(), x);
    }
}

/// A run found by scanning a suffix is the run `run_end` describes.
proof fn lemma_run_end_matches(b: Seq<MarketEvent>, k: int, j: int)
    requires
        0 <= k < b.len(),
        1 <= j <= b.len() - k,
        forall|m: int| k <= m < k + j ==> ev_time(#[trigger] b[m]) == ev_time(b[k]),
        k + j == b.len() || ev_time(b[k + j]) != ev_time(b[k]),
    ensures
        run_end(b, k, k + 1) == k + j,
{
    lemma_run_end_from(b, k, k + 1, k + j);
}

proof fn lemma_run_end_from(b: Seq<MarketEvent>, k: int, i: int, e: int)
    requires
        0 <= k < i <= e <= b.len(),
        forall|m: int| k <= m < e ==> ev_time(#[trigger] b[m]) == ev_time(b[k]),
        e == b.len() || ev_time(b[e]) != ev_time(b[k]),
    ensures
        run_end(b, k, i) == e,
    decreases e - i,
{
    if i < e {
        lemma_run_end_from(b, k, i + 1, e);
    }
}

/// The later of two optional timestamps, `None` counting as earliest.
fn later(a: Option<MarketTimestamp>, b: Option<MarketTimestamp>) -> (r: Option<MarketTimestamp>)
    ensures
        opt_instant(r) == later_mark(opt_instant(a), opt_instant(b)),
{
    match (a, b) {
        (Some(x), Some(y)) => if y.le(&x) {
            Some(x)
        } else {
            Some(y)
        },
        (Some(x), None) => Some(x),
        (None, _) => b,
    }
}

} // verus!
