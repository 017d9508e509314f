//! Quota accounting — the sliding one-minute window behind every
//! capability's rate limit — and `CapabilityBudget`, the per-call
//! wall-clock ceiling plus a reference to shared accounting.
//!
//! Time is a number of milliseconds on a monotonic clock, passed in
//! by the caller (`now_ms`); the window is the last 60 000 ms.

use vstd::prelude::*;
use crate::types::quota::{QuotaKind, QuotaSnapshot, QuotaSpec};

verus! {

/// Length of the accounting window in milliseconds.
pub open spec fn window_ms() -> u64 {
    60_000
}

/// Oldest stamp still inside the window at `now`. A clock younger than
/// the window keeps only stamps taken at `now` or later.
pub open spec fn window_cutoff(now: u64) -> u64 {
    if now >= 60_000 {
        (now - 60_000) as u64
    } else {
        now
    }
}

/// Call stamps still inside the window at `now`.
pub open spec fn live_calls(stamps: Seq<u64>, now: u64) -> Seq<u64> {
    stamps.filter(|t: u64| t >= window_cutoff(now))
}

/// Amount stamps still inside the window at `now`.
pub open spec fn live_amounts(stamps: Seq<(u64, u64)>, now: u64) -> Seq<(u64, u64)> {
    stamps.filter(|p: (u64, u64)| p.0 >= window_cutoff(now))
}

/// A call stamp counts in the window for exactly one minute: once a
/// full minute of clock has passed, a stamp taken at `t <= now` is
/// still counted at `now` exactly when it is at most 60 000 ms old;
/// before that (the minute cannot be measured back), only stamps taken
/// at `now` count.
pub proof fn law_window_is_one_minute(stamps: Seq<u64>, now: u64, t: u64)
    requires
        stamps.contains(t),
        t <= now,
    ensures
        now >= 60_000 ==> (live_calls(stamps, now).contains(t) <==> now - t <= 60_000),
        now < 60_000 ==> (live_calls(stamps, now).contains(t) <==> t == now),
{
    let pred = |x: u64| x >= window_cutoff(now);
    let i = choose|i: int| 0 <= i < stamps.len() && stamps[i] == t;
    if pred(t) {
        stamps.lemma_filter_contains(pred, i);
    } else if live_calls(stamps, now).contains(t) {
        let j = choose|j: int| 0 <= j < stamps.filter(pred).len() && stamps.filter(pred)[j] == t;
        stamps.lemma_filter_pred(pred, j);
    }
}

/// Calls all taken within the last minute all count: with
/// `calls_per_minute = L`, `L` calls inside one minute exhaust the
/// window, however they are spread over it.
pub proof fn law_recent_calls_all_count(stamps: Seq<u64>, now: u64)
    requires
        now >= 60_000,
        forall|i: int| 0 <= i < stamps.len() ==> #[trigger] stamps[i] <= now && now - stamps[i] <= 60_000,
    ensures
        live_calls(stamps, now) == stamps,
    decreases stamps.len(),
{
    reveal(Seq::filter);
    if stamps.len() > 0 {
        law_recent_calls_all_count(stamps.drop_last(), now);
        assert(stamps.drop_last().push(stamps.last()) =~= stamps);
    } else {
        assert(live_calls(stamps, now) =~= stamps);
    }
}

/// An amount stamp counts in the window for exactly one minute, as a
/// call stamp does.
pub proof fn law_amount_window_is_one_minute(stamps: Seq<(u64, u64)>, now: u64, p: (u64, u64))
    requires
        stamps.contains(p),
        p.0 <= now,
    ensures
        now >= 60_000 ==> (live_amounts(stamps, now).contains(p) <==> now - p.0 <= 60_000),
        now < 60_000 ==> (live_amounts(stamps, now).contains(p) <==> p.0 == now),
{
    let pred = |x: (u64, u64)| x.0 >= window_cutoff(now);
    let i = choose|i: int| 0 <= i < stamps.len() && stamps[i] == p;
    if pred(p) {
        stamps.lemma_filter_contains(pred, i);
    } else if live_amounts(stamps, now).contains(p) {
        let j = choose|j: int| 0 <= j < stamps.filter(pred).len() && stamps.filter(pred)[j] == p;
        stamps.lemma_filter_pred(pred, j);
    }
}

/// Total of the amounts in a sequence of `(stamp, amount)` pairs.
pub open spec fn total(s: Seq<(u64, u64)>) -> nat
    decreases s.len(),
{
    if s.len() == 0 {
        0
    } else {
        (total(s.drop_last()) + s.last().1) as nat
    }
}

proof fn lemma_total_take(s: Seq<(u64, u64)>, i: int)
    requires
        0 <= i < s.len(),
    ensures
        total(s.take(i + 1)) == total(s.take(i)) + s[i].1,
        total(s.take(i)) <= total(s),
    decreases s.len(),
{
    assert(s.take(i + 1).drop_last() =~= s.take(i));
    if i < s.len() - 1 {
        lemma_total_take(s.drop_last(), i);
        assert(s.drop_last().take(i) =~= s.take(i));
        assert(s.drop_last().take(i + 1) =~= s.take(i + 1));
    } else {
        assert(s.drop_last() =~= s.take(i));
    }
}

proof fn lemma_total_filter(s: Seq<(u64, u64)>, pred: spec_fn((u64, u64)) -> bool)
    ensures
        total(s.filter(pred)) <= total(s),
    decreases s.len(),
{
    reveal(Seq::filter);
    if s.len() > 0 {
        lemma_total_filter(s.drop_last(), pred);
        if pred(s.last()) {
            assert(s.filter(pred).drop_last() =~= s.drop_last().filter(pred));
        }
    }
}

proof fn lemma_total_push(s: Seq<(u64, u64)>, p: (u64, u64))
    ensures
        total(s.push(p)) == total(s) + p.1,
{
    assert(s.push(p).drop_last() =~= s);
}

fn evict_calls(stamps: &Vec<u64>, now: u64) -> (r: Vec<u64>)
    ensures
        r@ == live_calls(stamps@, now),
{
    let cutoff = if now >= 60_000 { now - 60_000 } else { now };
    let mut kept: Vec<u64> = Vec::new();
    let mut i: usize = 0;
    let ghost pred = |t: u64| t >= window_cutoff(now);
    while i < stamps.len()
        invariant
            i <= stamps.len(),
            cutoff == window_cutoff(now),
            pred == (|t: u64| t >= window_cutoff(now)),
            kept@ == stamps@.take(i as int).filter(pred),
        decreases stamps.len() - i,
    {
        proof {
            assert(stamps@.take(i as int + 1) =~= stamps@.take(i as int).push(stamps@[i as int]));
            stamps@.take(i as int).lemma_filter_push(stamps@[i as int], pred);
        }
        if stamps[i] >= cutoff {
            kept.push(stamps[i]);
        }
        i = i + 1;
    }
    assert(stamps@.take(stamps.len() as int) =~= stamps@);
    kept
}

fn evict_amounts(stamps: &Vec<(u64, u64)>, now: u64) -> (r: Vec<(u64, u64)>)
    ensures
        r@ == live_amounts(stamps@, now),
{
    let cutoff = if now >= 60_000 { now - 60_000 } else { now };
    let mut kept: Vec<(u64, u64)> = Vec::new();
    let mut i: usize = 0;
    let ghost pred = |p: (u64, u64)| p.0 >= window_cutoff(now);
    while i < stamps.len()
        invariant
            i <= stamps.len(),
            cutoff == window_cutoff(now),
            pred == (|p: (u64, u64)| p.0 >= window_cutoff(now)),
            kept@ == stamps@.take(i as int).filter(pred),
        decreases stamps.len() - i,
    {
        proof {
            assert(stamps@.take(i as int + 1) =~= stamps@.take(i as int).push(stamps@[i as int]));
            stamps@.take(i as int).lemma_filter_push(stamps@[i as int], pred);
        }
        let p = stamps[i];
        if p.0 >= cutoff {
            kept.push(p);
        }
        i = i + 1;
    }
    assert(stamps@.take(stamps.len() as int) =~= stamps@);
    kept
}

/// Sum of the amounts, which the caller knows fits a `u64`.
fn sum_amounts(s: &Vec<(u64, u64)>) -> (r: u64)
    requires
        total(s@) <= u64::MAX,
    ensures
        r == total(s@),
{
    let mut acc: u64 = 0;
    let mut i: usize = 0;
    while i < s.len()
        invariant
            i <= s.len(),
            total(s@) <= u64::MAX,
            acc == total(s@.take(i as int)),
        decreases s.len() - i,
    {
        proof {
            lemma_total_take(s@, i as int);
            if i + 1 < s.len() {
                lemma_total_take(s@, i as int + 1);
            } else {
                assert(s@.take(i as int + 1) =~= s@);
            }
        }
        acc = acc + s[i].1;
        i = i + 1;
    }
    assert(s@.take(s.len() as int) =~= s@);
    acc
}

/// Sum of the amounts, capped at `u64::MAX`.
fn saturating_sum(s: &Vec<(u64, u64)>) -> (r: u64)
    ensures
        r == if total(s@) <= u64::MAX {
            total(s@)
        } else {
            u64::MAX as nat
        },
{
    let mut acc: u64 = 0;
    let mut capped = false;
    let mut i: usize = 0;
    while i < s.len()
        invariant
            i <= s.len(),
            capped ==> acc == u64::MAX && total(s@.take(i as int)) >= u64::MAX,
            !capped ==> acc == total(s@.take(i as int)),
        decreases s.len() - i,
    {
        proof {
            lemma_total_take(s@, i as int);
        }
        if !capped {
            if s[i].1 > u64::MAX - acc {
                acc = u64::MAX;
                capped = true;
            } else {
                acc = acc + s[i].1;
            }
        }
        i = i + 1;
    }
    assert(s@.take(s.len() as int) =~= s@);
    acc
}

/// Sliding-window accounting for one quota bucket.
pub struct QuotaState {
    spec: QuotaSpec,
    call_stamps: Vec<u64>,
    token_stamps: Vec<(u64, u64)>,
    byte_stamps: Vec<(u64, u64)>,
    last_exhausted: Option<QuotaKind>,
}

impl QuotaState {
    /// The declaration this bucket enforces.
    pub closed spec fn spec_of(&self) -> QuotaSpec {
        self.spec
    }

    /// Stamps of the calls recorded (and not yet evicted).
    pub closed spec fn calls(&self) -> Seq<u64> {
        self.call_stamps@
    }

    /// `(stamp, tokens)` pairs recorded (and not yet evicted).
    pub closed spec fn tokens(&self) -> Seq<(u64, u64)> {
        self.token_stamps@
    }

    /// `(stamp, bytes)` pairs recorded (and not yet evicted).
    pub closed spec fn bytes(&self) -> Seq<(u64, u64)> {
        self.byte_stamps@
    }

    pub closed spec fn last(&self) -> Option<QuotaKind> {
        self.last_exhausted
    }

    /// The bucket never holds more than its limit on any limited axis.
    pub open spec fn wf(&self) -> bool {
        &&& self.spec_of().calls_per_minute > 0 ==> self.calls().len()
            <= self.spec_of().calls_per_minute
        &&& self.spec_of().tokens_per_minute > 0 ==> total(self.tokens())
            <= self.spec_of().tokens_per_minute
        &&& self.spec_of().bytes_per_minute > 0 ==> total(self.bytes())
            <= self.spec_of().bytes_per_minute
    }

    /// An empty bucket for `spec`.
    pub fn new(spec: QuotaSpec) -> (r: QuotaState)
        ensures
            r.wf(),
            r.spec_of() == spec,
            r.calls() == Seq::<u64>::empty(),
            r.tokens() == Seq::<(u64, u64)>::empty(),
            r.bytes() == Seq::<(u64, u64)>::empty(),
            r.last() is None,
    {
        QuotaState {
            spec,
            call_stamps: Vec::new(),
            token_stamps: Vec::new(),
            byte_stamps: Vec::new(),
            last_exhausted: None,
        }
    }

    pub fn spec(&self) -> (r: QuotaSpec)
        ensures
            r == self.spec_of(),
    {
        self.spec
    }

    /// Try to consume one call at time `now_ms`. Stamps older than the
    /// window are evicted first; the call is refused when the window
    /// already holds `calls_per_minute` calls (0 = unlimited).
    pub fn try_call(&mut self, now_ms: u64) -> (r: Result<(), QuotaKind>)
        requires
            old(self).wf(),
        ensures
            final(self).wf(),
            final(self).spec_of() == old(self).spec_of(),
            final(self).tokens() == old(self).tokens(),
            final(self).bytes() == old(self).bytes(),
            ({
                let live = live_calls(old(self).calls(), now_ms);
                let limit = old(self).spec_of().calls_per_minute;
                if limit > 0 && live.len() >= limit {
                    &&& r == Err::<(), QuotaKind>(QuotaKind::Calls)
                    &&& final(self).calls() == live
                    &&& final(self).last() == Some(QuotaKind::Calls)
                } else {
                    &&& r is Ok
                    &&& final(self).calls() == live.push(now_ms)
                    &&& final(self).last() is None
                }
            }),
    {
        let live = evict_calls(&self.call_stamps, now_ms);
        proof {
            let pred = |t: u64| t >= window_cutoff(now_ms);
            self.call_stamps@.lemma_filter_len(pred);
        }
        self.call_stamps = live;
        let limit = self.spec.calls_per_minute;
        if limit == 0 {
            self.call_stamps.push(now_ms);
            self.last_exhausted = None;
            return Ok(());
        }
        if self.call_stamps.len() >= limit as usize {
            self.last_exhausted = Some(QuotaKind::Calls);
            return Err(QuotaKind::Calls);
        }
        self.call_stamps.push(now_ms);
        self.last_exhausted = None;
        Ok(())
    }

    /// Try to consume `n` tokens at time `now_ms`. Refused when the
    /// window's total plus `n` would exceed `tokens_per_minute`
    /// (0 = unlimited). A zero amount is always accepted and recorded
    /// as nothing.
    pub fn try_tokens(&mut self, n: u64, now_ms: u64) -> (r: Result<(), QuotaKind>)
        requires
            old(self).wf(),
        ensures
            final(self).wf(),
            final(self).spec_of() == old(self).spec_of(),
            final(self).calls() == old(self).calls(),
            final(self).bytes() == old(self).bytes(),
            ({
                let live = live_amounts(old(self).tokens(), now_ms);
                let limit = old(self).spec_of().tokens_per_minute;
                if limit == 0 || n == 0 {
                    &&& r is Ok
                    &&& final(self).tokens() == (if n > 0 {
                        live.push((now_ms, n))
                    } else {
                        live
                    })
                    &&& final(self).last() is None
                } else if total(live) + n > limit {
                    &&& r == Err::<(), QuotaKind>(QuotaKind::Tokens)
                    &&& final(self).tokens() == live
                    &&& final(self).last() == Some(QuotaKind::Tokens)
                } else {
                    &&& r is Ok
                    &&& final(self).tokens() == live.push((now_ms, n))
                    &&& final(self).last() is None
                }
            }),
    {
        let live = evict_amounts(&self.token_stamps, now_ms);
        proof {
            lemma_total_filter(self.token_stamps@, |p: (u64, u64)| p.0 >= window_cutoff(now_ms));
            lemma_total_push(live@, (now_ms, n));
        }
        self.token_stamps = live;
        let limit = self.spec.tokens_per_minute;
        if limit == 0 || n == 0 {
            if n > 0 {
                self.token_stamps.push((now_ms, n));
            }
            self.last_exhausted = None;
            return Ok(());
        }
        let used = sum_amounts(&self.token_stamps);
        if n > limit - used {
            self.last_exhausted = Some(QuotaKind::Tokens);
            return Err(QuotaKind::Tokens);
        }
        self.token_stamps.push((now_ms, n));
        self.last_exhausted = None;
        Ok(())
    }

    /// Try to consume `n` bytes at time `now_ms`; same rule as tokens.
    pub fn try_bytes(&mut self, n: u64, now_ms: u64) -> (r: Result<(), QuotaKind>)
        requires
            old(self).wf(),
        ensures
            final(self).wf(),
            final(self).spec_of() == old(self).spec_of(),
            final(self).calls() == old(self).calls(),
            final(self).tokens() == old(self).tokens(),
            ({
                let live = live_amounts(old(self).bytes(), now_ms);
                let limit = old(self).spec_of().bytes_per_minute;
                if limit == 0 || n == 0 {
                    &&& r is Ok
                    &&& final(self).bytes() == (if n > 0 {
                        live.push((now_ms, n))
                    } else {
                        live
                    })
                    &&& final(self).last() is None
                } else if total(live) + n > limit {
                    &&& r == Err::<(), QuotaKind>(QuotaKind::Bytes)
                    &&& final(self).bytes() == live
                    &&& final(self).last() == Some(QuotaKind::Bytes)
                } else {
                    &&& r is Ok
                    &&& final(self).bytes() == live.push((now_ms, n))
                    &&& final(self).last() is None
                }
            }),
    {
        let live = evict_amounts(&self.byte_stamps, now_ms);
        proof {
            lemma_total_filter(self.byte_stamps@, |p: (u64, u64)| p.0 >= window_cutoff(now_ms));
            lemma_total_push(live@, (now_ms, n));
        }
        self.byte_stamps = live;
        let limit = self.spec.bytes_per_minute;
        if limit == 0 || n == 0 {
            if n > 0 {
                self.byte_stamps.push((now_ms, n));
            }
            self.last_exhausted = None;
            return Ok(());
        }
        let used = sum_amounts(&self.byte_stamps);
        if n > limit - used {
            self.last_exhausted = Some(QuotaKind::Bytes);
            return Err(QuotaKind::Bytes);
        }
        self.byte_stamps.push((now_ms, n));
        self.last_exhausted = None;
        Ok(())
    }

    /// `r` reports the usage recorded in this bucket: the calls in the
    /// window, the token and byte totals (saturating at `u64::MAX`) and
    /// the last exhaustion.
    pub open spec fn reported_by(&self, r: QuotaSnapshot) -> bool {
        &&& r.calls_used == self.calls().len() as u32
        &&& r.tokens_used == (if total(self.tokens()) <= u64::MAX {
            total(self.tokens())
        } else {
            u64::MAX as nat
        })
        &&& r.bytes_used == (if total(self.bytes()) <= u64::MAX {
            total(self.bytes())
        } else {
            u64::MAX as nat
        })
        &&& r.last_exhausted == self.last()
    }

    /// Usage recorded so far (stamps are evicted only by the next
    /// check). Totals that do not fit a `u64` are reported as
    /// `u64::MAX`.
    pub fn snapshot(&self) -> (r: QuotaSnapshot)
        ensures
            self.reported_by(r),
            r.calls_used == self.calls().len() as u32,
            r.tokens_used == (if total(self.tokens()) <= u64::MAX {
                total(self.tokens())
            } else {
                u64::MAX as nat
            }),
            r.bytes_used == (if total(self.bytes()) <= u64::MAX {
                total(self.bytes())
            } else {
                u64::MAX as nat
            }),
            r.last_exhausted == self.last(),
    {
        QuotaSnapshot {
            calls_used: self.call_stamps.len() as u32,
            tokens_used: saturating_sum(&self.token_stamps),
            bytes_used: saturating_sum(&self.byte_stamps),
            last_exhausted: self.last_exhausted,
        }
    }
}


/// Owner of every quota bucket and wall-clock counter. Budgets refer
/// to entries of a ledger by position, so budgets derived from one
/// another can share the same bucket: a call through either debits
/// the same window.
pub struct QuotaLedger {
    buckets: Vec<QuotaState>,
    wall_clocks: Vec<u64>,
}

impl QuotaLedger {
    pub closed spec fn buckets(&self) -> Seq<QuotaState> {
        self.buckets@
    }

    pub closed spec fn clocks(&self) -> Seq<u64> {
        self.wall_clocks@
    }

    pub open spec fn wf(&self) -> bool {
        forall|i: int| 0 <= i < self.buckets().len() ==> (#[trigger] self.buckets()[i]).wf()
    }

    /// `budget` refers to entries of this ledger.
    pub open spec fn owns(&self, budget: CapabilityBudget) -> bool {
        &&& budget.bucket() < self.buckets().len()
        &&& budget.clock() < self.clocks().len()
    }

    /// An empty ledger.
    pub fn new() -> (r: QuotaLedger)
        ensures
            r.wf(),
            r.buckets().len() == 0,
            r.clocks().len() == 0,
    {
        QuotaLedger { buckets: Vec::new(), wall_clocks: Vec::new() }
    }

    fn open_bucket(&mut self, spec: QuotaSpec) -> (r: usize)
        requires
            old(self).wf(),
        ensures
            final(self).wf(),
            r == old(self).buckets().len(),
            final(self).buckets().len() == old(self).buckets().len() + 1,
            final(self).buckets().drop_last() == old(self).buckets(),
            final(self).buckets()[r as int].spec_of() == spec,
            final(self).buckets()[r as int].calls().len() == 0,
            final(self).buckets()[r as int].tokens().len() == 0,
            final(self).buckets()[r as int].bytes().len() == 0,
            final(self).clocks() == old(self).clocks(),
    {
        let r = self.buckets.len();
        self.buckets.push(QuotaState::new(spec));
        proof {
            assert(self.buckets@.drop_last() =~= old(self).buckets@);
            assert forall|i: int| 0 <= i < self.buckets().len() implies (#[trigger] self.buckets()[i]).wf() by {
                if i < r {
                    assert(self.buckets()[i] == old(self).buckets()[i]);
                }
            }
        }
        r
    }

    fn open_clock(&mut self) -> (r: usize)
        ensures
            r == old(self).clocks().len(),
            final(self).clocks() == old(self).clocks().push(0),
            final(self).buckets() == old(self).buckets(),
    {
        let r = self.wall_clocks.len();
        self.wall_clocks.push(0);
        r
    }
}

/// Rounded-up milliseconds of a call that took `us` microseconds; a
/// call always counts as at least one millisecond.
pub open spec fn elapsed_ms(us: u64) -> u64 {
    if us == 0 {
        1
    } else {
        ((us - 1) / 1000 + 1) as u64
    }
}

/// `l1` is `l0` after `budget` recorded a call of `us` microseconds: its
/// wall-clock counter grew by the call's rounded-up milliseconds
/// (wrapping at 2^64), and nothing else changed.
pub open spec fn elapsed_recorded(l0: QuotaLedger, l1: QuotaLedger, budget: CapabilityBudget, us: u64) -> bool {
    &&& l1.buckets() == l0.buckets()
    &&& l1.clocks() == l0.clocks().update(
        budget.clock() as int,
        ((l0.clocks()[budget.clock() as int] + elapsed_ms(us)) % 0x1_0000_0000_0000_0000) as u64,
    )
}

/// The rounded-up milliseconds of calls of `us` microseconds, summed.
pub open spec fn total_ms(us: Seq<u64>) -> nat
    decreases us.len(),
{
    if us.len() == 0 {
        0
    } else {
        total_ms(us.drop_last()) + elapsed_ms(us.last()) as nat
    }
}

/// Time recorded through budgets sharing one wall-clock counter adds
/// up on it: after calls of `us[0], .., us[n-1]` microseconds were
/// recorded, in turn, through budgets that all share the counter of
/// `b` (as `share_with` and every derivation make them), the counter
/// of `b` has grown by the sum of the calls' milliseconds, each
/// rounded up and at least one, as long as the sum fits in a `u64`.
pub proof fn law_wall_clock_sum(
    ledgers: Seq<QuotaLedger>,
    budgets: Seq<CapabilityBudget>,
    us: Seq<u64>,
    b: CapabilityBudget,
)
    requires
        ledgers.len() == us.len() + 1,
        budgets.len() == us.len(),
        ledgers[0].owns(b),
        forall|i: int| 0 <= i < budgets.len() ==> (#[trigger] budgets[i]).clock() == b.clock(),
        forall|i: int|
            0 <= i < us.len() ==> #[trigger] elapsed_recorded(ledgers[i], ledgers[i + 1], budgets[i], us[i]),
        ledgers[0].clocks()[b.clock() as int] + total_ms(us) <= u64::MAX,
    ensures
        ledgers.last().owns(b),
        ledgers.last().clocks()[b.clock() as int] == ledgers[0].clocks()[b.clock() as int] + total_ms(us),
        total_ms(us) >= us.len(),
    decreases us.len(),
{
    if us.len() > 0 {
        let n = us.len() - 1;
        let lp = ledgers.take(n + 1);
        let bp = budgets.take(n);
        let up = us.drop_last();
        assert(up =~= us.take(n));
        assert forall|i: int| 0 <= i < bp.len() implies (#[trigger] bp[i]).clock() == b.clock() by {
            assert(bp[i] == budgets[i]);
        }
        assert forall|i: int| 0 <= i < up.len() implies #[trigger] elapsed_recorded(lp[i], lp[i + 1], bp[i], up[i]) by {
            assert(bp[i] == budgets[i] && lp[i] == ledgers[i] && lp[i + 1] == ledgers[i + 1] && up[i] == us[i]);
            assert(elapsed_recorded(ledgers[i], ledgers[i + 1], budgets[i], us[i]));
        }
        law_wall_clock_sum(lp, bp, up, b);
        assert(lp.last() == ledgers[n]);
        assert(elapsed_recorded(ledgers[n], ledgers[n + 1], budgets[n], us[n]));
        assert(ledgers.last() == ledgers[n + 1]);
    }
}

/// Per-call wall-clock ceiling plus the ledger entries that account
/// for this capability's calls.
#[derive(Clone, Copy, Debug, PartialEq, Eq, Structural)]
pub struct CapabilityBudget {
    timeout_ms: u32,
    bucket: usize,
    clock: usize,
}

impl CapabilityBudget {
    pub closed spec fn timeout(self) -> u32 {
        self.timeout_ms
    }

    /// Position of the quota bucket in the ledger.
    pub closed spec fn bucket(self) -> usize {
        self.bucket
    }

    /// Position of the wall-clock counter in the ledger.
    pub closed spec fn clock(self) -> usize {
        self.clock
    }

    /// A budget with no quota and fresh accounting.
    pub fn new(ledger: &mut QuotaLedger, timeout_ms: u32) -> (r: CapabilityBudget)
        requires
            old(ledger).wf(),
        ensures
            final(ledger).wf(),
            final(ledger).owns(r),
            r.timeout() == timeout_ms,
            r.bucket() == old(ledger).buckets().len(),
            r.clock() == old(ledger).clocks().len(),
            final(ledger).buckets() == old(ledger).buckets().push(final(ledger).buckets().last()),
            final(ledger).buckets().last().spec_of() == (QuotaSpec { calls_per_minute: 0, tokens_per_minute: 0, bytes_per_minute: 0 }),
            final(ledger).buckets().last().calls().len() == 0,
            final(ledger).clocks() == old(ledger).clocks().push(0),
    {
        Self::with_spec(ledger, timeout_ms, QuotaSpec::unlimited())
    }

    /// A budget enforcing `spec`, with fresh accounting.
    pub fn with_spec(ledger: &mut QuotaLedger, timeout_ms: u32, spec: QuotaSpec) -> (r:
        CapabilityBudget)
        requires
            old(ledger).wf(),
        ensures
            final(ledger).wf(),
            final(ledger).owns(r),
            r.timeout() == timeout_ms,
            r.bucket() == old(ledger).buckets().len(),
            r.clock() == old(ledger).clocks().len(),
            final(ledger).buckets() == old(ledger).buckets().push(final(ledger).buckets().last()),
            final(ledger).buckets().last().spec_of() == spec,
            final(ledger).buckets().last().calls().len() == 0,
            final(ledger).buckets().last().tokens().len() == 0,
            final(ledger).buckets().last().bytes().len() == 0,
            final(ledger).clocks() == old(ledger).clocks().push(0),
    {
        let bucket = ledger.open_bucket(spec);
        let clock = ledger.open_clock();
        proof {
            assert(ledger.buckets() =~= old(ledger).buckets().push(ledger.buckets().last()));
        }
        CapabilityBudget { timeout_ms, bucket, clock }
    }

    /// Per-call wall-clock ceiling.
    pub fn timeout_ms(&self) -> (r: u32)
        ensures
            r == self.timeout(),
    {
        self.timeout_ms
    }

    /// Total wall-clock milliseconds recorded against this budget's
    /// counter (shared with every budget derived by `share_with`).
    pub fn wall_clock_total_ms(&self, ledger: &QuotaLedger) -> (r: u64)
        requires
            ledger.owns(*self),
        ensures
            r == ledger.clocks()[self.clock() as int],
    {
        ledger.wall_clocks[self.clock]
    }

    /// Usage of this budget's bucket.
    pub fn snapshot(&self, ledger: &QuotaLedger) -> (r: QuotaSnapshot)
        requires
            ledger.owns(*self),
        ensures
            ledger.buckets()[self.bucket() as int].reported_by(r),
    {
        ledger.buckets[self.bucket].snapshot()
    }

    /// The quota this budget enforces.
    pub fn quota_spec(&self, ledger: &QuotaLedger) -> (r: QuotaSpec)
        requires
            ledger.owns(*self),
        ensures
            r == ledger.buckets()[self.bucket() as int].spec_of(),
    {
        ledger.buckets[self.bucket].spec()
    }

    /// Debit one call against this budget's bucket at `now_ms`. Only
    /// that bucket changes.
    pub fn try_call(&self, ledger: &mut QuotaLedger, now_ms: u64) -> (r: Result<(), QuotaKind>)
        requires
            old(ledger).wf(),
            old(ledger).owns(*self),
        ensures
            final(ledger).wf(),
            final(ledger).clocks() == old(ledger).clocks(),
            final(ledger).buckets().len() == old(ledger).buckets().len(),
            forall|i: int|
                0 <= i < old(ledger).buckets().len() && i != self.bucket()
                    ==> final(ledger).buckets()[i] == old(ledger).buckets()[i],
            ({
                let b = old(ledger).buckets()[self.bucket() as int];
                let b2 = final(ledger).buckets()[self.bucket() as int];
                let live = live_calls(b.calls(), now_ms);
                let limit = b.spec_of().calls_per_minute;
                &&& b2.spec_of() == b.spec_of()
                &&& b2.tokens() == b.tokens()
                &&& b2.bytes() == b.bytes()
                &&& if limit > 0 && live.len() >= limit {
                    &&& r == Err::<(), QuotaKind>(QuotaKind::Calls)
                    &&& b2.calls() == live
                    &&& b2.last() == Some(QuotaKind::Calls)
                } else {
                    &&& r is Ok
                    &&& b2.calls() == live.push(now_ms)
                    &&& b2.last() is None
                }
            }),
    {
        let ghost old_buckets = ledger.buckets@;
        let mut bucket = ledger.buckets.remove(self.bucket);
        proof {
            assert(old_buckets[self.bucket as int].wf());
        }
        let r = bucket.try_call(now_ms);
        ledger.buckets.insert(self.bucket, bucket);
        proof {
            assert(ledger.buckets@ =~= old_buckets.update(self.bucket as int, bucket));
            assert forall|i: int| 0 <= i < ledger.buckets().len() implies (#[trigger] ledger.buckets()[i]).wf() by {
                if i != self.bucket {
                    assert(ledger.buckets()[i] == old_buckets[i]);
                }
            }
        }
        r
    }

    /// Record the wall-clock time of one call that took `elapsed_us`
    /// microseconds: rounded up to whole milliseconds, at least one.
    /// The counter wraps on overflow, as an atomic add does.
    pub fn record_elapsed(&self, ledger: &mut QuotaLedger, elapsed_us: u64)
        requires
            old(ledger).owns(*self),
        ensures
            elapsed_recorded(*old(ledger), *final(ledger), *self, elapsed_us),
            final(ledger).buckets() == old(ledger).buckets(),
            final(ledger).clocks() == old(ledger).clocks().update(
                self.clock() as int,
                ((old(ledger).clocks()[self.clock() as int] + elapsed_ms(elapsed_us)) % 0x1_0000_0000_0000_0000) as u64,
            ),
    {
        let ms: u64 = if elapsed_us == 0 {
            1
        } else {
            (elapsed_us - 1) / 1000 + 1
        };
        let cur = ledger.wall_clocks[self.clock];
        let next = cur.wrapping_add(ms);
        ledger.wall_clocks.set(self.clock, next);
    }

    /// A budget with its own ceiling that shares both the quota bucket
    /// and the wall-clock counter of `parent`.
    pub fn share_with(parent: &CapabilityBudget, timeout_ms: u32) -> (r: CapabilityBudget)
        ensures
            r.timeout() == timeout_ms,
            r.bucket() == parent.bucket(),
            r.clock() == parent.clock(),
    {
        CapabilityBudget { timeout_ms, bucket: parent.bucket, clock: parent.clock }
    }

    /// A budget with its own ceiling for a capability derived from
    /// `parent`'s: it draws from `parent`'s quota bucket and records its
    /// wall-clock time on `parent`'s counter, so the parent reports the
    /// total of its whole derivation subtree.
    pub fn share_quota_with(parent: &CapabilityBudget, timeout_ms: u32) -> (r: CapabilityBudget)
        ensures
            r.timeout() == timeout_ms,
            r.bucket() == parent.bucket(),
            r.clock() == parent.clock(),
    {
        CapabilityBudget { timeout_ms, bucket: parent.bucket, clock: parent.clock }
    }
}


/// `b2` is `b` after one call was offered at `now`: accepted when `ok`,
/// refused by the per-minute limit otherwise.
pub open spec fn call_offered(b: QuotaState, b2: QuotaState, now: u64, ok: bool) -> bool {
    let live = live_calls(b.calls(), now);
    let limit = b.spec_of().calls_per_minute;
    &&& b2.spec_of() == b.spec_of()
    &&& b2.tokens() == b.tokens()
    &&& b2.bytes() == b.bytes()
    &&& if limit > 0 && live.len() >= limit {
        &&& !ok
        &&& b2.calls() == live
        &&& b2.last() == Some(QuotaKind::Calls)
    } else {
        &&& ok
        &&& b2.calls() == live.push(now)
        &&& b2.last() is None
    }
}

} // verus!
