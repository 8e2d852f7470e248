//! Maker components for resting-limit capture of the basis-reversion edge:
//! the fair-value oracle's configuration and clocks, the rolling gap window,
//! the inventory position cap, the single-entry-quote lifecycle with its
//! danger-pull watchdog, and the maker strategy's FLAT / IN-POSITION state
//! machine, plus configuration-range validation.
//!
//! Every decision here is over integers (virtual-clock nanoseconds, raw
//! fixed-point prices and quantities, ids). Deviations and fair values are
//! measured by the caller in basis points; the state machines take the
//! verdicts of those measurements (which side the dislocation favours, and
//! where it stands against the configured bands) as plain inputs.

use vstd::prelude::*;
use crate::side::Side;
use crate::text::{decimal, signed_decimal, with_int, with_str};

verus! {

/// Default reference-staleness limit: 1000 ms on the virtual clock.
pub const DEFAULT_STALENESS_NS: u64 = 1_000_000_000;

/// Minimum gap samples before the deviation is trusted.
pub const MIN_DEV_SAMPLES: usize = 20;

/// Largest accepted latency/timeout knob: 5000 ms expressed in nanoseconds.
pub const MAX_LATENCY_NS: u64 = 5_000_000_000;

/// Configuration of the fair-value oracle.
#[derive(Clone, Copy, Debug, PartialEq, Eq, Structural)]
pub struct FairValueConfig {
    /// Microprice depth (levels per side).
    pub top_n: usize,
    /// Rolling baseline length (gap samples).
    pub window: usize,
    /// Gap-sample cadence (ns).
    pub sample_ns: u64,
    /// Reference staleness limit (ns); default [`DEFAULT_STALENESS_NS`].
    pub staleness_ns: u64,
}

impl Default for FairValueConfig {
    fn default() -> (r: Self)
        ensures
            r == (FairValueConfig {
                top_n: 5,
                window: 500,
                sample_ns: 500_000_000,
                staleness_ns: DEFAULT_STALENESS_NS,
            }),
    {
        Self { top_n: 5, window: 500, sample_ns: 500_000_000, staleness_ns: DEFAULT_STALENESS_NS }
    }
}

/// `"<name> <v> out of range >=1"`.
pub open spec fn at_least_one_msg(name: Seq<char>, v: nat) -> Seq<char> {
    name + " "@ + decimal(v) + " out of range >=1"@
}

/// `"<name> <v> out of range 0..=<hi>"`.
pub open spec fn upper_bound_msg(name: Seq<char>, v: nat, hi: nat) -> Seq<char> {
    name + " "@ + decimal(v) + " out of range 0..="@ + decimal(hi)
}

/// Reject `v` unless it lies in `[0, hi]`, naming `name`.
pub fn check_u64(name: &str, v: u64, hi: u64) -> (r: Result<(), String>)
    ensures
        v <= hi ==> r is Ok,
        v > hi ==> r is Err && r->Err_0@ == upper_bound_msg(name@, v as nat, hi as nat),
{
    if v > hi {
        let m = with_str(name.to_string(), " ");
        let m = with_int(m, v as i128);
        let m = with_str(m, " out of range 0..=");
        return Err(with_int(m, hi as i128));
    }
    Ok(())
}

/// `"quote_qty mismatch: QuoteConfig.quote_qty <a> != InventoryConfig.quote_qty <b>"`.
pub open spec fn quote_qty_mismatch_msg(quote_qty: int, inventory_quote_qty: int) -> Seq<char> {
    "quote_qty mismatch: QuoteConfig.quote_qty "@ + signed_decimal(quote_qty)
        + " != InventoryConfig.quote_qty "@ + signed_decimal(inventory_quote_qty)
}

/// The quote size and the inventory controller's quote size must agree: the
/// position cap is counted in quotes of the size that is actually placed.
pub fn check_quote_qty(quote_qty: i64, inventory_quote_qty: i64) -> (r: Result<(), String>)
    ensures
        quote_qty == inventory_quote_qty <==> r is Ok,
        r is Err ==> r->Err_0@ == quote_qty_mismatch_msg(quote_qty as int, inventory_quote_qty as int),
{
    if quote_qty != inventory_quote_qty {
        let m = with_int("quote_qty mismatch: QuoteConfig.quote_qty ".to_string(), quote_qty as i128);
        let m = with_str(m, " != InventoryConfig.quote_qty ");
        return Err(with_int(m, inventory_quote_qty as i128));
    }
    Ok(())
}

fn at_least_one_err(name: &str, v: u64) -> (r: String)
    ensures
        r@ == at_least_one_msg(name@, v as nat),
{
    let m = with_str(name.to_string(), " ");
    let m = with_int(m, v as i128);
    with_str(m, " out of range >=1")
}

impl FairValueConfig {
    /// Validate the oracle knobs, REJECTING out-of-range values with an error
    /// that names the first bad parameter, its value and its range: `top_n`,
    /// `window`, `sample_ns` and `staleness_ns` must each be at least 1 (a 0
    /// staleness limit would mark every read stale).
    pub fn validate(&self) -> (r: Result<(), String>)
        ensures
            self.top_n >= 1 && self.window >= 1 && self.sample_ns >= 1 && self.staleness_ns >= 1
                ==> r is Ok,
            self.top_n < 1 ==> r is Err && r->Err_0@ == at_least_one_msg("top_n"@, self.top_n as nat),
            self.top_n >= 1 && self.window < 1 ==> r is Err && r->Err_0@ == at_least_one_msg(
                "window"@,
                self.window as nat,
            ),
            self.top_n >= 1 && self.window >= 1 && self.sample_ns < 1 ==> r is Err && r->Err_0@
                == at_least_one_msg("sample_ns"@, self.sample_ns as nat),
            self.top_n >= 1 && self.window >= 1 && self.sample_ns >= 1 && self.staleness_ns < 1
                ==> r is Err && r->Err_0@ == at_least_one_msg("staleness_ns"@, self.staleness_ns as nat),
    {
        if self.top_n < 1 {
            return Err(at_least_one_err("top_n", self.top_n as u64));
        }
        if self.window < 1 {
            return Err(at_least_one_err("window", self.window as u64));
        }
        if self.sample_ns < 1 {
            return Err(at_least_one_err("sample_ns", self.sample_ns));
        }
        if self.staleness_ns < 1 {
            return Err(at_least_one_err("staleness_ns", self.staleness_ns));
        }
        Ok(())
    }

    /// The configuration the oracle actually runs with: `top_n`, `window`
    /// and `sample_ns` floored at 1, and a 0 `staleness_ns` replaced by the
    /// default (a 0 limit would make every read stale and is never intended).
    pub fn normalized(&self) -> (r: Self)
        ensures
            r.top_n == (if self.top_n < 1 { 1 } else { self.top_n }),
            r.window == (if self.window < 1 { 1 } else { self.window }),
            r.sample_ns == (if self.sample_ns < 1 { 1 } else { self.sample_ns }),
            r.staleness_ns == (if self.staleness_ns == 0 { DEFAULT_STALENESS_NS } else { self.staleness_ns }),
            r.validate_ok(),
    {
        FairValueConfig {
            top_n: if self.top_n < 1 { 1 } else { self.top_n },
            window: if self.window < 1 { 1 } else { self.window },
            sample_ns: if self.sample_ns < 1 { 1 } else { self.sample_ns },
            staleness_ns: if self.staleness_ns == 0 { DEFAULT_STALENESS_NS } else { self.staleness_ns },
        }
    }

    /// Every knob is in range (what [`FairValueConfig::validate`] accepts).
    pub open spec fn validate_ok(&self) -> bool {
        self.top_n >= 1 && self.window >= 1 && self.sample_ns >= 1 && self.staleness_ns >= 1
    }
}


/// `v` clamped to the `i64` range.
pub open spec fn clamp_i64(v: int) -> i64 {
    if v > i64::MAX {
        i64::MAX
    } else if v < i64::MIN {
        i64::MIN
    } else {
        v as i64
    }
}

/// `x + y`, saturating at the bounds of `i64`.
fn saturating_add_i64(x: i64, y: i64) -> (r: i64)
    ensures
        r == clamp_i64(x + y),
{
    match x.checked_add(y) {
        Some(v) => v,
        None => if y > 0 { i64::MAX } else { i64::MIN },
    }
}

/// `x - y`, saturating at the bounds of `i64`.
fn saturating_sub_i64(x: i64, y: i64) -> (r: i64)
    ensures
        r == clamp_i64(x - y),
{
    match x.checked_sub(y) {
        Some(v) => v,
        None => if y < 0 { i64::MAX } else { i64::MIN },
    }
}

/// The first tick of a sampling cadence anchored at `base` with period `s`
/// that lies strictly after `now` (for `base <= now`).
pub open spec fn next_tick(base: int, now: int, s: int) -> int {
    base + ((now - base) / s + 1) * s
}

/// The fair-value oracle's clocks: the reference-staleness clock (when the
/// reference price last CHANGED) and the gap-sampling cadence.
pub struct OracleClock {
    staleness_ns: u64,
    sample_ns: u64,
    last_ref_ts: u64,
    have_ref: bool,
    next_sample: u64,
    started: bool,
}

impl OracleClock {
    /// Staleness limit (ns).
    pub closed spec fn staleness_limit(&self) -> u64 {
        self.staleness_ns
    }

    /// Sampling period (ns).
    pub closed spec fn period(&self) -> u64 {
        self.sample_ns
    }

    /// When the reference price last changed.
    pub closed spec fn last_ref_change(&self) -> u64 {
        self.last_ref_ts
    }

    /// Whether a reference price has been seen.
    pub closed spec fn seen_ref(&self) -> bool {
        self.have_ref
    }

    /// The sampling period is never zero.
    #[verifier::type_invariant]
    spec fn period_positive(&self) -> bool {
        self.sample_ns >= 1
    }

    /// Next sampling tick.
    pub closed spec fn next_sample_at(&self) -> u64 {
        self.next_sample
    }

    /// Whether sampling has started.
    pub closed spec fn sampling_started(&self) -> bool {
        self.started
    }

    /// Clocks for an oracle configuration: no reference yet, sampling not
    /// started. The sampling period is floored at 1 ns.
    pub fn new(cfg: &FairValueConfig) -> (r: Self)
        ensures
            r.staleness_limit() == cfg.staleness_ns,
            r.period() == (if cfg.sample_ns < 1 { 1 } else { cfg.sample_ns }),
            !r.seen_ref(),
            !r.sampling_started(),
            r.last_ref_change() == 0,
            r.next_sample_at() == 0,
    {
        OracleClock {
            staleness_ns: cfg.staleness_ns,
            sample_ns: if cfg.sample_ns < 1 { 1 } else { cfg.sample_ns },
            last_ref_ts: 0,
            have_ref: false,
            next_sample: 0,
            started: false,
        }
    }

    /// A valid reference price arrived at `now`; `changed` says whether it
    /// differs from the last one. Only the first reference or a NEW value
    /// refreshes the staleness clock: a frozen feed repeating the same price
    /// still goes stale.
    pub fn note_reference(&mut self, now: u64, changed: bool)
        ensures
            final(self).seen_ref(),
            !old(self).seen_ref() || changed ==> final(self).last_ref_change() == now,
            old(self).seen_ref() && !changed ==> final(self).last_ref_change() == old(self).last_ref_change(),
            final(self).staleness_limit() == old(self).staleness_limit(),
            final(self).period() == old(self).period(),
            final(self).next_sample_at() == old(self).next_sample_at(),
            final(self).sampling_started() == old(self).sampling_started(),
    {
        proof {
            use_type_invariant(&*self);
        }
        if !self.have_ref || changed {
            self.last_ref_ts = now;
        }
        self.have_ref = true;
    }

    /// Whether the reference is stale at `now`: no reference seen yet, or
    /// the last change is STRICTLY more than the limit ago.
    pub fn is_stale(&self, now: u64) -> (r: bool)
        ensures
            r == (!self.seen_ref() || now - self.last_ref_change() > self.staleness_limit()),
    {
        if !self.have_ref {
            return true;
        }
        now.saturating_sub(self.last_ref_ts) > self.staleness_ns
    }

    /// Whether the cadence's next tick after `now` still fits the clock, as
    /// [`OracleClock::sample_due`] needs before it may advance the cadence.
    pub fn sample_fits(&self, now: u64) -> (r: bool)
        ensures
            r == ({
                let base = if self.sampling_started() { self.next_sample_at() as int } else { now as int };
                base <= now ==> next_tick(base, now as int, self.period() as int) <= u64::MAX
            }),
    {
        proof {
            use_type_invariant(self);
        }
        let base: u64 = if self.started { self.next_sample } else { now };
        if base > now {
            return true;
        }
        let s = self.sample_ns;
        let q: u64 = (now - base) / s;
        let ghost d: int = now - base;
        assert(q * s <= d && d < (q + 1) * s) by (nonlinear_arith)
            requires
                s >= 1,
                q == d / (s as int),
                d >= 0,
        ;
        assert((q + 1) * s <= d + s) by (nonlinear_arith)
            requires
                q * s <= d,
        ;
        assert((q as u128 + 1) * (s as u128) == (q + 1) * s);
        let step: u128 = (q as u128 + 1) * (s as u128);
        let next: u128 = base as u128 + step;
        assert(next == next_tick(base as int, now as int, s as int));
        next <= 0xFFFF_FFFF_FFFF_FFFFu128
    }

    /// Whether a gap sample is due at `now`. The first call anchors the
    /// cadence at `now`; when due, the next tick moves to the first cadence
    /// tick strictly after `now`.
    pub fn sample_due(&mut self, now: u64) -> (due: bool)
        requires
            ({
                let base = if old(self).sampling_started() { old(self).next_sample_at() as int } else { now as int };
                base <= now ==> next_tick(base, now as int, old(self).period() as int) <= u64::MAX
            }),
        ensures
            ({
                let base = if old(self).sampling_started() { old(self).next_sample_at() as int } else { now as int };
                &&& due == (base <= now)
                &&& due ==> final(self).next_sample_at() == next_tick(base, now as int, old(self).period() as int)
                &&& !due ==> final(self).next_sample_at() == old(self).next_sample_at()
            }),
            final(self).sampling_started(),
            final(self).staleness_limit() == old(self).staleness_limit(),
            final(self).period() == old(self).period(),
            final(self).last_ref_change() == old(self).last_ref_change(),
            final(self).seen_ref() == old(self).seen_ref(),
    {
        proof {
            use_type_invariant(&*self);
        }
        if !self.started {
            self.next_sample = now;
            self.started = true;
        }
        if now < self.next_sample {
            return false;
        }
        let ghost base = self.next_sample as int;
        let ghost s = self.sample_ns as int;
        let ghost fin = next_tick(base, now as int, s);
        let ghost mut j: int = 0;
        while self.next_sample <= now
            invariant
                self.sample_ns as int == s,
                self.started,
                self.staleness_ns == old(self).staleness_ns,
                self.last_ref_ts == old(self).last_ref_ts,
                self.have_ref == old(self).have_ref,
                s >= 1,
                base <= now,
                fin == next_tick(base, now as int, s),
                fin <= u64::MAX,
                j >= 0,
                self.next_sample as int == base + j * s,
                self.next_sample as int <= fin,
            decreases fin - self.next_sample as int,
        {
            proof {
                lemma_tick_before_final(base, now as int, s, j);
                assert(base + j * s + s == base + (j + 1) * s) by (nonlinear_arith);
            }
            self.next_sample = self.next_sample + self.sample_ns;
            proof {
                j = j + 1;
                assert(base + (j - 1) * s + s == base + j * s) by (nonlinear_arith);
            }
        }
        proof {
            lemma_tick_is_final(base, now as int, s, j);
        }
        true
    }
}

proof fn lemma_tick_before_final(base: int, now: int, s: int, j: int)
    requires
        s >= 1,
        base <= now,
        j >= 0,
        base + j * s <= now,
    ensures
        base + (j + 1) * s <= next_tick(base, now, s),
{
    let q = (now - base) / s;
    assert(q * s <= now - base) by (nonlinear_arith)
        requires
            s >= 1,
            now - base >= 0,
            q == (now - base) / s,
    ;
    assert((now - base) < (q + 1) * s) by (nonlinear_arith)
        requires
            s >= 1,
            now - base >= 0,
            q == (now - base) / s,
    ;
    assert(j * s < (q + 1) * s);
    assert(j < q + 1) by (nonlinear_arith)
        requires
            s >= 1,
            j * s < (q + 1) * s,
    ;
    assert((j + 1) * s <= (q + 1) * s) by (nonlinear_arith)
        requires
            s >= 1,
            j + 1 <= q + 1,
    ;
}

proof fn lemma_tick_is_final(base: int, now: int, s: int, j: int)
    requires
        s >= 1,
        base <= now,
        j >= 0,
        base + j * s > now,
        base + j * s <= next_tick(base, now, s),
    ensures
        base + j * s == next_tick(base, now, s),
{
    let q = (now - base) / s;
    assert(q * s <= now - base) by (nonlinear_arith)
        requires
            s >= 1,
            now - base >= 0,
            q == (now - base) / s,
    ;
    assert(j * s > q * s);
    assert(j > q) by (nonlinear_arith)
        requires
            s >= 1,
            j * s > q * s,
    ;
    assert(j * s <= (q + 1) * s);
    assert(j <= q + 1) by (nonlinear_arith)
        requires
            s >= 1,
            j * s <= (q + 1) * s,
    ;
}

/// A rolling window over the most recent `window` samples (the oracle's and
/// the basis signal's gap ring). Pushing into a full window evicts the
/// oldest sample and hands it back so the caller can keep a running sum.
pub struct RollingWindow<T> {
    ring: Vec<T>,
    pos: usize,
    window: usize,
}

impl<T: Copy> RollingWindow<T> {
    /// Capacity.
    pub closed spec fn capacity(&self) -> nat {
        self.window as nat
    }

    /// The samples held, oldest first.
    pub closed spec fn samples(&self) -> Seq<T> {
        if self.ring@.len() < self.window {
            self.ring@
        } else {
            self.ring@.subrange(self.pos as int, self.ring@.len() as int) + self.ring@.subrange(0, self.pos as int)
        }
    }

    /// Internal layout: the ring never exceeds the capacity, and the write
    /// position stays at the front until the ring is full.
    pub closed spec fn wf(&self) -> bool {
        &&& self.window >= 1
        &&& self.ring@.len() <= self.window
        &&& self.pos < self.window
        &&& self.ring@.len() < self.window ==> self.pos == 0
    }

    /// An empty window of capacity `window` (at least 1).
    pub fn new(window: usize) -> (r: Self)
        requires
            window >= 1,
        ensures
            r.wf(),
            r.capacity() == window,
            r.samples() == Seq::<T>::empty(),
    {
        RollingWindow { ring: Vec::new(), pos: 0, window }
    }

    /// Number of samples held.
    pub fn len(&self) -> (r: usize)
        requires
            self.wf(),
        ensures
            r == self.samples().len(),
    {
        self.ring.len()
    }

    /// Push a sample. Until the window is full it is appended and nothing is
    /// evicted; once full, the oldest sample is evicted and returned.
    pub fn push(&mut self, g: T) -> (evicted: Option<T>)
        requires
            old(self).wf(),
        ensures
            final(self).wf(),
            final(self).capacity() == old(self).capacity(),
            old(self).samples().len() < old(self).capacity() ==> evicted is None && final(self).samples()
                == old(self).samples().push(g),
            old(self).samples().len() == old(self).capacity() ==> evicted == Some(old(self).samples()[0])
                && final(self).samples() == old(self).samples().drop_first().push(g),
    {
        if self.ring.len() < self.window {
            self.ring.push(g);
            proof {
                if self.ring@.len() == self.window {
                    assert(self.ring@.subrange(0, self.ring@.len() as int) == self.ring@);
                    assert(self.ring@.subrange(0, 0) == Seq::<T>::empty());
                    assert(self.samples() =~= old(self).samples().push(g));
                }
            }
            None
        } else {
            let ghost r0 = self.ring@;
            let ghost p = self.pos as int;
            let ghost n = r0.len() as int;
            let old_v = self.ring[self.pos];
            self.ring.set(self.pos, g);
            self.pos = if self.pos + 1 == self.window { 0 } else { self.pos + 1 };
            proof {
                let r1 = self.ring@;
                let olds = r0.subrange(p, n) + r0.subrange(0, p);
                assert(olds[0] == old_v);
                let news = self.samples();
                assert(news =~= olds.drop_first().push(g)) by {
                    if p + 1 == n {
                        assert(self.pos == 0);
                        assert(news =~= r1.subrange(0, n) + r1.subrange(0, 0));
                    }
                }
            }
            Some(old_v)
        }
    }
}

/// The inventory position cap: a quote is suppressed if its fill would push
/// the absolute signed position STRICTLY above `pos_cap`, and every quote is
/// suppressed when the cap is smaller than one quote.
#[derive(Clone, Copy, Debug, PartialEq, Eq, Structural)]
pub struct PositionLimits {
    pos_cap: i64,
    quote_qty: i64,
}

/// Absolute value.
pub open spec fn abs(v: int) -> int {
    if v < 0 { -v } else { v }
}

impl PositionLimits {
    /// The cap on |position| (raw base quantity).
    pub closed spec fn cap(&self) -> i64 {
        self.pos_cap
    }

    /// One quote's size (raw base quantity).
    pub closed spec fn quote(&self) -> i64 {
        self.quote_qty
    }

    /// The ranges the constructor guarantees: a non-negative cap and a
    /// positive quote size.
    pub open spec fn valid(&self) -> bool {
        self.cap() >= 0 && self.quote() >= 1
    }

    /// Limits with `pos_cap` floored at 0 and `quote_qty` at 1 (their valid
    /// ranges: a quote always has positive size).
    pub fn new(pos_cap: i64, quote_qty: i64) -> (r: Self)
        ensures
            r.cap() == (if pos_cap < 0 { 0 } else { pos_cap }),
            r.quote() == (if quote_qty < 1 { 1 } else { quote_qty }),
            r.valid(),
    {
        PositionLimits { pos_cap: if pos_cap < 0 { 0 } else { pos_cap }, quote_qty: if quote_qty < 1 { 1 } else { quote_qty } }
    }

    /// The cap on |position|.
    pub fn pos_cap(&self) -> (r: i64)
        ensures
            r == self.cap(),
    {
        self.pos_cap
    }

    /// One quote's size.
    pub fn quote_qty(&self) -> (r: i64)
        ensures
            r == self.quote(),
    {
        self.quote_qty
    }

    /// True if the cap is too small to ever rest a single quote.
    pub fn cap_too_small(&self) -> (r: bool)
        ensures
            r == (self.cap() < self.quote()),
    {
        self.pos_cap < self.quote_qty
    }

    /// The signed position after one quote fills on `side`: a buy adds a
    /// quote, a sell removes one (saturating).
    pub open spec fn after_fill(&self, position: i64, side: Side) -> i64 {
        match side {
            Side::Bid => clamp_i64(position + self.quote()),
            Side::Ask => clamp_i64(position - self.quote()),
        }
    }

    /// The signed position after one quote fills on `side`.
    pub fn resulting_position(&self, position: i64, side: Side) -> (r: i64)
        ensures
            r == self.after_fill(position, side),
    {
        match side {
            Side::Bid => saturating_add_i64(position, self.quote_qty),
            Side::Ask => saturating_sub_i64(position, self.quote_qty),
        }
    }

    /// Whether a quote on `side` may rest at signed `position`.
    pub open spec fn permits(&self, position: i64, side: Side) -> bool {
        self.cap() >= self.quote() && abs(self.after_fill(position, side) as int) <= abs(self.cap() as int)
    }

    /// Whether a new quote on `side` is allowed at the signed `position`:
    /// not when the cap is smaller than one quote, nor when its fill would
    /// push |position| STRICTLY above the cap.
    pub fn allows(&self, position: i64, side: Side) -> (r: bool)
        ensures
            r == self.permits(position, side),
    {
        if self.cap_too_small() {
            return false;
        }
        let p = self.resulting_position(position, side);
        let c = if self.pos_cap < 0 { -(self.pos_cap as i128) } else { self.pos_cap as i128 };
        let a = if p < 0 { -(p as i128) } else { p as i128 };
        a <= c
    }
}


/// An instruction from the quoting logic to the engine.
#[derive(Clone, Copy, Debug, PartialEq, Eq, Structural)]
pub enum QuoteAction {
    /// Rest a maker limit order, addressed by a fresh client `id`.
    Place { id: u64, side: Side, price: i64, qty: i64 },
    /// Cancel the resting order with client `id`.
    Cancel { id: u64 },
    /// Cross the spread now (taker).
    Market { side: Side, qty: i64 },
}

/// The single live entry quote being tracked.
#[derive(Clone, Copy, Debug, PartialEq, Eq, Structural)]
pub struct RestingQuote {
    /// Client id assigned at placement.
    pub id: u64,
    /// Resting side (a bid below fair value, an ask above it).
    pub side: Side,
    /// Raw resting price.
    pub price_raw: i64,
}

/// What the caller measured from the oracle this event, against the quote
/// configuration's bands (all in bps of fair value).
#[derive(Clone, Copy, Debug, PartialEq, Eq, Structural)]
pub struct EntryView {
    /// Fair value and a warmed-up deviation are both available.
    pub ready: bool,
    /// Reversion side from the deviation's sign: HL rich (dev > 0) rests an
    /// `Ask`, HL cheap (dev < 0) a `Bid`; `None` when dev is exactly 0.
    pub side: Option<Side>,
    /// `|dev| <= exit_bps`: the dislocation has reverted.
    pub reverted: bool,
    /// `|dev| >= danger_bps`: the basis has widened into a run-over.
    pub at_danger: bool,
    /// `entry_threshold_bps <= |dev| < danger_bps`: the entry band.
    pub in_band: bool,
    /// Target resting price for a bid (fair value less the effective
    /// offset), if representable.
    pub target_bid: Option<i64>,
    /// Target resting price for an ask (fair value plus the effective
    /// offset), if representable.
    pub target_ask: Option<i64>,
    /// The target for the tracked quote's side is within the reprice
    /// tolerance of its resting price.
    pub within_tol: bool,
}

/// The target price the view gives for `side`.
pub open spec fn target_for(v: EntryView, side: Side) -> Option<i64> {
    match side {
        Side::Bid => v.target_bid,
        Side::Ask => v.target_ask,
    }
}

/// `u64` addition saturating at the end of the clock.
pub open spec fn sat_add(a: u64, b: u64) -> u64 {
    if a + b > u64::MAX {
        u64::MAX
    } else {
        (a + b) as u64
    }
}

/// `|pos|` as a quantity, as `pos.unsigned_abs() as i64` gives it (the
/// most negative position maps to itself).
pub open spec fn abs_qty(pos: i64) -> i64 {
    if pos == i64::MIN {
        i64::MIN
    } else if pos < 0 {
        (-pos) as i64
    } else {
        pos
    }
}

/// The side that flattens a signed position: long sells, short buys.
pub open spec fn exit_side(pos: i64) -> Side {
    if pos > 0 {
        Side::Ask
    } else {
        Side::Bid
    }
}

fn qty_of_position(pos: i64) -> (r: i64)
    ensures
        r == abs_qty(pos),
{
    if pos == i64::MIN {
        i64::MIN
    } else if pos < 0 {
        -pos
    } else {
        pos
    }
}

/// The tracking state of the entry-quote lifecycle: the resting quote, the
/// danger-pull watchdog deadline, and the next client id.
pub type QuoteState = (Option<RestingQuote>, Option<u64>, u64);

/// The lifecycle's bookkeeping invariant: a tracked quote and an armed
/// danger watchdog never coexist, a tracked quote carries an id that was
/// already handed out (below the next id), and ids start at 1.
pub open spec fn quote_state_ok(st: QuoteState) -> bool {
    &&& !(st.0 is Some && st.1 is Some)
    &&& st.0 is Some ==> st.0->0.id < st.2
    &&& st.2 >= 1
}

/// Cancel the tracked quote, if any, and stop tracking it.
pub open spec fn cancel_spec(st: QuoteState) -> (QuoteState, Seq<QuoteAction>) {
    match st.0 {
        Some(rq) => ((None, st.1, st.2), seq![QuoteAction::Cancel { id: rq.id }]),
        None => (st, Seq::empty()),
    }
}

/// Entry-quote lifecycle while FLAT, as a decision table:
/// - no ready fair value / deviation: cancel any tracked quote;
/// - with a tracked quote: a run-over on its side pulls it and arms the
///   watchdog; a reverted, flipped or inventory-suppressed dislocation
///   cancels it; otherwise it is kept while its target is within tolerance
///   (or not representable), else repriced (cancel, then place anew);
/// - without one: nothing while a danger pull is unresolved; else a fresh
///   quote on the reversion side when the deviation is in the entry band and
///   the cap allows it.
pub open spec fn entry_spec(
    st: QuoteState,
    qty: i64,
    deadline: u64,
    pos: i64,
    v: EntryView,
    lim: PositionLimits,
) -> (QuoteState, Seq<QuoteAction>) {
    if !v.ready {
        cancel_spec(st)
    } else {
        match st.0 {
            Some(rq) => {
                let flipped = v.side is Some && v.side->0 != rq.side;
                if v.at_danger && v.side == Some(rq.side) {
                    ((None, Some(deadline), st.2), seq![QuoteAction::Cancel { id: rq.id }])
                } else if v.reverted || flipped || !lim.permits(pos, rq.side) {
                    ((None, st.1, st.2), seq![QuoteAction::Cancel { id: rq.id }])
                } else {
                    match target_for(v, rq.side) {
                        None => (st, Seq::empty()),
                        Some(t) => if v.within_tol {
                            (st, Seq::empty())
                        } else {
                            (
                                (Some(RestingQuote { id: st.2, side: rq.side, price_raw: t }), st.1, (st.2 + 1) as u64),
                                seq![
                                    QuoteAction::Cancel { id: rq.id },
                                    QuoteAction::Place { id: st.2, side: rq.side, price: t, qty },
                                ],
                            )
                        },
                    }
                }
            },
            None => {
                if st.1 is Some {
                    (st, Seq::empty())
                } else {
                    match v.side {
                        None => (st, Seq::empty()),
                        Some(side) => if v.in_band && lim.permits(pos, side) {
                            match target_for(v, side) {
                                Some(t) => (
                                    (Some(RestingQuote { id: st.2, side, price_raw: t }), st.1, (st.2 + 1) as u64),
                                    seq![QuoteAction::Place { id: st.2, side, price: t, qty }],
                                ),
                                None => (st, Seq::empty()),
                            }
                        } else {
                            (st, Seq::empty())
                        },
                    }
                }
            },
        }
    }
}

/// Whether the entry lifecycle places a quote (the one path that takes a
/// fresh client id), per [`entry_spec`]: a reprice of a tracked quote that
/// is neither pulled nor cancelled and whose target left the tolerance, or,
/// with nothing tracked and no danger pull unresolved, an in-band
/// dislocation on a side the cap allows with a representable target.
pub open spec fn entry_places(st: QuoteState, pos: i64, v: EntryView, lim: PositionLimits) -> bool {
    v.ready && match st.0 {
        Some(rq) => {
            let flipped = v.side is Some && v.side->0 != rq.side;
            &&& !(v.at_danger && v.side == Some(rq.side))
            &&& !(v.reverted || flipped || !lim.permits(pos, rq.side))
            &&& target_for(v, rq.side) is Some
            &&& !v.within_tol
        },
        None => {
            &&& st.1 is None
            &&& v.side is Some
            &&& v.in_band
            &&& lim.permits(pos, v.side->0)
            &&& target_for(v, v.side->0) is Some
        },
    }
}

/// The emergency flatten: once a danger pull's deadline has passed, the
/// watchdog clears; if the pull lost the race to a fill (non-zero position)
/// the quote is forgotten and a taker market order flattens the position.
pub open spec fn flatten_spec(st: QuoteState, now: u64, pos: i64) -> (QuoteState, Option<QuoteAction>) {
    match st.1 {
        None => (st, None),
        Some(dl) => if now < dl {
            (st, None)
        } else if pos != 0 {
            ((None, None, st.2), Some(QuoteAction::Market { side: exit_side(pos), qty: abs_qty(pos) }))
        } else {
            ((st.0, None, st.2), None)
        },
    }
}

/// Owns the single resting ENTRY quote's lifecycle while flat (where to
/// rest it, when to keep / reprice / pull it) and the danger-pull watchdog
/// that surfaces an emergency flatten.
pub struct QuoteLifecycle {
    resting: Option<RestingQuote>,
    danger_deadline: Option<u64>,
    next_id: u64,
    quote_qty: i64,
    cancel_latency_ns: u64,
    ack_timeout_ns: u64,
}

impl QuoteLifecycle {
    /// Tracking state.
    pub closed spec fn state(&self) -> QuoteState {
        (self.resting, self.danger_deadline, self.next_id)
    }

    /// Every lifecycle keeps [`quote_state_ok`].
    #[verifier::type_invariant]
    spec fn bookkeeping_ok(&self) -> bool {
        quote_state_ok(self.state())
    }

    /// Size of one quote (raw).
    pub closed spec fn qty(&self) -> i64 {
        self.quote_qty
    }

    /// Cancel/reprice latency (ns).
    pub closed spec fn cancel_latency(&self) -> u64 {
        self.cancel_latency_ns
    }

    /// Acknowledgement timeout (ns) after the cancel latency.
    pub closed spec fn ack_timeout(&self) -> u64 {
        self.ack_timeout_ns
    }

    /// The watchdog deadline a danger pull at `now` arms.
    pub open spec fn pull_deadline(&self, now: u64) -> u64 {
        sat_add(sat_add(now, self.cancel_latency()), self.ack_timeout())
    }

    /// A lifecycle with nothing tracked; client ids start at 1 (0 is
    /// reserved for taker orders).
    pub fn new(quote_qty: i64, cancel_latency_ns: u64, ack_timeout_ns: u64) -> (r: Self)
        ensures
            r.state() == (None::<RestingQuote>, None::<u64>, 1u64),
            r.qty() == quote_qty,
            r.cancel_latency() == cancel_latency_ns,
            r.ack_timeout() == ack_timeout_ns,
    {
        QuoteLifecycle { resting: None, danger_deadline: None, next_id: 1, quote_qty, cancel_latency_ns, ack_timeout_ns }
    }

    /// Whether an entry quote is currently tracked as resting.
    pub fn has_resting(&self) -> (r: bool)
        ensures
            r == self.state().0 is Some,
    {
        self.resting.is_some()
    }

    /// The tracked resting quote; the lifecycle's bookkeeping holds
    /// ([`quote_state_ok`]).
    pub fn resting(&self) -> (r: Option<RestingQuote>)
        ensures
            r == self.state().0,
            quote_state_ok(self.state()),
    {
        proof {
            use_type_invariant(self);
        }
        self.resting
    }

    /// The id the next placed quote will carry; the lifecycle's bookkeeping
    /// holds ([`quote_state_ok`]).
    pub fn next_quote_id(&self) -> (r: u64)
        ensures
            r == self.state().2,
            quote_state_ok(self.state()),
    {
        proof {
            use_type_invariant(self);
        }
        self.next_id
    }

    /// Whether [`QuoteLifecycle::on_event`] places a quote on this event:
    /// no emergency flatten fires, the oracle is not quiet, the position is
    /// flat, and the entry lifecycle places.
    pub open spec fn places_on_event(&self, now: u64, pos: i64, quiet: bool, v: EntryView, lim: PositionLimits) -> bool {
        let (st1, fl) = flatten_spec(self.state(), now, pos);
        fl is None && !quiet && pos == 0 && entry_places(st1, pos, v, lim)
    }

    /// Decides [`QuoteLifecycle::places_on_event`] without acting.
    pub fn may_place(&self, now: u64, pos: i64, quiet: bool, v: EntryView, lim: &PositionLimits) -> (r: bool)
        ensures
            r == self.places_on_event(now, pos, quiet, v, *lim),
    {
        let (resting, pending) = match self.danger_deadline {
            None => (self.resting, None),
            Some(dl) => {
                if now < dl {
                    (self.resting, Some(dl))
                } else if pos != 0 {
                    return false;
                } else {
                    (self.resting, None)
                }
            },
        };
        if quiet || pos != 0 || !v.ready {
            return false;
        }
        match resting {
            Some(rq) => {
                let flipped = match v.side {
                    Some(s) => s != rq.side,
                    None => false,
                };
                let same_side = match v.side {
                    Some(s) => s == rq.side,
                    None => false,
                };
                let target = match rq.side {
                    Side::Bid => v.target_bid,
                    Side::Ask => v.target_ask,
                };
                !(v.at_danger && same_side) && !(v.reverted || flipped || !lim.allows(pos, rq.side))
                    && target.is_some() && !v.within_tol
            },
            None => match v.side {
                Some(side) => {
                    let target = match side {
                        Side::Bid => v.target_bid,
                        Side::Ask => v.target_ask,
                    };
                    pending.is_none() && v.in_band && lim.allows(pos, side) && target.is_some()
                },
                None => false,
            },
        }
    }

    /// Cancel any tracked entry quote (without arming the watchdog). The
    /// order stays fillable in the engine until the cancel lands.
    pub fn pull_quote(&mut self, out: &mut Vec<QuoteAction>)
        ensures
            (final(self).state(), final(out)@.subrange(old(out)@.len() as int, final(out)@.len() as int))
                == cancel_spec(old(self).state()),
            final(out)@.len() >= old(out)@.len(),
            final(out)@.subrange(0, old(out)@.len() as int) == old(out)@,
            final(self).qty() == old(self).qty(),
            final(self).cancel_latency() == old(self).cancel_latency(),
            final(self).ack_timeout() == old(self).ack_timeout(),
    {
        proof {
            use_type_invariant(&*self);
        }
        let ghost o = out@;
        if let Some(rq) = self.resting {
            out.push(QuoteAction::Cancel { id: rq.id });
            self.resting = None;
            assert(out@.subrange(o.len() as int, out@.len() as int) =~= seq![QuoteAction::Cancel { id: rq.id }]);
        } else {
            assert(out@.subrange(o.len() as int, out@.len() as int) =~= Seq::<QuoteAction>::empty());
        }
        assert(out@.subrange(0, o.len() as int) =~= o);
    }

    /// Entry-quote lifecycle while FLAT (place / keep / reprice / pull /
    /// cancel), per [`entry_spec`].
    pub fn manage_entry(
        &mut self,
        now: u64,
        pos: i64,
        v: EntryView,
        lim: &PositionLimits,
        out: &mut Vec<QuoteAction>,
    )
        requires
            old(self).state().2 < u64::MAX || !entry_places(old(self).state(), pos, v, *lim),
        ensures
            (final(self).state(), final(out)@.subrange(old(out)@.len() as int, final(out)@.len() as int))
                == entry_spec(old(self).state(), old(self).qty(), old(self).pull_deadline(now), pos, v, *lim),
            final(out)@.len() >= old(out)@.len(),
            final(out)@.subrange(0, old(out)@.len() as int) == old(out)@,
            final(self).qty() == old(self).qty(),
            final(self).cancel_latency() == old(self).cancel_latency(),
            final(self).ack_timeout() == old(self).ack_timeout(),
    {
        proof {
            use_type_invariant(&*self);
        }
        let ghost o = out@;
        if !v.ready {
            self.pull_quote(out);
            return;
        }
        match self.resting {
            Some(rq) => {
                let flipped = match v.side {
                    Some(s) => s != rq.side,
                    None => false,
                };
                let same_side = match v.side {
                    Some(s) => s == rq.side,
                    None => false,
                };
                if v.at_danger && same_side {
                    out.push(QuoteAction::Cancel { id: rq.id });
                    self.resting = None;
                    let d = now.saturating_add(self.cancel_latency_ns).saturating_add(self.ack_timeout_ns);
                    self.danger_deadline = Some(d);
                    assert(out@.subrange(o.len() as int, out@.len() as int) =~= seq![QuoteAction::Cancel { id: rq.id }]);
                } else if v.reverted || flipped || !lim.allows(pos, rq.side) {
                    out.push(QuoteAction::Cancel { id: rq.id });
                    self.resting = None;
                    assert(out@.subrange(o.len() as int, out@.len() as int) =~= seq![QuoteAction::Cancel { id: rq.id }]);
                } else {
                    let target = match rq.side {
                        Side::Bid => v.target_bid,
                        Side::Ask => v.target_ask,
                    };
                    match target {
                        None => {
                            assert(out@.subrange(o.len() as int, out@.len() as int) =~= Seq::<QuoteAction>::empty());
                        },
                        Some(t) => {
                            if v.within_tol {
                                assert(out@.subrange(o.len() as int, out@.len() as int) =~= Seq::<QuoteAction>::empty());
                            } else {
                                out.push(QuoteAction::Cancel { id: rq.id });
                                let id = self.next_id;
                                self.next_id = self.next_id + 1;
                                out.push(QuoteAction::Place { id, side: rq.side, price: t, qty: self.quote_qty });
                                self.resting = Some(RestingQuote { id, side: rq.side, price_raw: t });
                                assert(out@.subrange(o.len() as int, out@.len() as int) =~= seq![
                                    QuoteAction::Cancel { id: rq.id },
                                    QuoteAction::Place { id, side: rq.side, price: t, qty: self.quote_qty },
                                ]);
                            }
                        },
                    }
                }
            },
            None => {
                let mut placed = false;
                if self.danger_deadline.is_none() {
                    if let Some(side) = v.side {
                        if v.in_band && lim.allows(pos, side) {
                            let target = match side {
                                Side::Bid => v.target_bid,
                                Side::Ask => v.target_ask,
                            };
                            if let Some(t) = target {
                                let id = self.next_id;
                                self.next_id = self.next_id + 1;
                                out.push(QuoteAction::Place { id, side, price: t, qty: self.quote_qty });
                                self.resting = Some(RestingQuote { id, side, price_raw: t });
                                placed = true;
                                assert(out@.subrange(o.len() as int, out@.len() as int) =~= seq![
                                    QuoteAction::Place { id, side, price: t, qty: self.quote_qty },
                                ]);
                            }
                        }
                    }
                }
                if !placed {
                    assert(out@.subrange(o.len() as int, out@.len() as int) =~= Seq::<QuoteAction>::empty());
                }
            },
        }
        assert(out@.subrange(0, o.len() as int) =~= o);
    }

    /// If a danger pull is in flight and its deadline has passed: clear the
    /// watchdog and, if the position is non-zero (the quote filled before
    /// the cancel landed), return the taker market flatten, per
    /// [`flatten_spec`].
    pub fn take_emergency_flatten(&mut self, now: u64, pos: i64) -> (r: Option<QuoteAction>)
        ensures
            (final(self).state(), r) == flatten_spec(old(self).state(), now, pos),
            final(self).qty() == old(self).qty(),
            final(self).cancel_latency() == old(self).cancel_latency(),
            final(self).ack_timeout() == old(self).ack_timeout(),
    {
        proof {
            use_type_invariant(&*self);
        }
        let dl = match self.danger_deadline {
            Some(d) => d,
            None => {
                return None;
            },
        };
        if now < dl {
            return None;
        }
        self.danger_deadline = None;
        if pos != 0 {
            self.resting = None;
            let side = if pos > 0 { Side::Ask } else { Side::Bid };
            Some(QuoteAction::Market { side, qty: qty_of_position(pos) })
        } else {
            None
        }
    }

    /// Standalone driver: in priority order, a due emergency flatten; else,
    /// with a stale / missing / unready fair value (`quiet`), pull any
    /// resting quote and place nothing; when FLAT run the entry lifecycle;
    /// while IN POSITION cancel any stray entry quote.
    pub fn on_event(
        &mut self,
        now: u64,
        pos: i64,
        quiet: bool,
        v: EntryView,
        lim: &PositionLimits,
        out: &mut Vec<QuoteAction>,
    )
        requires
            old(self).state().2 < u64::MAX || !old(self).places_on_event(now, pos, quiet, v, *lim),
        ensures
            ({
                let (st1, fl) = flatten_spec(old(self).state(), now, pos);
                let added = final(out)@.subrange(old(out)@.len() as int, final(out)@.len() as int);
                &&& fl is Some ==> final(self).state() == st1 && added == seq![fl->0]
                &&& fl is None && (quiet || pos != 0) ==> (final(self).state(), added) == cancel_spec(st1)
                &&& fl is None && !quiet && pos == 0 ==> (final(self).state(), added) == entry_spec(
                    st1,
                    old(self).qty(),
                    old(self).pull_deadline(now),
                    pos,
                    v,
                    *lim,
                )
            }),
            final(out)@.len() >= old(out)@.len(),
            final(out)@.subrange(0, old(out)@.len() as int) == old(out)@,
            final(self).qty() == old(self).qty(),
            final(self).cancel_latency() == old(self).cancel_latency(),
            final(self).ack_timeout() == old(self).ack_timeout(),
    {
        let ghost o = out@;
        if let Some(a) = self.take_emergency_flatten(now, pos) {
            out.push(a);
            assert(out@.subrange(o.len() as int, out@.len() as int) =~= seq![a]);
            assert(out@.subrange(0, o.len() as int) =~= o);
            return;
        }
        if quiet || pos != 0 {
            self.pull_quote(out);
        } else {
            self.manage_entry(now, pos, v, lim, out);
        }
    }
}


/// The maker strategy's FLAT / IN-POSITION state machine, driven by the
/// EXCHANGE-TRUTH signed position each event:
/// 1. a due emergency flatten (a danger pull lost the race to a fill) has
///    top priority: emit it and mark the exit in flight;
/// 2. IN POSITION: never quote; cancel any stray entry quote; unless an exit
///    for this very position is already in flight, exit with a TAKER market
///    order on revert-to-mean (`exit_now`) or when the optional hold timeout
///    has elapsed since entry;
/// 3. FLAT: reset the exit guard; with a stale / missing fair value
///    (`quiet`) pull any resting quote and place nothing; else run the entry
///    lifecycle.
pub struct MakerMachine {
    quotes: QuoteLifecycle,
    hold_ns: u64,
    exiting: Option<i64>,
    in_pos: bool,
    entry_ts: u64,
}

impl MakerMachine {
    /// The entry-quote lifecycle.
    pub closed spec fn lifecycle(&self) -> QuoteLifecycle {
        self.quotes
    }

    /// Optional hold timeout (ns); 0 disables it.
    pub closed spec fn hold(&self) -> u64 {
        self.hold_ns
    }

    /// The position a taker exit is in flight for, if any.
    pub closed spec fn exit_in_flight(&self) -> Option<i64> {
        self.exiting
    }

    /// Whether the machine is tracking an open position.
    pub closed spec fn in_position(&self) -> bool {
        self.in_pos
    }

    /// When the tracked position was first seen.
    pub closed spec fn entered_at(&self) -> u64 {
        self.entry_ts
    }

    /// A flat machine around an entry-quote lifecycle.
    pub fn new(quotes: QuoteLifecycle, hold_ns: u64) -> (r: Self)
        ensures
            r.lifecycle() == quotes,
            r.hold() == hold_ns,
            r.exit_in_flight() is None,
            !r.in_position(),
            r.entered_at() == 0,
    {
        MakerMachine { quotes, hold_ns, exiting: None, in_pos: false, entry_ts: 0 }
    }

    /// The id the next placed entry quote will carry.
    pub fn next_quote_id(&self) -> (r: u64)
        ensures
            r == self.lifecycle().state().2,
    {
        self.quotes.next_quote_id()
    }

    /// Whether [`MakerMachine::on_event`] places an entry quote on this
    /// event (see [`QuoteLifecycle::places_on_event`]).
    pub fn may_place(&self, now: u64, pos: i64, quiet: bool, v: EntryView, lim: &PositionLimits) -> (r: bool)
        ensures
            r == self.lifecycle().places_on_event(now, pos, quiet, v, *lim),
    {
        self.quotes.may_place(now, pos, quiet, v, lim)
    }

    /// Whether an entry quote is tracked as resting.
    pub fn has_resting(&self) -> (r: bool)
        ensures
            r == self.lifecycle().state().0 is Some,
    {
        self.quotes.has_resting()
    }

    /// The tracked resting entry quote.
    pub fn resting(&self) -> (r: Option<RestingQuote>)
        ensures
            r == self.lifecycle().state().0,
    {
        self.quotes.resting()
    }

    /// One event of the state machine (see the type's documentation).
    pub fn on_event(
        &mut self,
        now: u64,
        pos: i64,
        exit_now: bool,
        quiet: bool,
        v: EntryView,
        lim: &PositionLimits,
        out: &mut Vec<QuoteAction>,
    )
        requires
            old(self).lifecycle().state().2 < u64::MAX || !old(self).lifecycle().places_on_event(now, pos, quiet, v, *lim),
        ensures
            ({
                let q0 = old(self).lifecycle();
                let (st1, fl) = flatten_spec(q0.state(), now, pos);
                let added = final(out)@.subrange(old(out)@.len() as int, final(out)@.len() as int);
                let (st2, pulled) = cancel_spec(st1);
                let entry_ts = if old(self).in_position() { old(self).entered_at() } else { now };
                let timed_out = old(self).hold() > 0 && now - entry_ts >= old(self).hold();
                &&& fl is Some ==> final(self).lifecycle().state() == st1 && added == seq![fl->0]
                    && final(self).exit_in_flight() == Some(pos)
                    && final(self).in_position() == old(self).in_position()
                    && final(self).entered_at() == old(self).entered_at()
                &&& fl is None && pos != 0 ==> {
                    &&& final(self).in_position()
                    &&& final(self).entered_at() == entry_ts
                    &&& final(self).lifecycle().state() == st2
                    &&& old(self).exit_in_flight() == Some(pos) ==> added == pulled
                        && final(self).exit_in_flight() == Some(pos)
                    &&& old(self).exit_in_flight() != Some(pos) && (exit_now || timed_out) ==> added
                        == pulled.push(QuoteAction::Market { side: exit_side(pos), qty: abs_qty(pos) })
                        && final(self).exit_in_flight() == Some(pos)
                    &&& old(self).exit_in_flight() != Some(pos) && !(exit_now || timed_out) ==> added
                        == pulled && final(self).exit_in_flight() == old(self).exit_in_flight()
                }
                &&& fl is None && pos == 0 ==> {
                    &&& !final(self).in_position()
                    &&& final(self).entered_at() == old(self).entered_at()
                    &&& final(self).exit_in_flight() is None
                    &&& quiet ==> (final(self).lifecycle().state(), added) == cancel_spec(st1)
                    &&& !quiet ==> (final(self).lifecycle().state(), added) == entry_spec(
                        st1,
                        q0.qty(),
                        q0.pull_deadline(now),
                        pos,
                        v,
                        *lim,
                    )
                }
            }),
            final(out)@.len() >= old(out)@.len(),
            final(out)@.subrange(0, old(out)@.len() as int) == old(out)@,
            pos != 0 ==> forall|k: int|
                old(out)@.len() <= k < final(out)@.len() ==> !(#[trigger] final(out)@[k] is Place),
            quiet && pos == 0 && flatten_spec(old(self).lifecycle().state(), now, pos).1 is None
                ==> forall|k: int| old(out)@.len() <= k < final(out)@.len() ==> #[trigger] final(out)@[k] is Cancel,
            final(self).hold() == old(self).hold(),
            final(self).lifecycle().qty() == old(self).lifecycle().qty(),
            final(self).lifecycle().cancel_latency() == old(self).lifecycle().cancel_latency(),
            final(self).lifecycle().ack_timeout() == old(self).lifecycle().ack_timeout(),
    {
        let ghost o = out@;
        if let Some(f) = self.quotes.take_emergency_flatten(now, pos) {
            out.push(f);
            self.exiting = Some(pos);
            assert(out@.subrange(o.len() as int, out@.len() as int) =~= seq![f]);
            assert(out@.subrange(0, o.len() as int) =~= o);
            return;
        }
        if pos != 0 {
            if !self.in_pos {
                self.in_pos = true;
                self.entry_ts = now;
            }
            let ghost st1 = self.quotes.state();
            self.quotes.pull_quote(out);
            let ghost after_pull = out@;
            proof {
                let added = out@.subrange(o.len() as int, out@.len() as int);
                assert forall|k: int| o.len() <= k < out@.len() implies !(#[trigger] out@[k] is Place) by {
                    assert(out@[k] == added[k - o.len()]);
                    if st1.0 is Some {
                        assert(added == seq![QuoteAction::Cancel { id: st1.0->0.id }]);
                    }
                }
            }
            if self.exiting == Some(pos) {
                return;
            }
            let hold_timeout = self.hold_ns > 0 && now.saturating_sub(self.entry_ts) >= self.hold_ns;
            if exit_now || hold_timeout {
                let side = if pos > 0 { Side::Ask } else { Side::Bid };
                out.push(QuoteAction::Market { side, qty: qty_of_position(pos) });
                self.exiting = Some(pos);
                assert(out@.subrange(o.len() as int, out@.len() as int) =~= after_pull.subrange(
                    o.len() as int,
                    after_pull.len() as int,
                ).push(QuoteAction::Market { side, qty: abs_qty(pos) }));
                assert(out@.subrange(0, o.len() as int) =~= o);
                proof {
                    let added = out@.subrange(o.len() as int, out@.len() as int);
                    assert forall|k: int| o.len() <= k < out@.len() implies !(#[trigger] out@[k] is Place) by {
                        assert(out@[k] == added[k - o.len()]);
                        if k < out@.len() - 1 {
                            assert(out@[k] == after_pull[k]);
                        }
                    }
                }
            }
        } else {
            self.in_pos = false;
            self.exiting = None;
            if quiet {
                let ghost st1 = self.quotes.state();
                assert(out@ == o);
                self.quotes.pull_quote(out);
                proof {
                    let added = out@.subrange(o.len() as int, out@.len() as int);
                    assert((self.quotes.state(), added) == cancel_spec(st1));
                    assert(added.len() <= 1);
                    assert forall|k: int| o.len() <= k < out@.len() implies #[trigger] out@[k] is Cancel by {
                        assert(out@[k] == added[k - o.len()]);
                        if st1.0 is Some {
                            assert(added == seq![QuoteAction::Cancel { id: st1.0->0.id }]);
                        }
                    }
                }
            } else {
                self.quotes.manage_entry(now, pos, v, lim, out);
            }
        }
    }
}


/// A quote the cap allows never pushes |position| above the cap once it
/// fills.
pub proof fn lemma_allowed_quote_respects_cap(lim: PositionLimits, pos: i64, side: Side)
    requires
        lim.valid(),
        lim.permits(pos, side),
    ensures
        abs(lim.after_fill(pos, side) as int) <= lim.cap(),
{
}

/// A cap smaller than one quote suppresses every quote, at any position.
pub proof fn lemma_small_cap_suppresses_all(lim: PositionLimits, pos: i64, side: Side)
    requires
        lim.cap() < lim.quote(),
    ensures
        !lim.permits(pos, side),
{
}

/// Within the cap, the position-reducing side is always allowed (it shrinks
/// |position|), provided the cap fits one quote.
pub proof fn lemma_reducing_side_allowed(lim: PositionLimits, pos: i64)
    requires
        lim.valid(),
        lim.cap() >= lim.quote(),
        abs(pos as int) <= lim.cap(),
    ensures
        lim.permits(pos, exit_side(pos)),
{
}

/// The entry lifecycle never breaks its bookkeeping ([`quote_state_ok`]):
/// it tracks at most the one quote it last placed, never with a danger pull
/// outstanding; a place uses the next fresh client id (ids only grow), only
/// on a side the cap allows, and records exactly that quote; no quote is
/// placed while a danger pull is unresolved.
pub proof fn lemma_entry_places_fresh_allowed_quotes(
    st: QuoteState,
    qty: i64,
    deadline: u64,
    pos: i64,
    v: EntryView,
    lim: PositionLimits,
)
    requires
        quote_state_ok(st),
        st.2 < u64::MAX || !entry_places(st, pos, v, lim),
    ensures
        ({
            let (st2, acts) = entry_spec(st, qty, deadline, pos, v, lim);
            &&& quote_state_ok(st2)
            &&& st2.2 == st.2 || st2.2 == st.2 + 1
            &&& forall|k: int|
                0 <= k < acts.len() ==> (#[trigger] acts[k] is Place ==> {
                    &&& acts[k]->Place_id == st.2
                    &&& st2.2 == st.2 + 1
                    &&& lim.permits(pos, acts[k]->Place_side)
                    &&& st.1 is None
                    &&& st2.0 == Some(
                        RestingQuote {
                            id: st.2,
                            side: acts[k]->Place_side,
                            price_raw: acts[k]->Place_price,
                        },
                    )
                })
        }),
{
}

/// With nothing tracked, the entry lifecycle rests a fresh quote only into
/// the entry band: the fair value is ready, the deviation names a side and
/// lies in the band (at least the entry threshold, short of a run-over), no
/// danger pull is unresolved, and the cap allows that side. Outside the band
/// it emits nothing at all and tracks nothing.
pub proof fn lemma_fresh_quote_only_in_entry_band(
    st: QuoteState,
    qty: i64,
    deadline: u64,
    pos: i64,
    v: EntryView,
    lim: PositionLimits,
)
    requires
        st.0 is None,
    ensures
        ({
            let (st2, acts) = entry_spec(st, qty, deadline, pos, v, lim);
            &&& v.ready && !v.in_band ==> acts.len() == 0 && st2.0 is None
            &&& forall|k: int|
                0 <= k < acts.len() ==> (#[trigger] acts[k] is Place ==> {
                    &&& v.ready
                    &&& v.in_band
                    &&& v.side == Some(acts[k]->Place_side)
                    &&& st.1 is None
                    &&& lim.permits(pos, acts[k]->Place_side)
                })
        }),
{
}

/// Cancelling the tracked quote and the emergency flatten keep the
/// lifecycle's bookkeeping ([`quote_state_ok`]) and never hand out an id.
pub proof fn lemma_cancel_and_flatten_keep_bookkeeping(st: QuoteState, now: u64, pos: i64)
    requires
        quote_state_ok(st),
    ensures
        quote_state_ok(cancel_spec(st).0),
        cancel_spec(st).0.2 == st.2,
        quote_state_ok(flatten_spec(st, now, pos).0),
        flatten_spec(st, now, pos).0.2 == st.2,
{
}

/// The emergency flatten fires only once its deadline has passed and the
/// position is non-zero; it flattens the whole position on the reducing
/// side with a taker order, and clears the watchdog so it fires at most once.
pub proof fn lemma_emergency_flatten_once(st: QuoteState, now: u64, pos: i64, later: u64, pos2: i64)
    ensures
        ({
            let (st1, f) = flatten_spec(st, now, pos);
            &&& f is Some ==> st.1 is Some && now >= st.1->0 && pos != 0 && f == Some(
                QuoteAction::Market { side: exit_side(pos), qty: abs_qty(pos) },
            ) && st1.0 is None
            &&& f is Some ==> flatten_spec(st1, later, pos2).1 is None
        }),
{
}

} // verus!
