//! Multi-venue data feed: the execution venue's book deltas and trades plus
//! one or more reference venues' trades, stamped with a per-venue feed
//! latency (`local_ts = exch_ts + feed_latency`) and merged into one
//! deterministic, time-ordered stream.
//!
//! Timestamp contract: the source `ts`/`venueTs` columns are MILLISECONDS;
//! they are widened to nanoseconds here, failing fast on negative or
//! overflowing values. Reading the files is left to the caller, which hands
//! each row's plain values to the functions below.

use vstd::prelude::*;
use std::cmp::Ordering;
use std::path::PathBuf;
use crate::side::Side;
use crate::text::{signed_decimal, with_int, with_str};

verus! {

/// `std::path::PathBuf`, carried opaquely as the root of the tick tree.
#[verifier::external_type_specification]
#[verifier::external_body]
pub struct ExPathBuf(PathBuf);

/// `PathBuf::clone` (std): trusted to return a path; no property of the copy
/// is stated, as the path's contents are opaque here.
pub assume_specification[ <PathBuf as Clone>::clone ](p: &PathBuf) -> PathBuf;

/// Which leg an event belongs to.
#[derive(Clone, Copy, PartialEq, Eq, Debug, Structural)]
pub enum Role {
    /// The venue we trade (the execution venue).
    Exec,
    /// A reference / fair-value venue.
    Reference,
}

/// Rank of a role in the merged stream at equal timestamps.
pub open spec fn role_rank(r: Role) -> u8 {
    match r {
        Role::Exec => 0,
        Role::Reference => 1,
    }
}

impl Role {
    /// Rank of the role in the merged stream at equal timestamps:
    /// execution-venue events first.
    pub fn ord(self) -> (r: u8)
        ensures
            r == role_rank(self),
    {
        match self {
            Role::Exec => 0,
            Role::Reference => 1,
        }
    }
}

/// Event payload kind.
#[derive(Clone, Copy, PartialEq, Eq, Debug, Structural)]
pub enum LagKind {
    /// An incremental order-book level update (qty 0 = removal).
    BookDelta,
    /// A trade print.
    Trade,
}

/// Rank of a kind in the merged stream at equal timestamp and role.
pub open spec fn kind_rank(k: LagKind) -> u8 {
    match k {
        LagKind::BookDelta => 0,
        LagKind::Trade => 1,
    }
}

/// One normalized multi-venue event. Timestamps are Unix NANOSECONDS; price
/// and quantity are raw fixed-point integers.
#[derive(Clone, Copy, PartialEq, Eq, Debug, Structural)]
pub struct LagEvent {
    /// Which leg.
    pub role: Role,
    /// Payload kind.
    pub kind: LagKind,
    /// Venue timestamp (ns).
    pub exch_ts: u64,
    /// Earliest-visible timestamp = `exch_ts + feed_latency` (ns).
    pub local_ts: u64,
    /// Side where applicable (the aggressor, for a trade).
    pub side: Option<Side>,
    /// Raw fixed-point price.
    pub price: i64,
    /// Raw fixed-point quantity (0 on a book-delta removal).
    pub qty: i64,
}

/// A window-load request.
#[derive(Clone, Debug)]
pub struct FeedConfig {
    /// Root of the tick tree.
    pub root: PathBuf,
    /// Execution coin key (book directory), e.g. `BTC`.
    pub coin: String,
    /// Reference symbol key (trade directory), e.g. `BTCUSDT`.
    pub symbol: String,
    /// Date partition.
    pub date: String,
    /// Hours to load (`["00",...]`).
    pub hours: Vec<String>,
    /// Feed latency (ns) added to execution-venue events.
    pub exec_latency_ns: u64,
    /// Feed latency (ns) added to reference events.
    pub ref_latency_ns: u64,
}

/// `exch_ts + feed_latency`, saturating at the end of the clock.
pub open spec fn stamp(exch_ts: u64, latency_ns: u64) -> u64 {
    if exch_ts + latency_ns > u64::MAX {
        u64::MAX
    } else {
        (exch_ts + latency_ns) as u64
    }
}

impl LagEvent {
    /// An event first visible `latency_ns` after its venue timestamp
    /// (saturating).
    pub fn stamped(
        role: Role,
        kind: LagKind,
        exch_ts: u64,
        latency_ns: u64,
        side: Option<Side>,
        price: i64,
        qty: i64,
    ) -> (r: Self)
        ensures
            r == (LagEvent {
                role,
                kind,
                exch_ts,
                local_ts: stamp(exch_ts, latency_ns),
                side,
                price,
                qty,
            }),
    {
        LagEvent { role, kind, exch_ts, local_ts: exch_ts.saturating_add(latency_ns), side, price, qty }
    }
}

/// An event is never visible before it happened: its local timestamp is its
/// venue timestamp plus the feed latency, or the end of the clock.
pub proof fn lemma_stamp_not_before_venue(exch_ts: u64, latency_ns: u64)
    ensures
        stamp(exch_ts, latency_ns) >= exch_ts,
        exch_ts + latency_ns <= u64::MAX ==> stamp(exch_ts, latency_ns) == exch_ts + latency_ns,
{
}

/// The message of a negative source timestamp.
pub open spec fn negative_ts_msg(ms: i64) -> Seq<char> {
    "negative ts "@ + signed_decimal(ms as int)
}

/// The message of a timestamp too large to widen to nanoseconds.
pub open spec fn ts_overflow_msg() -> Seq<char> {
    "ts overflow ms->ns"@
}

/// Widen a millisecond timestamp to nanoseconds, failing fast on a negative
/// value or one whose nanosecond count does not fit an `i64`.
pub fn ms_to_ns(ms: i64) -> (r: Result<u64, String>)
    ensures
        ms < 0 ==> r is Err && r->Err_0@ == negative_ts_msg(ms),
        0 <= ms && ms * 1_000_000 <= i64::MAX ==> r == Ok::<u64, String>((ms * 1_000_000) as u64),
        0 <= ms && ms * 1_000_000 > i64::MAX ==> r is Err && r->Err_0@ == ts_overflow_msg(),
{
    if ms < 0 {
        return Err(with_int("negative ts ".to_string(), ms as i128));
    }
    match ms.checked_mul(1_000_000) {
        Some(ns) => Ok(ns as u64),
        None => Err("ts overflow ms->ns".to_string()),
    }
}

/// The aggressor of a trade row: when the buyer was the maker, the taker was
/// the seller (`Ask`); otherwise the buyer (`Bid`).
pub fn trade_aggressor(is_buyer_maker: bool) -> (r: Side)
    ensures
        r == (if is_buyer_maker { Side::Ask } else { Side::Bid }),
{
    if is_buyer_maker {
        Side::Ask
    } else {
        Side::Bid
    }
}

/// Whether `s` is exactly the text `lit`.
fn str_is(s: &str, lit: &str) -> (r: bool)
    ensures
        r == (s@ == lit@),
{
    let n = s.unicode_len();
    let m = lit.unicode_len();
    if n != m {
        return false;
    }
    let mut i: usize = 0;
    while i < n
        invariant
            n == s@.len(),
            m == lit@.len(),
            n == m,
            i <= n,
            forall|k: int| 0 <= k < i ==> s@[k] == lit@[k],
        decreases n - i,
    {
        if s.get_char(i) != lit.get_char(i) {
            return false;
        }
        i = i + 1;
    }
    assert(s@ =~= lit@);
    true
}

/// Texts naming the bid side of a book row.
pub open spec fn bid_text(s: Seq<char>) -> bool {
    s == "bid"@ || s == "buy"@ || s == "b"@
}

/// Texts naming the ask side of a book row.
pub open spec fn ask_text(s: Seq<char>) -> bool {
    s == "ask"@ || s == "sell"@ || s == "a"@
}

/// The message of an unknown side text.
pub open spec fn bad_side_msg(s: Seq<char>) -> Seq<char> {
    "bad side `"@ + s + "`"@
}

/// The side of a book row: `bid`/`buy`/`b` or `ask`/`sell`/`a`; anything else
/// is an error naming the text.
pub fn parse_book_side(s: &str) -> (r: Result<Side, String>)
    ensures
        bid_text(s@) ==> r == Ok::<Side, String>(Side::Bid),
        ask_text(s@) ==> r == Ok::<Side, String>(Side::Ask),
        !bid_text(s@) && !ask_text(s@) ==> r is Err && r->Err_0@ == bad_side_msg(s@),
{
    proof {
        reveal_strlit("bid");
        reveal_strlit("buy");
        reveal_strlit("b");
        reveal_strlit("ask");
        reveal_strlit("sell");
        reveal_strlit("a");
        if ask_text(s@) {
            assert(s@.len() > 0 && s@[0] != 'b');
        }
    }
    if str_is(s, "bid") || str_is(s, "buy") || str_is(s, "b") {
        Ok(Side::Bid)
    } else if str_is(s, "ask") || str_is(s, "sell") || str_is(s, "a") {
        Ok(Side::Ask)
    } else {
        let m = with_str("bad side `".to_string(), s);
        Err(with_str(m, "`"))
    }
}

/// `a` comes strictly before `b` in the merged stream: by local timestamp,
/// then role (execution first), then kind (book deltas first), then price.
pub open spec fn event_precedes(a: LagEvent, b: LagEvent) -> bool {
    ||| a.local_ts < b.local_ts
    ||| a.local_ts == b.local_ts && role_rank(a.role) < role_rank(b.role)
    ||| a.local_ts == b.local_ts && a.role == b.role && kind_rank(a.kind) < kind_rank(b.kind)
    ||| a.local_ts == b.local_ts && a.role == b.role && a.kind == b.kind && a.price < b.price
}

/// `a` and `b` tie in the merged stream's order.
pub open spec fn event_ties(a: LagEvent, b: LagEvent) -> bool {
    a.local_ts == b.local_ts && a.role == b.role && a.kind == b.kind && a.price == b.price
}

/// The merged stream's order is a strict total order up to ties, as a
/// stable sort by [`event_order`] needs: no event precedes itself,
/// precedence is transitive, and of two events exactly one precedes the
/// other or they tie; ties are an equivalence.
pub proof fn lemma_stream_order_is_total(a: LagEvent, b: LagEvent, c: LagEvent)
    ensures
        !event_precedes(a, a),
        event_precedes(a, b) && event_precedes(b, c) ==> event_precedes(a, c),
        event_precedes(a, b) ==> !event_precedes(b, a) && !event_ties(a, b),
        event_precedes(a, b) || event_precedes(b, a) || event_ties(a, b),
        event_ties(a, a),
        event_ties(a, b) ==> event_ties(b, a),
        event_ties(a, b) && event_ties(b, c) ==> event_ties(a, c),
{
}

/// Three-way comparison of two events by the merged stream's order.
pub fn event_order(a: &LagEvent, b: &LagEvent) -> (r: Ordering)
    ensures
        r == Ordering::Less <==> event_precedes(*a, *b),
        r == Ordering::Greater <==> event_precedes(*b, *a),
        r == Ordering::Equal <==> event_ties(*a, *b),
{
    if a.local_ts != b.local_ts {
        return if a.local_ts < b.local_ts { Ordering::Less } else { Ordering::Greater };
    }
    let ra = a.role.ord();
    let rb = b.role.ord();
    if ra != rb {
        return if ra < rb { Ordering::Less } else { Ordering::Greater };
    }
    let ka = match a.kind {
        LagKind::BookDelta => 0u8,
        LagKind::Trade => 1u8,
    };
    let kb = match b.kind {
        LagKind::BookDelta => 0u8,
        LagKind::Trade => 1u8,
    };
    if ka != kb {
        return if ka < kb { Ordering::Less } else { Ordering::Greater };
    }
    if a.price != b.price {
        return if a.price < b.price { Ordering::Less } else { Ordering::Greater };
    }
    Ordering::Equal
}


/// `perm` witnesses that `sorted` is `orig` sorted stably by the merged
/// stream's order: `sorted[i]` is `orig[perm[i]]`, `perm` is a bijection on
/// the indices, and ties keep their input order.
pub open spec fn stably_sorted_by(orig: Seq<LagEvent>, sorted: Seq<LagEvent>, perm: Seq<int>) -> bool {
    &&& perm.len() == orig.len()
    &&& sorted.len() == orig.len()
    &&& forall|i: int| 0 <= i < perm.len() ==> 0 <= #[trigger] perm[i] < orig.len() && sorted[i] == orig[perm[i]]
    &&& forall|i: int, j: int| 0 <= i < j < perm.len() ==> #[trigger] perm[i] != #[trigger] perm[j]
    &&& forall|i: int, j: int|
        0 <= i < j < sorted.len() ==> event_precedes(#[trigger] sorted[i], #[trigger] sorted[j]) || (
        event_ties(sorted[i], sorted[j]) && perm[i] < perm[j])
}

/// Merge-sorts a window's events into the stream order through std's
/// `slice::sort_by` with [`event_order`] as the comparator. Trusted: std
/// documents `sort_by` as a stable sort by the comparator, which here is a
/// total order, so the result is the input permuted into that order with
/// ties kept in input order.
#[verifier::external_body]
pub fn sort_events(evs: &mut Vec<LagEvent>)
    ensures
        exists|perm: Seq<int>| #[trigger] stably_sorted_by(old(evs)@, final(evs)@, perm),
{
    evs.sort_by(|a, b| event_order(a, b));
}

/// The merged stream is time-ordered: local timestamps never decrease.
pub proof fn lemma_sorted_stream_is_time_ordered(orig: Seq<LagEvent>, sorted: Seq<LagEvent>, perm: Seq<int>)
    requires
        stably_sorted_by(orig, sorted, perm),
    ensures
        forall|i: int, j: int| 0 <= i < j < sorted.len() ==> #[trigger] sorted[i].local_ts <= #[trigger] sorted[j].local_ts,
{
    assert forall|i: int, j: int| 0 <= i < j < sorted.len() implies #[trigger] sorted[i].local_ts <= #[trigger] sorted[j].local_ts by {
        assert(event_precedes(sorted[i], sorted[j]) || event_ties(sorted[i], sorted[j]));
    }
}

/// Which file of an hour a feed file is.
#[derive(Clone, Copy, PartialEq, Eq, Debug, Structural)]
pub enum FeedSource {
    /// The execution venue's full-depth book deltas (`<coin>/hlbook`).
    ExecBook,
    /// A reference venue's trades (`<symbol>/trade`).
    RefTrades,
    /// The execution venue's own trades (`<coin>/trade`), which fill resting
    /// maker orders.
    ExecTrades,
}

/// One file to load for a window: its source, the index of its hour in
/// `FeedConfig::hours`, and how its rows are stamped.
#[derive(Clone, Copy, PartialEq, Eq, Debug, Structural)]
pub struct FeedFile {
    /// Which file of the hour.
    pub source: FeedSource,
    /// Index of the hour in the config's `hours`.
    pub hour: usize,
    /// Leg of the events it holds.
    pub role: Role,
    /// Kind of the events it holds.
    pub kind: LagKind,
    /// Feed latency (ns) added to its events.
    pub latency_ns: u64,
}

/// The `k`-th file of a window: per hour, the execution book, then the
/// reference trades, then the execution trades.
pub open spec fn planned_file(cfg: FeedConfig, k: int) -> FeedFile {
    let h = (k / 3) as usize;
    if k % 3 == 0 {
        FeedFile { source: FeedSource::ExecBook, hour: h, role: Role::Exec, kind: LagKind::BookDelta, latency_ns: cfg.exec_latency_ns }
    } else if k % 3 == 1 {
        FeedFile { source: FeedSource::RefTrades, hour: h, role: Role::Reference, kind: LagKind::Trade, latency_ns: cfg.ref_latency_ns }
    } else {
        FeedFile { source: FeedSource::ExecTrades, hour: h, role: Role::Exec, kind: LagKind::Trade, latency_ns: cfg.exec_latency_ns }
    }
}

/// The files a window loads, in load order (files that do not exist are
/// skipped by the loader).
pub fn window_plan(cfg: &FeedConfig) -> (r: Vec<FeedFile>)
    ensures
        r@.len() == 3 * cfg.hours@.len(),
        forall|k: int| 0 <= k < r@.len() ==> #[trigger] r@[k] == planned_file(*cfg, k),
{
    let mut out: Vec<FeedFile> = Vec::new();
    let n = cfg.hours.len();
    let mut h: usize = 0;
    while h < n
        invariant
            n == cfg.hours@.len(),
            h <= n,
            out@.len() == 3 * h,
            forall|k: int| 0 <= k < out@.len() ==> #[trigger] out@[k] == planned_file(*cfg, k),
        decreases n - h,
    {
        out.push(FeedFile { source: FeedSource::ExecBook, hour: h, role: Role::Exec, kind: LagKind::BookDelta, latency_ns: cfg.exec_latency_ns });
        out.push(FeedFile { source: FeedSource::RefTrades, hour: h, role: Role::Reference, kind: LagKind::Trade, latency_ns: cfg.ref_latency_ns });
        out.push(FeedFile { source: FeedSource::ExecTrades, hour: h, role: Role::Exec, kind: LagKind::Trade, latency_ns: cfg.exec_latency_ns });
        proof {
            assert forall|k: int| 0 <= k < out@.len() implies #[trigger] out@[k] == planned_file(*cfg, k) by {
                if k >= 3 * h {
                    assert(k / 3 == h);
                }
            }
        }
        h = h + 1;
    }
    out
}

} // verus!
