//! Strategy layer: a managed execution shell (entry / exit / hold /
//! cooldown / in-flight guard) around a direction-only signal, and the
//! seeded coin flip: the null-edge control, which must lose about its costs.

use vstd::prelude::*;
use crate::side::Side;
use crate::engine::{xorshift64, LagOrder, LagOrderKind};

verus! {

/// The coin's output bit for a freshly stepped state `x`: bit 33 of
/// `x * 0x2545F4914F6CDD1D` (mod 2^64).
pub open spec fn coin_bit(x: u64) -> bool {
    ((((x as nat) * 0x2545_F491_4F6C_DD1Dnat) % 0x1_0000_0000_0000_0000nat) as u64 >> 33u64) & 1u64 == 1u64
}

/// Seeded random-direction signal: the NULL-EDGE control (must lose ~costs).
pub struct CoinSignal {
    state: u64,
}

impl CoinSignal {
    /// Internal generator state.
    pub closed spec fn state(&self) -> u64 {
        self.state
    }

    /// New seeded coin. The seed's low bit is forced on, so the state is
    /// never zero.
    pub fn new(seed: u64) -> (r: Self)
        ensures
            r.state() == seed | 1,
            r.state() != 0,
    {
        proof {
            assert(seed | 1u64 != 0u64) by (bit_vector);
        }
        Self { state: seed | 1 }
    }

    /// Flip: advance the state one xorshift64 step and return its coin bit.
    pub fn bit(&mut self) -> (b: bool)
        ensures
            final(self).state() == xorshift64(old(self).state()),
            b == coin_bit(xorshift64(old(self).state())),
    {
        let mut x = self.state;
        x = x ^ (x << 13u64);
        x = x ^ (x >> 7u64);
        x = x ^ (x << 17u64);
        self.state = x;
        (x.wrapping_mul(0x2545_F491_4F6C_DD1D) >> 33u64) & 1u64 == 1u64
    }

    /// The entry side when flat and ready: a buy on heads, a sell on tails.
    pub fn entry(&mut self) -> (r: Side)
        ensures
            final(self).state() == xorshift64(old(self).state()),
            r == (if coin_bit(xorshift64(old(self).state())) { Side::Bid } else { Side::Ask }),
    {
        if self.bit() {
            Side::Bid
        } else {
            Side::Ask
        }
    }
}

/// The sides `n` successive entries of a coin in state `x` give.
pub open spec fn coin_sides(x: u64, n: nat) -> Seq<Side>
    decreases n,
{
    if n == 0 {
        Seq::empty()
    } else {
        let y = xorshift64(x);
        seq![if coin_bit(y) { Side::Bid } else { Side::Ask }] + coin_sides(y, (n - 1) as nat)
    }
}

/// The coin is a single bit of the multiplied state: heads exactly when bit
/// 33 of `x * 0x2545F4914F6CDD1D` (mod 2^64) is set, so two states whose
/// products agree on that bit give the same side and two that differ on it
/// give opposite sides (half of all products give heads).
pub proof fn lemma_coin_is_bit_33_of_the_product(x: u64, y: u64)
    ensures
        coin_bit(x) <==> ((((x as nat) * 0x2545_F491_4F6C_DD1Dnat) % 0x1_0000_0000_0000_0000nat)
            / 0x2_0000_0000nat) % 2 == 1,
        (coin_bit(x) == coin_bit(y)) <==> ((((x as nat) * 0x2545_F491_4F6C_DD1Dnat)
            % 0x1_0000_0000_0000_0000nat) / 0x2_0000_0000nat) % 2 == ((((y as nat) * 0x2545_F491_4F6C_DD1Dnat)
            % 0x1_0000_0000_0000_0000nat) / 0x2_0000_0000nat) % 2,
{
    let p: u64 = (((x as nat) * 0x2545_F491_4F6C_DD1Dnat) % 0x1_0000_0000_0000_0000nat) as u64;
    let q: u64 = (((y as nat) * 0x2545_F491_4F6C_DD1Dnat) % 0x1_0000_0000_0000_0000nat) as u64;
    assert(((p >> 33u64) & 1u64 == 1u64) <==> (p / 0x2_0000_0000u64) % 2u64 == 1u64) by (bit_vector);
    assert(((q >> 33u64) & 1u64 == 1u64) <==> (q / 0x2_0000_0000u64) % 2u64 == 1u64) by (bit_vector);
    assert((p / 0x2_0000_0000u64) % 2u64 < 2) by (bit_vector);
    assert((q / 0x2_0000_0000u64) % 2u64 < 2) by (bit_vector);
}

/// Seeds differing only in the low bit give the same coin: `seed` and
/// `seed | 1` (so an even seed and the next odd one) start in the same
/// state, and so every run of entries gives the same sides.
pub proof fn lemma_low_bit_of_seed_is_ignored(seed: u64, n: nat)
    ensures
        (seed | 1) | 1 == seed | 1,
        coin_sides((seed | 1) | 1, n) == coin_sides(seed | 1, n),
        seed % 2 == 0 ==> seed < u64::MAX && ((seed + 1) as u64) | 1 == seed | 1,
        seed % 2 == 0 ==> coin_sides(((seed + 1) as u64) | 1, n) == coin_sides(seed | 1, n),
{
    assert((seed | 1u64) | 1u64 == seed | 1u64) by (bit_vector);
    if seed % 2 == 0 {
        assert(seed % 2 == 0 ==> seed < 0xFFFF_FFFF_FFFF_FFFFu64) by (bit_vector);
        assert(seed % 2 == 0 ==> ((seed + 1) as u64) | 1u64 == seed | 1u64) by (bit_vector);
    }
}

/// The coin never gets stuck: a non-zero state steps to a non-zero state
/// (a zero state would repeat forever and always give the same side).
pub proof fn lemma_coin_state_never_zero(x: u64)
    requires
        x != 0,
    ensures
        xorshift64(x) != 0,
{
    let a = x ^ (x << 13u64);
    assert(x != 0u64 ==> x ^ (x << 13u64) != 0u64) by (bit_vector);
    let b = a ^ (a >> 7u64);
    assert(a != 0u64 ==> a ^ (a >> 7u64) != 0u64) by (bit_vector);
    assert(b != 0u64 ==> b ^ (b << 17u64) != 0u64) by (bit_vector);
}


/// Integer knobs of the managed shell.
#[derive(Clone, Copy, Debug, PartialEq, Eq, Structural)]
pub struct ShellConfig {
    /// Trade size (raw).
    pub qty: i64,
    /// Hold (ns) before a timeout exit.
    pub hold_ns: u64,
    /// Cooldown (ns) after a trade.
    pub cooldown_ns: u64,
    /// Ns to wait for a fill before assuming none (must exceed the order
    /// latency).
    pub fill_timeout_ns: u64,
}

/// Where the shell stands.
#[derive(Clone, Copy, Debug, PartialEq, Eq, Structural)]
pub enum Phase {
    /// No position; entries allowed from `ready_at`.
    Flat { ready_at: u64 },
    /// A position entered at `entry_ts` in direction `dir` (+1 long, -1
    /// short) at the book mid `entry_mid`.
    Open { entry_ts: u64, dir: i64, entry_mid: i64 },
}

/// What the shell does this event.
#[derive(Clone, Copy, Debug, PartialEq, Eq, Structural)]
pub enum ShellStep {
    /// Nothing.
    Idle,
    /// Submit this order.
    Submit(LagOrder),
    /// Flat, ready and with a book mid: ask the signal for an entry side
    /// (then call [`ManagedShell::enter`] if it gives one).
    AskSignal(i64),
}

/// Integer midpoint of the best bid and ask (Rust's truncating division).
pub open spec fn mid_of(b: i64, a: i64) -> i64 {
    let s = b + a;
    (if s >= 0 { s / 2 } else { -((-s) / 2) }) as i64
}

/// The book mid when both sides are present.
pub fn book_mid(best_bid: Option<i64>, best_ask: Option<i64>) -> (r: Option<i64>)
    requires
        best_bid is Some && best_ask is Some ==> i64::MIN <= best_bid->0 + best_ask->0 <= i64::MAX,
    ensures
        best_bid is Some && best_ask is Some ==> r == Some(mid_of(best_bid->0, best_ask->0)),
        !(best_bid is Some && best_ask is Some) ==> r is None,
{
    match (best_bid, best_ask) {
        (Some(b), Some(a)) => Some((b + a) / 2),
        _ => None,
    }
}

/// A market order flattening the signed position: long sells, short buys,
/// for the whole |position|.
pub open spec fn flatten_order(pos: i64) -> LagOrder {
    LagOrder {
        side: if pos > 0 { Side::Ask } else { Side::Bid },
        kind: LagOrderKind::Market,
        price: 0,
        qty: if pos == i64::MIN { i64::MIN } else if pos < 0 { (-pos) as i64 } else { pos },
        id: 0,
    }
}

fn flatten(pos: i64) -> (r: LagOrder)
    ensures
        r == flatten_order(pos),
{
    let side = if pos > 0 { Side::Ask } else { Side::Bid };
    let qty = if pos == i64::MIN { i64::MIN } else if pos < 0 { -pos } else { pos };
    LagOrder::market(side, qty)
}

/// The in-flight guard after this event's position is seen: an order sent
/// at position `sent` is resolved once the position changes or its fill
/// timeout passes.
pub open spec fn guard_after(pending: Option<(i64, u64)>, pos: i64, now: u64) -> Option<(i64, u64)> {
    match pending {
        Some((sent, deadline)) => if pos != sent || now >= deadline { None } else { pending },
        None => None,
    }
}

/// One event of the shell, once the guard is clear (`pending` is the
/// resolved guard): exit an open position on hold timeout or a price exit
/// (take-profit / stop-loss, measured by the caller), flattening any
/// position and cooling down; when flat with a stray position, flatten it;
/// when flat, ready and with a mid, consult the signal.
pub open spec fn shell_spec(
    phase: Phase,
    cfg: ShellConfig,
    pos: i64,
    now: u64,
    mid: Option<i64>,
    price_exit: bool,
) -> (Phase, Option<(i64, u64)>, ShellStep) {
    match phase {
        Phase::Open { entry_ts, dir, entry_mid } => {
            let held = if now >= entry_ts { now - entry_ts } else { 0 };
            let close = held >= cfg.hold_ns || (mid is Some && price_exit);
            if close {
                let flat = Phase::Flat { ready_at: (now + cfg.cooldown_ns) as u64 };
                if pos != 0 {
                    (flat, Some((pos, (now + cfg.fill_timeout_ns) as u64)), ShellStep::Submit(flatten_order(pos)))
                } else {
                    (flat, None, ShellStep::Idle)
                }
            } else {
                (phase, None, ShellStep::Idle)
            }
        },
        Phase::Flat { ready_at } => {
            if pos != 0 {
                (
                    Phase::Flat { ready_at: (now + cfg.cooldown_ns) as u64 },
                    Some((pos, (now + cfg.fill_timeout_ns) as u64)),
                    ShellStep::Submit(flatten_order(pos)),
                )
            } else if now >= ready_at && mid is Some {
                (phase, None, ShellStep::AskSignal(mid->0))
            } else {
                (phase, None, ShellStep::Idle)
            }
        },
    }
}

/// The clock sums one shell event computes fit the clock: a close sets the
/// cooldown (and, with a position to flatten, the fill deadline); a flatten
/// while flat sets both.
pub open spec fn shell_sums_fit(phase: Phase, cfg: ShellConfig, pos: i64, now: u64, mid: Option<i64>, price_exit: bool) -> bool {
    match phase {
        Phase::Open { entry_ts, .. } => {
            let held = if now >= entry_ts { now - entry_ts } else { 0 };
            let close = held >= cfg.hold_ns || (mid is Some && price_exit);
            close ==> now + cfg.cooldown_ns <= u64::MAX && (pos != 0 ==> now + cfg.fill_timeout_ns <= u64::MAX)
        },
        Phase::Flat { .. } => pos != 0 ==> now + cfg.cooldown_ns <= u64::MAX && now + cfg.fill_timeout_ns
            <= u64::MAX,
    }
}

/// The managed execution shell: owns order and position management so a
/// signal only has to pick a direction. Acts on exchange-truth position.
pub struct ManagedShell {
    cfg: ShellConfig,
    pending: Option<(i64, u64)>,
    phase: Phase,
}

impl ManagedShell {
    /// Knobs.
    pub closed spec fn config(&self) -> ShellConfig {
        self.cfg
    }

    /// In-flight guard: the position an order was sent at, and its fill
    /// deadline.
    pub closed spec fn guard(&self) -> Option<(i64, u64)> {
        self.pending
    }

    /// Current phase.
    pub closed spec fn phase(&self) -> Phase {
        self.phase
    }

    /// A flat shell, ready at once.
    pub fn new(cfg: ShellConfig) -> (r: Self)
        ensures
            r.config() == cfg,
            r.guard() is None,
            r.phase() == (Phase::Flat { ready_at: 0 }),
    {
        ManagedShell { cfg, pending: None, phase: Phase::Flat { ready_at: 0 } }
    }

    /// The open position's entry time, direction and entry mid (for the
    /// caller's take-profit / stop-loss measure).
    pub fn open_entry(&self) -> (r: Option<(u64, i64, i64)>)
        ensures
            r == (match self.phase() {
                Phase::Open { entry_ts, dir, entry_mid } => Some((entry_ts, dir, entry_mid)),
                Phase::Flat { .. } => None,
            }),
    {
        match self.phase {
            Phase::Open { entry_ts, dir, entry_mid } => Some((entry_ts, dir, entry_mid)),
            Phase::Flat { .. } => None,
        }
    }

    /// One event at exchange-truth position `pos`, book `mid` (if any), and
    /// `price_exit` = the caller's take-profit / stop-loss verdict on the
    /// open position. While an order is in flight (same position, before
    /// its fill timeout) nothing happens; otherwise per [`shell_spec`].
    pub fn on_event(&mut self, now: u64, pos: i64, mid: Option<i64>, price_exit: bool) -> (r: ShellStep)
        requires
            guard_after(old(self).guard(), pos, now) is None ==> shell_sums_fit(
                old(self).phase(),
                old(self).config(),
                pos,
                now,
                mid,
                price_exit,
            ),
        ensures
            final(self).config() == old(self).config(),
            guard_after(old(self).guard(), pos, now) is Some ==> r == ShellStep::Idle
                && final(self).phase() == old(self).phase()
                && final(self).guard() == guard_after(old(self).guard(), pos, now),
            guard_after(old(self).guard(), pos, now) is None ==> (final(self).phase(), final(self).guard(), r)
                == shell_spec(old(self).phase(), old(self).config(), pos, now, mid, price_exit),
    {
        if let Some((sent, deadline)) = self.pending {
            if pos != sent || now >= deadline {
                self.pending = None;
            }
        }
        if self.pending.is_some() {
            return ShellStep::Idle;
        }
        match self.phase {
            Phase::Open { entry_ts, dir, entry_mid } => {
                let close = now.saturating_sub(entry_ts) >= self.cfg.hold_ns || (mid.is_some() && price_exit);
                if close {
                    let ready_at = now + self.cfg.cooldown_ns;
                    self.phase = Phase::Flat { ready_at };
                    if pos != 0 {
                        self.pending = Some((pos, now + self.cfg.fill_timeout_ns));
                        return ShellStep::Submit(flatten(pos));
                    }
                }
                ShellStep::Idle
            },
            Phase::Flat { ready_at } => {
                if pos != 0 {
                    self.pending = Some((pos, now + self.cfg.fill_timeout_ns));
                    self.phase = Phase::Flat { ready_at: now + self.cfg.cooldown_ns };
                    ShellStep::Submit(flatten(pos))
                } else if now >= ready_at {
                    match mid {
                        Some(m) => ShellStep::AskSignal(m),
                        None => ShellStep::Idle,
                    }
                } else {
                    ShellStep::Idle
                }
            },
        }
    }

    /// Whether [`ManagedShell::on_event`] may run at `now`: the clock sums
    /// it would compute fit the clock.
    pub fn sums_fit(&self, now: u64, pos: i64, mid: Option<i64>, price_exit: bool) -> (r: bool)
        ensures
            r == (guard_after(self.guard(), pos, now) is None ==> shell_sums_fit(
                self.phase(),
                self.config(),
                pos,
                now,
                mid,
                price_exit,
            )),
    {
        if let Some((sent, deadline)) = self.pending {
            if pos == sent && now < deadline {
                return true;
            }
        }
        let cd_ok = now.checked_add(self.cfg.cooldown_ns).is_some();
        let ft_ok = now.checked_add(self.cfg.fill_timeout_ns).is_some();
        match self.phase {
            Phase::Open { entry_ts, .. } => {
                let close = now.saturating_sub(entry_ts) >= self.cfg.hold_ns || (mid.is_some() && price_exit);
                !close || (cd_ok && (pos == 0 || ft_ok))
            },
            Phase::Flat { .. } => pos == 0 || (cd_ok && ft_ok),
        }
    }

    /// The signal chose `side` after [`ShellStep::AskSignal`]`(mid)`: submit
    /// a market entry of the configured size, guard it, and open the
    /// position at `mid`.
    pub fn enter(&mut self, now: u64, pos: i64, side: Side, mid: i64) -> (r: LagOrder)
        requires
            now + old(self).config().fill_timeout_ns <= u64::MAX,
        ensures
            r == LagOrder::market_spec(side, old(self).config().qty),
            final(self).config() == old(self).config(),
            final(self).guard() == Some((pos, (now + old(self).config().fill_timeout_ns) as u64)),
            final(self).phase() == (Phase::Open {
                entry_ts: now,
                dir: if side == Side::Bid { 1i64 } else { -1i64 },
                entry_mid: mid,
            }),
    {
        self.pending = Some((pos, now + self.cfg.fill_timeout_ns));
        self.phase = Phase::Open { entry_ts: now, dir: if side == Side::Bid { 1 } else { -1 }, entry_mid: mid };
        LagOrder::market(side, self.cfg.qty)
    }
}


/// The in-flight guard holds while the position is still the one the order
/// was sent at and its fill timeout has not passed: the shell then stays
/// idle, neither re-entering nor flattening twice.
pub proof fn lemma_guard_blocks_until_change_or_timeout(sent: i64, deadline: u64, pos: i64, now: u64)
    requires
        pos == sent,
        now < deadline,
    ensures
        guard_after(Some((sent, deadline)), pos, now) == Some((sent, deadline)),
{
}

/// The in-flight guard never outlives its fill timeout: once `now` reaches
/// the deadline it is cleared whatever the position (the order is assumed
/// unfilled), and a change of position clears it at any time. It is never
/// re-armed by observing an event.
pub proof fn lemma_guard_lapses_at_fill_timeout(pending: Option<(i64, u64)>, pos: i64, now: u64)
    ensures
        pending matches Some((sent, deadline)) && now >= deadline ==> guard_after(pending, pos, now) is None,
        pending matches Some((sent, deadline)) && pos != sent ==> guard_after(pending, pos, now) is None,
        guard_after(pending, pos, now) is None || guard_after(pending, pos, now) == pending,
{
}

/// The shell never opens a position on top of one: with a non-zero
/// position it only ever submits the full flatten (a market order on the
/// reducing side), and it consults the signal only when flat, past its
/// cooldown, with a book mid. A flatten always cools the shell down.
pub proof fn lemma_shell_enters_only_flat_and_ready(
    phase: Phase,
    cfg: ShellConfig,
    pos: i64,
    now: u64,
    mid: Option<i64>,
    price_exit: bool,
)
    ensures
        ({
            let (next, guard, step) = shell_spec(phase, cfg, pos, now, mid, price_exit);
            &&& step is AskSignal ==> pos == 0 && mid is Some && phase is Flat && now >= phase->ready_at
            &&& step is Submit ==> pos != 0 && step->Submit_0 == flatten_order(pos) && guard == Some(
                (pos, (now + cfg.fill_timeout_ns) as u64),
            ) && next == Phase::Flat { ready_at: (now + cfg.cooldown_ns) as u64 }
            &&& pos != 0 ==> !(step is AskSignal)
        }),
{
}

} // verus!
