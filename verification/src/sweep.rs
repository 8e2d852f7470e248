//! Bookkeeping of the bar-series sweep: which triple barrier closed a trade,
//! per-date segmentation of the bar series, and trade-log tallies.

use vstd::prelude::*;

verus! {

/// Which barrier of the triple-barrier exit was hit first.
#[derive(Clone, Copy, Debug, PartialEq, Eq, Structural)]
pub enum BarrierHit {
    /// Price moved the take-profit width in our favour.
    TakeProfit,
    /// Price moved the stop-loss width against us.
    StopLoss,
    /// The holding period ran out.
    TimeExpired,
}

/// Indices where the bar series changes date: `0`, then every `i` whose date
/// differs from bar `i - 1`'s, then the number of bars. An empty series
/// gives `[0, 0]`. Consecutive entries bound one date's bars.
pub open spec fn is_date_boundaries(dates: Seq<String>, r: Seq<usize>) -> bool {
    &&& r.len() >= 2
    &&& dates.len() == 0 ==> r.len() == 2
    &&& r[0] == 0
    &&& r[r.len() - 1] == dates.len()
    &&& forall|k: int| 0 <= k < r.len() - 1 ==> #[trigger] r[k] < r[k + 1] || dates.len() == 0
    &&& forall|k: int| 1 <= k < r.len() - 1 ==> dates[#[trigger] r[k] as int]@ != dates[r[k] - 1]@
    &&& forall|i: int|
        #![trigger dates[i]]
        1 <= i < dates.len() && dates[i]@ != dates[i - 1]@ ==> exists|k: int|
            1 <= k < r.len() - 1 && #[trigger] r[k] == i
}

/// Date segmentation of a bar series given each bar's date.
pub fn find_date_boundaries(dates: &[String]) -> (r: Vec<usize>)
    ensures
        is_date_boundaries(dates@, r@),
{
    if dates.len() == 0 {
        let mut e: Vec<usize> = Vec::new();
        e.push(0);
        e.push(0);
        return e;
    }
    let mut boundaries: Vec<usize> = Vec::new();
    boundaries.push(0);
    let mut prev: usize = 0;
    let n = dates.len();
    let mut i: usize = 1;
    while i < n
        invariant
            n == dates@.len(),
            n >= 1,
            1 <= i <= n,
            prev < i,
            boundaries@.len() >= 1,
            boundaries@[0] == 0,
            boundaries@[boundaries@.len() - 1] == prev,
            dates@[prev as int]@ == dates@[i - 1]@,
            forall|k: int| 0 <= k < boundaries@.len() - 1 ==> #[trigger] boundaries@[k] < boundaries@[k + 1],
            forall|k: int| 0 <= k < boundaries@.len() ==> #[trigger] boundaries@[k] < i,
            forall|k: int|
                1 <= k < boundaries@.len() ==> dates@[#[trigger] boundaries@[k] as int]@ != dates@[boundaries@[k] - 1]@,
            forall|j: int|
                #![trigger dates@[j]]
                1 <= j < i && dates@[j]@ != dates@[j - 1]@ ==> exists|k: int|
                    1 <= k < boundaries@.len() && #[trigger] boundaries@[k] == j,
        decreases n - i,
    {
        let same = dates[i] == dates[prev];
        if !same {
            let ghost old_b = boundaries@;
            boundaries.push(i);
            prev = i;
            proof {
                assert(boundaries@[old_b.len() as int] == i);
                assert forall|j: int|
                    #![trigger dates@[j]]
                    1 <= j < i + 1 && dates@[j]@ != dates@[j - 1]@ implies exists|k: int|
                        1 <= k < boundaries@.len() && #[trigger] boundaries@[k] == j by {
                    if j < i {
                        let k = choose|k: int| 1 <= k < old_b.len() && #[trigger] old_b[k] == j;
                        assert(boundaries@[k] == j);
                    } else {
                        assert(boundaries@[old_b.len() as int] == j);
                    }
                }
            }
        } else {
            proof {
                assert forall|j: int|
                    #![trigger dates@[j]]
                    1 <= j < i + 1 && dates@[j]@ != dates@[j - 1]@ implies exists|k: int|
                        1 <= k < boundaries@.len() && #[trigger] boundaries@[k] == j by {
                    if j == i {
                        assert(false);
                    }
                }
            }
        }
        i = i + 1;
    }
    let ghost before = boundaries@;
    boundaries.push(n);
    proof {
        let r = boundaries@;
        assert forall|k: int| 1 <= k < r.len() - 1 implies dates@[#[trigger] r[k] as int]@ != dates@[r[k] - 1]@ by {
            assert(r[k] == before[k]);
        }
        assert forall|k: int| 0 <= k < r.len() - 1 implies #[trigger] r[k] < r[k + 1] by {
            if k < r.len() - 2 {
                assert(r[k] == before[k] && r[k + 1] == before[k + 1]);
            } else {
                assert(r[k] == before[k]);
            }
        }
        assert forall|j: int|
            #![trigger dates@[j]]
            1 <= j < dates@.len() && dates@[j]@ != dates@[j - 1]@ implies exists|k: int|
                1 <= k < r.len() - 1 && #[trigger] r[k] == j by {
            let k = choose|k: int| 1 <= k < before.len() && #[trigger] before[k] == j;
            assert(r[k] == j);
        }
    }
    boundaries
}

/// Number of entries of `hits` equal to `h`.
pub open spec fn count_hits(hits: Seq<BarrierHit>, h: BarrierHit) -> nat
    decreases hits.len(),
{
    if hits.len() == 0 {
        0
    } else {
        count_hits(hits.drop_last(), h) + if hits.last() == h { 1nat } else { 0nat }
    }
}

/// How many trades closed on each barrier: `(take-profit, stop-loss,
/// time-expired)`.
pub fn barrier_counts(hits: &[BarrierHit]) -> (r: (usize, usize, usize))
    ensures
        r.0 == count_hits(hits@, BarrierHit::TakeProfit),
        r.1 == count_hits(hits@, BarrierHit::StopLoss),
        r.2 == count_hits(hits@, BarrierHit::TimeExpired),
{
    let mut tp: usize = 0;
    let mut sl: usize = 0;
    let mut tm: usize = 0;
    let n = hits.len();
    let mut i: usize = 0;
    while i < n
        invariant
            n == hits@.len(),
            i <= n,
            tp == count_hits(hits@.take(i as int), BarrierHit::TakeProfit),
            sl == count_hits(hits@.take(i as int), BarrierHit::StopLoss),
            tm == count_hits(hits@.take(i as int), BarrierHit::TimeExpired),
            tp + sl + tm == i,
        decreases n - i,
    {
        proof {
            assert(hits@.take(i + 1).drop_last() == hits@.take(i as int));
            assert(hits@.take(i + 1).last() == hits@[i as int]);
        }
        match hits[i] {
            BarrierHit::TakeProfit => tp = tp + 1,
            BarrierHit::StopLoss => sl = sl + 1,
            BarrierHit::TimeExpired => tm = tm + 1,
        }
        i = i + 1;
    }
    proof {
        assert(hits@.take(n as int) == hits@);
    }
    (tp, sl, tm)
}

/// Length of the run of `true`s ending at the end of `flags`.
pub open spec fn trailing_run(flags: Seq<bool>) -> nat
    decreases flags.len(),
{
    if flags.len() == 0 {
        0
    } else if flags.last() {
        trailing_run(flags.drop_last()) + 1
    } else {
        0
    }
}

/// Length of the longest run of consecutive `true`s in `flags`.
pub open spec fn longest_run(flags: Seq<bool>) -> nat
    decreases flags.len(),
{
    if flags.len() == 0 {
        0
    } else {
        let prev = longest_run(flags.drop_last());
        let t = trailing_run(flags);
        if t > prev { t } else { prev }
    }
}

/// The longest streak of consecutive losing trades, given for each trade in
/// order whether it lost (net P&L at or below zero).
pub fn max_consecutive_losses(losses: &[bool]) -> (r: usize)
    ensures
        r == longest_run(losses@),
{
    let mut max: usize = 0;
    let mut current: usize = 0;
    let n = losses.len();
    let mut i: usize = 0;
    while i < n
        invariant
            n == losses@.len(),
            i <= n,
            current == trailing_run(losses@.take(i as int)),
            max == longest_run(losses@.take(i as int)),
            current <= i,
            max <= i,
        decreases n - i,
    {
        proof {
            assert(losses@.take(i + 1).drop_last() == losses@.take(i as int));
            assert(losses@.take(i + 1).last() == losses@[i as int]);
        }
        if losses[i] {
            current = current + 1;
            if current > max {
                max = current;
            }
        } else {
            current = 0;
        }
        i = i + 1;
    }
    proof {
        assert(losses@.take(n as int) == losses@);
    }
    max
}

/// An ASCII decimal digit.
pub open spec fn is_digit(c: char) -> bool {
    '0' <= c <= '9'
}

/// How many ASCII digits `s` ends with.
pub open spec fn trailing_digits(s: Seq<char>) -> nat
    decreases s.len(),
{
    if s.len() > 0 && is_digit(s.last()) {
        trailing_digits(s.drop_last()) + 1
    } else {
        0
    }
}

/// `s` without a trailing window tag `_<digits>`: when the text after the
/// last `_` is all digits (or empty), everything from that `_` on is cut.
pub open spec fn without_window(s: Seq<char>) -> Seq<char> {
    let k = trailing_digits(s);
    if k < s.len() && s[s.len() - 1 - k] == '_' {
        s.take(s.len() - 1 - k)
    } else {
        s
    }
}

/// `s` ends with `t`.
pub open spec fn ends_with(s: Seq<char>, t: Seq<char>) -> bool {
    t.len() <= s.len() && s.subrange(s.len() - t.len(), s.len() as int) == t
}

/// `s` holds `t` somewhere.
pub open spec fn contains_text(s: Seq<char>, t: Seq<char>) -> bool {
    exists|i: int| 0 <= i && i + t.len() <= s.len() && #[trigger] s.subrange(i, i + t.len()) == t
}

/// The direction tags an entry name may end with, in the order they are
/// tried.
pub open spec fn direction_suffixes() -> Seq<Seq<char>> {
    seq!["_short"@, "_long"@, "_buy"@, "_sell"@, "_absorb"@, "_discount"@]
}

/// `s` without the first tag of `tags` that it ends with (unchanged if none).
pub open spec fn strip_first_suffix(s: Seq<char>, tags: Seq<Seq<char>>) -> Seq<char>
    decreases tags.len(),
{
    if tags.len() == 0 {
        s
    } else if ends_with(s, tags[0]) {
        s.take(s.len() - tags[0].len())
    } else {
        strip_first_suffix(s, tags.drop_first())
    }
}

/// The hypothesis family of an entry name: the name without its window tag,
/// then without its direction tag. `oi_surge_short_25` and `oi_surge_long_50`
/// both belong to `oi_surge`.
pub open spec fn family_of(name: Seq<char>) -> Seq<char> {
    strip_first_suffix(without_window(name), direction_suffixes())
}

/// Whether `s` ends with the text of `lit`.
fn ends_with_text(s: &str, lit: &str) -> (r: bool)
    ensures
        r == ends_with(s@, lit@),
{
    let n = s.unicode_len();
    let m = lit.unicode_len();
    if m > n {
        return false;
    }
    let off = n - m;
    let mut i: usize = 0;
    while i < m
        invariant
            n == s@.len(),
            m == lit@.len(),
            off == n - m,
            i <= m,
            forall|k: int| 0 <= k < i ==> s@[off + k] == lit@[k],
        decreases m - i,
    {
        if s.get_char(off + i) != lit.get_char(i) {
            assert(s@.subrange(off as int, n as int)[i as int] != lit@[i as int]);
            return false;
        }
        i = i + 1;
    }
    assert(s@.subrange(off as int, n as int) =~= lit@);
    true
}

/// Whether `s` holds the text of `lit` at position `at`.
fn text_at(s: &str, at: usize, lit: &str) -> (r: bool)
    requires
        at + lit@.len() <= s@.len(),
    ensures
        r == (s@.subrange(at as int, at + lit@.len()) == lit@),
{
    let n = s.unicode_len();
    let m = lit.unicode_len();
    let mut i: usize = 0;
    while i < m
        invariant
            n == s@.len(),
            m == lit@.len(),
            at + m <= n,
            i <= m,
            forall|k: int| 0 <= k < i ==> s@[at + k] == lit@[k],
        decreases m - i,
    {
        if s.get_char(at + i) != lit.get_char(i) {
            assert(s@.subrange(at as int, at + m)[i as int] != lit@[i as int]);
            return false;
        }
        i = i + 1;
    }
    assert(s@.subrange(at as int, at + m) =~= lit@);
    true
}

/// Whether `s` holds the text of `lit` anywhere.
fn contains_lit(s: &str, lit: &str) -> (r: bool)
    ensures
        r == contains_text(s@, lit@),
{
    let n = s.unicode_len();
    let m = lit.unicode_len();
    if m > n {
        return false;
    }
    if m == 0 {
        assert(contains_text(s@, lit@)) by {
            assert(s@.subrange(0, 0 + lit@.len() as int) =~= lit@);
        }
        return true;
    }
    let mut at: usize = 0;
    while at <= n - m
        invariant
            n == s@.len(),
            m == lit@.len(),
            1 <= m <= n,
            at <= n - m + 1,
            forall|i: int| 0 <= i < at ==> #[trigger] s@.subrange(i, i + m) != lit@,
        decreases n - m + 1 - at,
    {
        if text_at(s, at, lit) {
            return true;
        }
        at = at + 1;
    }
    false
}

/// Whether an entry name trades long: it carries one of the tags `_long`,
/// `_buy`, `_absorb` or `_discount` anywhere in it.
pub fn entry_is_long(name: &str) -> (r: bool)
    ensures
        r == (contains_text(name@, "_long"@) || contains_text(name@, "_buy"@)
            || contains_text(name@, "_absorb"@) || contains_text(name@, "_discount"@)),
{
    contains_lit(name, "_long") || contains_lit(name, "_buy") || contains_lit(name, "_absorb")
        || contains_lit(name, "_discount")
}

/// The hypothesis family an entry name belongs to (see [`family_of`]).
pub fn entry_family(name: &str) -> (r: String)
    ensures
        r@ == family_of(name@),
{
    let n = name.unicode_len();
    let mut k: usize = 0;
    while k < n && is_digit_char(name.get_char(n - 1 - k))
        invariant
            n == name@.len(),
            k <= n,
            forall|j: int| n - k <= j < n ==> is_digit(name@[j]),
        decreases n - k,
    {
        k = k + 1;
    }
    proof {
        lemma_trailing_digits_exact(name@, k as nat);
    }
    let w: &str = if k < n && name.get_char(n - 1 - k) == '_' {
        name.substring_char(0, n - 1 - k)
    } else {
        name
    };
    assert(w@ == without_window(name@));
    let m = w.unicode_len();
    proof {
        reveal_strlit("_short");
        reveal_strlit("_long");
        reveal_strlit("_buy");
        reveal_strlit("_sell");
        reveal_strlit("_absorb");
        reveal_strlit("_discount");
        reveal_with_fuel(strip_first_suffix, 7);
    }
    let cut: usize = if ends_with_text(w, "_short") {
        6
    } else if ends_with_text(w, "_long") {
        5
    } else if ends_with_text(w, "_buy") {
        4
    } else if ends_with_text(w, "_sell") {
        5
    } else if ends_with_text(w, "_absorb") {
        7
    } else if ends_with_text(w, "_discount") {
        9
    } else {
        0
    };
    w.substring_char(0, m - cut).to_owned()
}

/// Whether `c` is an ASCII decimal digit.
fn is_digit_char(c: char) -> (r: bool)
    ensures
        r == is_digit(c),
{
    '0' <= c && c <= '9'
}

/// When the last `k` characters of `s` are digits and the one before them
/// (if any) is not, `s` ends with exactly `k` digits.
proof fn lemma_trailing_digits_exact(s: Seq<char>, k: nat)
    requires
        k <= s.len(),
        forall|j: int| s.len() - k <= j < s.len() ==> is_digit(s[j]),
        k == s.len() || !is_digit(s[s.len() - 1 - k]),
    ensures
        trailing_digits(s) == k,
    decreases k,
{
    if k > 0 {
        let t = s.drop_last();
        assert forall|j: int| t.len() - (k - 1) <= j < t.len() implies is_digit(t[j]) by {
            assert(t[j] == s[j]);
        }
        if k - 1 < t.len() {
            assert(t[t.len() - 1 - (k - 1)] == s[s.len() - 1 - k]);
        }
        lemma_trailing_digits_exact(t, (k - 1) as nat);
        assert(s.last() == s[s.len() - 1]);
    }
}

} // verus!
