//! Decimal rendering of integers, used to build the library's error messages
//! and the short duration labels of the research reports.

use vstd::prelude::*;

verus! {

/// The ASCII digit for `d` (`0 <= d < 10`).
pub open spec fn digit_char(d: nat) -> char {
    (d + 48) as char
}

/// Decimal digits of `n`, most significant first, without leading zeros
/// (`"0"` for zero).
pub open spec fn decimal(n: nat) -> Seq<char>
    decreases n,
{
    if n < 10 {
        seq![digit_char(n)]
    } else {
        decimal(n / 10).push(digit_char(n % 10))
    }
}

/// Decimal text of a signed integer: a leading `-` for negatives.
pub open spec fn signed_decimal(v: int) -> Seq<char> {
    if v < 0 {
        seq!['-'] + decimal((-v) as nat)
    } else {
        decimal(v as nat)
    }
}

/// Appends the digit `d` (`0 <= d < 10`) to `s`.
fn push_digit(s: &mut String, d: u8)
    requires
        d < 10,
    ensures
        final(s)@ == old(s)@.push(digit_char(d as nat)),
{
    proof {
        reveal_strlit("0");
        reveal_strlit("1");
        reveal_strlit("2");
        reveal_strlit("3");
        reveal_strlit("4");
        reveal_strlit("5");
        reveal_strlit("6");
        reveal_strlit("7");
        reveal_strlit("8");
        reveal_strlit("9");
    }
    let lit = match d {
        0 => "0",
        1 => "1",
        2 => "2",
        3 => "3",
        4 => "4",
        5 => "5",
        6 => "6",
        7 => "7",
        8 => "8",
        _ => "9",
    };
    s.append(lit);
}

/// Appends the decimal digits of `n` to `s`.
fn push_decimal(s: &mut String, n: u128)
    ensures
        final(s)@ == old(s)@ + decimal(n as nat),
    decreases n,
{
    if n >= 10 {
        push_decimal(s, n / 10);
    }
    push_digit(s, (n % 10) as u8);
    proof {
        if n < 10 {
            assert(old(s)@.push(digit_char(n as nat)) =~= old(s)@ + decimal(n as nat));
        } else {
            assert((old(s)@ + decimal((n / 10) as nat)).push(digit_char((n % 10) as nat)) =~= old(s)@ + decimal(
                n as nat,
            ));
        }
    }
}

/// The decimal text of an integer: a leading `-` for negatives.
pub fn int_text(v: i128) -> (s: String)
    ensures
        s@ == signed_decimal(v as int),
{
    let mut s = String::new();
    proof {
        reveal_strlit("-");
    }
    if v < 0 {
        s.append("-");
        let mag: u128 = if v == i128::MIN {
            0x8000_0000_0000_0000_0000_0000_0000_0000u128
        } else {
            (-v) as u128
        };
        push_decimal(&mut s, mag);
    } else {
        push_decimal(&mut s, v as u128);
        assert(s@ =~= decimal(v as nat));
    }
    s
}

/// `prefix` followed by the decimal text of `v`.
pub fn with_int(prefix: String, v: i128) -> (s: String)
    ensures
        s@ == prefix@ + signed_decimal(v as int),
{
    let mut s = prefix;
    let t = int_text(v);
    s.append(t.as_str());
    s
}

/// `prefix` followed by `tail`.
pub fn with_str(prefix: String, tail: &str) -> (s: String)
    ensures
        s@ == prefix@ + tail@,
{
    let mut s = prefix;
    s.append(tail);
    s
}

/// A whole number of `unit`s followed by the unit's label: the label of a
/// duration of `ns` nanoseconds counted in units of `per` nanoseconds.
pub open spec fn unit_label(ns: nat, per: nat, unit: Seq<char>) -> Seq<char> {
    decimal(ns / per) + unit
}

/// A duration in whole seconds when it is at least one second, otherwise in
/// whole milliseconds (both rounded down): `90s`, `250ms`.
pub fn fmt_ns(ns: u64) -> (s: String)
    ensures
        s@ == (if ns >= 1_000_000_000 {
            unit_label(ns as nat, 1_000_000_000, seq!['s'])
        } else {
            unit_label(ns as nat, 1_000_000, seq!['m', 's'])
        }),
{
    proof {
        reveal_strlit("s");
        reveal_strlit("ms");
    }
    if ns >= 1_000_000_000 {
        let t = int_text((ns / 1_000_000_000) as i128);
        with_str(t, "s")
    } else {
        let t = int_text((ns / 1_000_000) as i128);
        with_str(t, "ms")
    }
}

/// A duration in the largest of minutes or seconds that divides it exactly,
/// otherwise in whole milliseconds (rounded down); zero is `0`.
/// `5m`, `90s`, `1500ms`.
pub fn fmt_dur(ns: u64) -> (s: String)
    ensures
        s@ == (if ns == 0 {
            seq!['0']
        } else if ns >= 60_000_000_000 && ns % 60_000_000_000 == 0 {
            unit_label(ns as nat, 60_000_000_000, seq!['m'])
        } else if ns >= 1_000_000_000 && ns % 1_000_000_000 == 0 {
            unit_label(ns as nat, 1_000_000_000, seq!['s'])
        } else {
            unit_label(ns as nat, 1_000_000, seq!['m', 's'])
        }),
{
    proof {
        reveal_strlit("0");
        reveal_strlit("m");
        reveal_strlit("s");
        reveal_strlit("ms");
    }
    if ns == 0 {
        "0".to_owned()
    } else if ns >= 60_000_000_000 && ns % 60_000_000_000 == 0 {
        let t = int_text((ns / 60_000_000_000) as i128);
        with_str(t, "m")
    } else if ns >= 1_000_000_000 && ns % 1_000_000_000 == 0 {
        let t = int_text((ns / 1_000_000_000) as i128);
        with_str(t, "s")
    } else {
        let t = int_text((ns / 1_000_000) as i128);
        with_str(t, "ms")
    }
}

} // verus!
