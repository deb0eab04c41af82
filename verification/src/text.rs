//! Decimal rendering of fixed-point amounts and rational metrics.
//!
//! An amount is an `i64` number of hundredths; it renders as an
//! optional minus sign, the whole units in decimal, a point, and
//! exactly two fraction digits. A rational metric is first rounded to
//! hundredths, halves away from zero, and then rendered the same way.

use vstd::prelude::*;

verus! {

/// The decimal digit character for `d` (meaningful for `0 <= d <= 9`).
pub open spec fn digit_char(d: int) -> char {
    if d == 0 {
        '0'
    } else if d == 1 {
        '1'
    } else if d == 2 {
        '2'
    } else if d == 3 {
        '3'
    } else if d == 4 {
        '4'
    } else if d == 5 {
        '5'
    } else if d == 6 {
        '6'
    } else if d == 7 {
        '7'
    } else if d == 8 {
        '8'
    } else {
        '9'
    }
}

/// The decimal digits of `n`, most significant first.
pub open spec fn dec_str(n: nat) -> Seq<char>
    decreases n,
{
    if n < 10 {
        seq![digit_char(n as int)]
    } else {
        dec_str(n / 10) + seq![digit_char((n % 10) as int)]
    }
}

/// The rendering of a magnitude of `m` hundredths: units, point, two
/// fraction digits.
pub open spec fn fixed2_mag_str(m: nat) -> Seq<char> {
    dec_str(m / 100) + seq!['.'] + seq![
        digit_char(((m % 100) / 10) as int),
        digit_char((m % 10) as int),
    ]
}

/// The rendering of `v` hundredths: sign, units, point, two fraction
/// digits.
pub open spec fn fixed2_str(v: int) -> Seq<char> {
    if v < 0 {
        seq!['-'] + fixed2_mag_str((-v) as nat)
    } else {
        fixed2_mag_str(v as nat)
    }
}

/// `num / den` in hundredths, rounded half away from zero
/// (meaningful for `den >= 1`).
pub open spec fn round2(num: int, den: int) -> int {
    if num >= 0 {
        (200 * num + den) / (2 * den)
    } else {
        -((200 * (-num) + den) / (2 * den))
    }
}

/// The single-character string for decimal digit `d`.
fn digit_string(d: u64) -> (r: String)
    requires
        d < 10,
    ensures
        r@ == seq![digit_char(d as int)],
{
    proof {
        reveal_strlit("0");
        reveal_strlit("1");
        reveal_strlit("2");
        reveal_strlit("3");
        reveal_strlit("4");
        reveal_strlit("5");
        reveal_strlit("6");
        reveal_strlit("7");
        reveal_strlit("8");
        reveal_strlit("9");
    }
    let r = match d {
        0 => "0".to_owned(),
        1 => "1".to_owned(),
        2 => "2".to_owned(),
        3 => "3".to_owned(),
        4 => "4".to_owned(),
        5 => "5".to_owned(),
        6 => "6".to_owned(),
        7 => "7".to_owned(),
        8 => "8".to_owned(),
        _ => "9".to_owned(),
    };
    proof {
        assert(r@ =~= seq![digit_char(d as int)]);
    }
    r
}

/// Renders `n` in decimal, most significant digit first.
pub fn fmt_u64(n: u64) -> (r: String)
    ensures
        r@ == dec_str(n as nat),
    decreases n,
{
    if n < 10 {
        digit_string(n)
    } else {
        let mut s = fmt_u64(n / 10);
        let tail = digit_string(n % 10);
        s.append(tail.as_str());
        proof {
            assert(s@ =~= dec_str(n as nat));
        }
        s
    }
}

/// Renders `v` hundredths as a signed decimal with exactly two
/// fraction digits.
pub fn fmt_fixed2(v: i64) -> (r: String)
    ensures
        r@ == fixed2_str(v as int),
{
    proof {
        reveal_strlit("-");
        reveal_strlit("");
        reveal_strlit(".");
    }
    let neg = v < 0;
    let mag: u64 = if v < 0 {
        (-(v as i128)) as u64
    } else {
        v as u64
    };
    proof {
        assert(mag as int == (if v < 0 {
            -(v as int)
        } else {
            v as int
        }));
    }
    let mut s = if neg {
        "-".to_owned()
    } else {
        "".to_owned()
    };
    let units = fmt_u64(mag / 100);
    s.append(units.as_str());
    s.append(".");
    let tens = digit_string((mag % 100) / 10);
    s.append(tens.as_str());
    let ones = digit_string(mag % 10);
    s.append(ones.as_str());
    proof {
        assert(s@ =~= fixed2_str(v as int));
    }
    s
}

/// Rounds `num / den` to hundredths, halves away from zero.
pub fn round_to_hundredths(num: i64, den: i64) -> (r: i64)
    requires
        -10_000_000_000_000_000 <= num <= 10_000_000_000_000_000,
        1 <= den <= 10_000_000_000_000_000,
    ensures
        r as int == round2(num as int, den as int),
{
    let neg = num < 0;
    let m: u64 = if num < 0 {
        (-num) as u64
    } else {
        num as u64
    };
    let d: u64 = den as u64;
    let q: u64 = (200 * m + d) / (2 * d);
    if neg {
        -(q as i64)
    } else {
        q as i64
    }
}

} // verus!
