//! Byte counts in words: base-1000 units with two decimals.
use vstd::arithmetic::div_mod::lemma_div_denominator;
use vstd::prelude::*;

verus! {

/// The decimal digit for `d`.
pub open spec fn digit_char(d: nat) -> char {
    seq!['0', '1', '2', '3', '4', '5', '6', '7', '8', '9'][d as int]
}

/// `n` written in decimal, without leading zeros.
pub open spec fn decimal(n: nat) -> Seq<char>
    decreases n,
{
    if n < 10 {
        seq![digit_char(n)]
    } else {
        decimal(n / 10).push(digit_char(n % 10))
    }
}

/// `1000` to the power `e`.
pub open spec fn pow1000(e: nat) -> nat
    decreases e,
{
    if e == 0 {
        1
    } else {
        pow1000((e - 1) as nat) * 1000
    }
}

/// How many times `n` can be divided by 1000 and stay at least 1000 before
/// that, counting at most `cap` times.
pub open spec fn exponent_below(n: nat, cap: nat) -> nat
    decreases cap,
{
    if cap == 0 || n < 1000 {
        0
    } else {
        1 + exponent_below(n / 1000, (cap - 1) as nat)
    }
}

/// The unit index for `n` bytes: 0 for B, 1 for kB, up to 8 for YB.
pub open spec fn size_exponent(n: nat) -> nat {
    exponent_below(n, 8)
}

/// The unit name with index `e`.
pub open spec fn unit_name(e: nat) -> Seq<char> {
    if e == 0 {
        seq!['B']
    } else {
        seq![seq!['k', 'M', 'G', 'T', 'P', 'E', 'Z', 'Y'][e - 1], 'B']
    }
}

/// `n` bytes in hundredths of the unit with index `e`, rounded half up.
pub open spec fn hundredths(n: nat, e: nat) -> nat {
    (n * 100 + pow1000(e) / 2) / pow1000(e)
}

/// `n` bytes in words: a whole number of bytes under 1000, and above that the
/// largest base-1000 unit that keeps the number at least 1, with two decimals.
pub open spec fn humanized(n: nat) -> Seq<char> {
    let e = size_exponent(n);
    if e == 0 {
        decimal(n) + seq![' '] + unit_name(0)
    } else {
        let h = hundredths(n, e);
        decimal(h / 100) + seq!['.', digit_char((h % 100) / 10), digit_char(h % 10), ' ']
            + unit_name(e)
    }
}

/// The decimal digit for `d` as a string.
fn digit_str(d: u128) -> (r: &'static str)
    requires
        d < 10,
    ensures
        r@ == seq![digit_char(d as nat)],
{
    let digits = "0123456789";
    proof {
        reveal_strlit("0123456789");
    }
    let r = digits.substring_char(d as usize, d as usize + 1);
    proof {
        assert(r@ =~= seq![digit_char(d as nat)]);
    }
    r
}

/// `n` written in decimal.
pub fn decimal_string(n: u128) -> (r: String)
    ensures
        r@ == decimal(n as nat),
    decreases n,
{
    if n < 10 {
        String::from_str(digit_str(n))
    } else {
        let mut r = decimal_string(n / 10);
        r.append(digit_str(n % 10));
        r
    }
}

/// A byte count in words, such as `512 B` or `1.54 kB`.
pub fn humanize_bytes(num: u64) -> (r: String)
    ensures
        r@ == humanized(num as nat),
{
    let n = num as u128;
    let mut q: u128 = n;
    let mut d: u128 = 1;
    let mut e: u128 = 0;
    while e < 8 && q >= 1000
        invariant
            e <= 8,
            d == pow1000(e as nat),
            d > 0,
            q == n / d,
            n < 0x1_0000_0000_0000_0000,
            size_exponent(n as nat) == e + exponent_below(q as nat, (8 - e) as nat),
        decreases 8 - e,
    {
        proof {
            assert(d * 1000 <= n) by (nonlinear_arith)
                requires
                    q == n / d,
                    q >= 1000,
                    d > 0,
            ;
            lemma_div_denominator(n as int, d as int, 1000);
        }
        q = q / 1000;
        d = d * 1000;
        e = e + 1;
    }
    proof {
        assert(exponent_below(q as nat, (8 - e) as nat) == 0);
    }
    if e == 0 {
        let mut r = decimal_string(n);
        r.append(" B");
        proof {
            reveal_strlit(" B");
            assert(r@ =~= humanized(num as nat));
        }
        r
    } else {
        let h = (n * 100 + d / 2) / d;
        let mut r = decimal_string(h / 100);
        r.append(".");
        r.append(digit_str((h % 100) / 10));
        r.append(digit_str(h % 10));
        r.append(" ");
        let prefixes = "kMGTPEZY";
        proof {
            reveal_strlit(".");
            reveal_strlit(" ");
            reveal_strlit("kMGTPEZY");
        }
        r.append(prefixes.substring_char((e - 1) as usize, e as usize));
        r.append("B");
        proof {
            reveal_strlit("B");
            assert(r@ =~= humanized(num as nat));
        }
        r
    }
}

} // verus!
