//! Decimal rendering of integers and byte-count formatting in the three
//! unit conventions (standard, IEC, SI).

use vstd::prelude::*;

use crate::text::{eq_str, lower_seq, push_char, to_lower_str};

verus! {

/// The decimal digit character for `d`.
pub open spec fn digit_char(d: nat) -> char
    recommends
        d < 10,
{
    if d == 0 {
        '0'
    } else if d == 1 {
        '1'
    } else if d == 2 {
        '2'
    } else if d == 3 {
        '3'
    } else if d == 4 {
        '4'
    } else if d == 5 {
        '5'
    } else if d == 6 {
        '6'
    } else if d == 7 {
        '7'
    } else if d == 8 {
        '8'
    } else {
        '9'
    }
}

/// The decimal representation of `n`, without leading zeros (just "0" for 0).
pub open spec fn dec_seq(n: nat) -> Seq<char>
    decreases n,
{
    if n < 10 {
        seq![digit_char(n)]
    } else {
        dec_seq(n / 10).push(digit_char(n % 10))
    }
}

/// Every character of a decimal representation is a digit.
pub proof fn lemma_dec_seq_digit_range(n: nat)
    ensures
        forall|j: int| 0 <= j < dec_seq(n).len() ==> '0' <= #[trigger] dec_seq(n)[j] <= '9',
        dec_seq(n).len() >= 1,
    decreases n,
{
    if n < 10 {
        assert('0' <= digit_char(n) <= '9');
    } else {
        lemma_dec_seq_digit_range(n / 10);
        assert('0' <= digit_char(n % 10) <= '9');
        assert(dec_seq(n) == dec_seq(n / 10).push(digit_char(n % 10)));
        assert forall|j: int| 0 <= j < dec_seq(n).len() implies '0' <= #[trigger] dec_seq(n)[j]
            <= '9' by {
            if j < dec_seq(n / 10).len() {
                assert(dec_seq(n)[j] == dec_seq(n / 10)[j]);
            }
        }
    }
}

/// The decimal representation of `n < 100`, padded to two digits.
pub open spec fn pad2_seq(n: nat) -> Seq<char>
    recommends
        n < 100,
{
    if n < 10 {
        seq!['0', digit_char(n)]
    } else {
        dec_seq(n)
    }
}

fn digit_of(d: u64) -> (c: char)
    requires
        d < 10,
    ensures
        c == digit_char(d as nat),
{
    if d == 0 {
        '0'
    } else if d == 1 {
        '1'
    } else if d == 2 {
        '2'
    } else if d == 3 {
        '3'
    } else if d == 4 {
        '4'
    } else if d == 5 {
        '5'
    } else if d == 6 {
        '6'
    } else if d == 7 {
        '7'
    } else if d == 8 {
        '8'
    } else {
        '9'
    }
}

/// Renders `n` in decimal.
pub fn u64_to_dec(n: u64) -> (r: String)
    ensures
        r@ == dec_seq(n as nat),
    decreases n,
{
    if n < 10 {
        let mut s = String::new();
        push_char(&mut s, digit_of(n));
        proof {
            assert(s@ =~= dec_seq(n as nat));
        }
        s
    } else {
        let mut s = u64_to_dec(n / 10);
        push_char(&mut s, digit_of(n % 10));
        s
    }
}

/// Renders `n < 100` as exactly two decimal digits.
pub fn u64_to_pad2(n: u64) -> (r: String)
    requires
        n < 100,
    ensures
        r@ == pad2_seq(n as nat),
{
    if n < 10 {
        let mut s = String::new();
        push_char(&mut s, '0');
        push_char(&mut s, digit_of(n));
        proof {
            assert(s@ =~= pad2_seq(n as nat));
        }
        s
    } else {
        u64_to_dec(n)
    }
}

/// The unit base implied by a (lowercased) unit type: 1000 for SI, 1024 otherwise.
pub open spec fn spec_unit_base(unit_lower: Seq<char>) -> nat {
    if unit_lower == "si"@ {
        1000
    } else {
        1024
    }
}

/// The unit suffix for magnitude `idx` under a (lowercased) unit type.
pub open spec fn spec_unit_name(unit_lower: Seq<char>, idx: nat) -> Seq<char>
    recommends
        idx <= 4,
{
    if unit_lower == "iec"@ {
        if idx == 0 {
            "B"@
        } else if idx == 1 {
            "KiB"@
        } else if idx == 2 {
            "MiB"@
        } else if idx == 3 {
            "GiB"@
        } else {
            "TiB"@
        }
    } else {
        if idx == 0 {
            "B"@
        } else if idx == 1 {
            "KB"@
        } else if idx == 2 {
            "MB"@
        } else if idx == 3 {
            "GB"@
        } else {
            "TB"@
        }
    }
}

/// The magnitude index chosen for `bytes`: the largest `i <= 4` with
/// `bytes >= base^i`.
pub open spec fn spec_unit_idx(bytes: nat, base: nat) -> nat {
    if bytes < base {
        0
    } else if bytes < base * base {
        1
    } else if bytes < base * base * base {
        2
    } else if bytes < base * base * base * base {
        3
    } else {
        4
    }
}

/// `base^idx` for the small exponents used here.
pub open spec fn spec_unit_div(base: nat, idx: nat) -> nat
    recommends
        idx <= 4,
{
    if idx == 0 {
        1
    } else if idx == 1 {
        base
    } else if idx == 2 {
        base * base
    } else if idx == 3 {
        base * base * base
    } else {
        base * base * base * base
    }
}

/// `bytes / d` in hundredths, rounded to the nearest (half away from zero).
pub open spec fn spec_hundredths(bytes: nat, d: nat) -> nat
    recommends
        d > 0,
{
    (bytes * 200 + d) / (2 * d)
}

/// What `format_bytes` returns: `"0 B"` for zero, else the scaled value with
/// two fractional digits and the unit suffix.
pub open spec fn spec_format_bytes(bytes: nat, unit_lower: Seq<char>) -> Seq<char> {
    if bytes == 0 {
        "0 "@ + spec_unit_name(unit_lower, 0)
    } else {
        let base = spec_unit_base(unit_lower);
        let idx = spec_unit_idx(bytes, base);
        let h = spec_hundredths(bytes, spec_unit_div(base, idx));
        dec_seq(h / 100) + "."@ + pad2_seq(h % 100) + " "@ + spec_unit_name(unit_lower, idx)
    }
}

fn unit_name_of(iec: bool, idx: u64, Ghost(ul): Ghost<Seq<char>>) -> (r: &'static str)
    requires
        idx <= 4,
        iec == (ul == "iec"@),
    ensures
        r@ == spec_unit_name(ul, idx as nat),
{
    if iec {
        if idx == 0 {
            "B"
        } else if idx == 1 {
            "KiB"
        } else if idx == 2 {
            "MiB"
        } else if idx == 3 {
            "GiB"
        } else {
            "TiB"
        }
    } else {
        if idx == 0 {
            "B"
        } else if idx == 1 {
            "KB"
        } else if idx == 2 {
            "MB"
        } else if idx == 3 {
            "GB"
        } else {
            "TB"
        }
    }
}

/// Formats a byte count under the given unit type (`"iec"`, `"si"`, or
/// anything else for the standard convention), matching
/// `spec_format_bytes` on the lowercased unit type.
pub fn format_bytes(bytes: u64, unit_type: &str) -> (r: String)
    ensures
        r@ == spec_format_bytes(bytes as nat, lower_seq(unit_type@)),
{
    let lower = to_lower_str(unit_type);
    let si = eq_str(lower.as_str(), "si");
    let iec = eq_str(lower.as_str(), "iec");
    let ghost ul = lower_seq(unit_type@);
    let base: u64 = if si {
        1000
    } else {
        1024
    };
    assert(base == spec_unit_base(ul));
    if bytes == 0 {
        let mut s = String::from_str("0 ");
        s.append(unit_name_of(iec, 0, Ghost(ul)));
        proof {
            assert(s@ =~= spec_format_bytes(bytes as nat, ul));
        }
        return s;
    }
    let b2 = base * base;
    let b3 = b2 * base;
    let b4 = b3 * base;
    let idx: u64 = if bytes < base {
        0
    } else if bytes < b2 {
        1
    } else if bytes < b3 {
        2
    } else if bytes < b4 {
        3
    } else {
        4
    };
    assert(idx == spec_unit_idx(bytes as nat, base as nat));
    let d: u64 = if idx == 0 {
        1
    } else if idx == 1 {
        base
    } else if idx == 2 {
        b2
    } else if idx == 3 {
        b3
    } else {
        b4
    };
    assert(d == spec_unit_div(base as nat, idx as nat));
    let num: u128 = (bytes as u128) * 200 + (d as u128);
    let den: u128 = 2 * (d as u128);
    let h128: u128 = num / den;
    proof {
        assert(h128 == spec_hundredths(bytes as nat, d as nat));
        if idx < 4 {
            assert((bytes as nat) < (d as nat) * (base as nat)) by (nonlinear_arith)
                requires
                    idx < 4,
                    idx == spec_unit_idx(bytes as nat, base as nat),
                    d == spec_unit_div(base as nat, idx as nat),
                    base == 1000 || base == 1024,
            ;
            assert((num as int) < (den as int) * (100 * (base as int) + 1)) by (nonlinear_arith)
                requires
                    (bytes as nat) < (d as nat) * (base as nat),
                    num == (bytes as nat) * 200 + d,
                    den == 2 * (d as nat),
                    d >= 1,
                    base >= 1000,
            ;
            vstd::arithmetic::div_mod::lemma_multiply_divide_lt(
                num as int,
                den as int,
                100 * (base as int) + 1,
            );
            assert(h128 <= 100 * (base as int) + 1);
        } else {
            assert(d >= 1000000000000) by (nonlinear_arith)
                requires
                    d == spec_unit_div(base as nat, 4),
                    base == 1000 || base == 1024,
            ;
            assert((num as int) < (den as int) * 4000000000) by (nonlinear_arith)
                requires
                    num == (bytes as nat) * 200 + d,
                    den == 2 * (d as nat),
                    d >= 1000000000000,
                    bytes <= 0xffff_ffff_ffff_ffff,
            ;
            vstd::arithmetic::div_mod::lemma_multiply_divide_lt(
                num as int,
                den as int,
                4000000000,
            );
            assert(h128 < 4000000000);
        }
    }
    let h: u64 = h128 as u64;
    let mut s = u64_to_dec(h / 100);
    s.append(".");
    let frac = u64_to_pad2(h % 100);
    s.append(frac.as_str());
    s.append(" ");
    s.append(unit_name_of(iec, idx, Ghost(ul)));
    proof {
        assert(s@ =~= spec_format_bytes(bytes as nat, ul));
    }
    s
}

} // verus!
