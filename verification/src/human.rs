use vstd::prelude::*;

verus! {

/// The decimal digit character for a value below ten.
pub open spec fn digit_char(d: nat) -> char {
    if d == 0 {
        '0'
    } else if d == 1 {
        '1'
    } else if d == 2 {
        '2'
    } else if d == 3 {
        '3'
    } else if d == 4 {
        '4'
    } else if d == 5 {
        '5'
    } else if d == 6 {
        '6'
    } else if d == 7 {
        '7'
    } else if d == 8 {
        '8'
    } else {
        '9'
    }
}

/// The decimal rendering of a non-negative integer, without leading zeros.
pub open spec fn spec_decimal(n: nat) -> Seq<char>
    decreases n,
{
    if n < 10 {
        seq![digit_char(n)]
    } else {
        spec_decimal(n / 10).push(digit_char(n % 10))
    }
}

/// How many times a byte count is scaled down by 1024 before display:
/// 0 for B, 1 for KB, 2 for MB, 3 for GB, 4 for TB. TB is the largest
/// unit offered, so any count of 1024^4 or more stays expressed in TB.
pub open spec fn unit_index(n: nat) -> nat {
    if n < 0x400 {
        0
    } else if n < 0x100000 {
        1
    } else if n < 0x40000000 {
        2
    } else if n < 0x10000000000 {
        3
    } else {
        4
    }
}

/// The divisor that scales a byte count into the unit at a scaling step.
pub open spec fn unit_divisor(u: nat) -> nat {
    if u == 0 {
        1
    } else if u == 1 {
        0x400
    } else if u == 2 {
        0x100000
    } else if u == 3 {
        0x40000000
    } else {
        0x10000000000
    }
}

/// The unit suffix for each scaling step.
pub open spec fn unit_name(u: nat) -> Seq<char> {
    if u == 0 {
        seq!['B']
    } else if u == 1 {
        seq!['K', 'B']
    } else if u == 2 {
        seq!['M', 'B']
    } else if u == 3 {
        seq!['G', 'B']
    } else {
        seq!['T', 'B']
    }
}

/// The byte count scaled into its unit, in hundredths of that unit,
/// rounded to the nearest hundredth with ties rounded upward.
pub open spec fn spec_hundredths(n: nat) -> nat {
    (n * 100 + unit_divisor(unit_index(n)) / 2) / unit_divisor(unit_index(n))
}

/// What the formatter produces for a byte count: the scaled value with
/// exactly two decimal places, a space, and the unit suffix.
pub open spec fn spec_format_bytes(n: nat) -> Seq<char> {
    spec_decimal(spec_hundredths(n) / 100) + seq![
        '.',
        digit_char((spec_hundredths(n) % 100) / 10),
        digit_char(spec_hundredths(n) % 10),
        ' ',
    ] + unit_name(unit_index(n))
}

/// The one-character string for a decimal digit.
fn digit_str(d: u64) -> (r: &'static str)
    requires
        d < 10,
    ensures
        r@ == seq![digit_char(d as nat)],
{
    proof {
        reveal_strlit("0");
        reveal_strlit("1");
        reveal_strlit("2");
        reveal_strlit("3");
        reveal_strlit("4");
        reveal_strlit("5");
        reveal_strlit("6");
        reveal_strlit("7");
        reveal_strlit("8");
        reveal_strlit("9");
    }
    if d == 0 {
        assert("0"@ =~= seq![digit_char(d as nat)]);
        "0"
    } else if d == 1 {
        assert("1"@ =~= seq![digit_char(d as nat)]);
        "1"
    } else if d == 2 {
        assert("2"@ =~= seq![digit_char(d as nat)]);
        "2"
    } else if d == 3 {
        assert("3"@ =~= seq![digit_char(d as nat)]);
        "3"
    } else if d == 4 {
        assert("4"@ =~= seq![digit_char(d as nat)]);
        "4"
    } else if d == 5 {
        assert("5"@ =~= seq![digit_char(d as nat)]);
        "5"
    } else if d == 6 {
        assert("6"@ =~= seq![digit_char(d as nat)]);
        "6"
    } else if d == 7 {
        assert("7"@ =~= seq![digit_char(d as nat)]);
        "7"
    } else if d == 8 {
        assert("8"@ =~= seq![digit_char(d as nat)]);
        "8"
    } else {
        assert("9"@ =~= seq![digit_char(d as nat)]);
        "9"
    }
}

/// The suffix string for a unit scaling step.
fn unit_str(u: u64) -> (r: &'static str)
    requires
        u <= 4,
    ensures
        r@ == unit_name(u as nat),
{
    proof {
        reveal_strlit("B");
        reveal_strlit("KB");
        reveal_strlit("MB");
        reveal_strlit("GB");
        reveal_strlit("TB");
    }
    if u == 0 {
        assert("B"@ =~= unit_name(u as nat));
        "B"
    } else if u == 1 {
        assert("KB"@ =~= unit_name(u as nat));
        "KB"
    } else if u == 2 {
        assert("MB"@ =~= unit_name(u as nat));
        "MB"
    } else if u == 3 {
        assert("GB"@ =~= unit_name(u as nat));
        "GB"
    } else {
        assert("TB"@ =~= unit_name(u as nat));
        "TB"
    }
}

/// Appends the decimal rendering of `n` to `out`.
pub(crate) fn push_decimal(out: &mut String, n: u64)
    ensures
        final(out)@ == old(out)@ + spec_decimal(n as nat),
    decreases n,
{
    if n >= 10 {
        push_decimal(out, n / 10);
        out.append(digit_str(n % 10));
        proof {
            assert(spec_decimal(n as nat) =~= spec_decimal((n / 10) as nat) + seq![
                digit_char((n % 10) as nat),
            ]);
            assert(out@ =~= old(out)@ + spec_decimal(n as nat));
        }
    } else {
        out.append(digit_str(n));
        proof {
            assert(out@ =~= old(out)@ + spec_decimal(n as nat));
        }
    }
}

/// Renders a byte count as a human-readable magnitude: the count is scaled
/// by the largest of B, KB, MB, GB, TB that keeps the value at least one
/// (or stays in TB at the top), and shown with two decimal places.
pub fn format_bytes(n: u64) -> (r: String)
    ensures
        r@ == spec_format_bytes(n as nat),
{
    let u: u64 = if n < 0x400 {
        0
    } else if n < 0x100000 {
        1
    } else if n < 0x40000000 {
        2
    } else if n < 0x10000000000 {
        3
    } else {
        4
    };
    let d: u64 = if u == 0 {
        1
    } else if u == 1 {
        0x400
    } else if u == 2 {
        0x100000
    } else if u == 3 {
        0x40000000
    } else {
        0x10000000000
    };
    proof {
        assert(u as nat == unit_index(n as nat));
        assert(d as nat == unit_divisor(u as nat));
    }
    let h128: u128 = ((n as u128) * 100 + (d as u128) / 2) / (d as u128);
    proof {
        assert(h128 as nat == spec_hundredths(n as nat));
        assert(h128 < 0x8000000000000000);
    }
    let h: u64 = h128 as u64;
    let mut s = String::new();
    push_decimal(&mut s, h / 100);
    s.append(".");
    s.append(digit_str((h % 100) / 10));
    s.append(digit_str(h % 10));
    s.append(" ");
    s.append(unit_str(u));
    proof {
        reveal_strlit(".");
        reveal_strlit(" ");
        assert(s@ =~= spec_format_bytes(n as nat));
    }
    s
}

} // verus!
