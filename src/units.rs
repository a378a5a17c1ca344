//! Human-readable byte counts.

use vstd::prelude::*;

verus! {

/// Index into `B, KB, MB, GB, TB` of the unit a count of `b` bytes is shown in:
/// the largest whose size does not exceed `b`, at most `TB`.
pub open spec fn unit_index(b: int) -> int {
    if b < 1024 {
        0
    } else if b < 1024 * 1024 {
        1
    } else if b < 1024 * 1024 * 1024 {
        2
    } else if b < 1024 * 1024 * 1024 * 1024 {
        3
    } else {
        4
    }
}

/// Bytes in unit `u`.
pub open spec fn unit_scale(u: int) -> int {
    if u == 0 {
        1
    } else if u == 1 {
        1024
    } else if u == 2 {
        1048576
    } else if u == 3 {
        1073741824
    } else {
        1099511627776
    }
}

/// Name of unit `u`.
pub open spec fn unit_name(u: int) -> Seq<char> {
    if u == 0 {
        "B"@
    } else if u == 1 {
        "KB"@
    } else if u == 2 {
        "MB"@
    } else if u == 3 {
        "GB"@
    } else {
        "TB"@
    }
}

/// `b` bytes in unit `u`, in hundredths, rounded to nearest with ties to even.
pub open spec fn hundredths(b: int, u: int) -> int {
    let d = unit_scale(u);
    let q = (b * 100) / d;
    let r = (b * 100) % d;
    if 2 * r > d || (2 * r == d && q % 2 == 1) {
        q + 1
    } else {
        q
    }
}

/// The decimal digit character for `d < 10`.
pub open spec fn digit_char(d: int) -> char {
    (d + 48) as char
}

/// The decimal numeral of `n`.
pub open spec fn decimal(n: nat) -> Seq<char>
    decreases n,
{
    if n < 10 {
        seq![digit_char(n as int)]
    } else {
        decimal(n / 10).push(digit_char((n % 10) as int))
    }
}

/// The text shown for `b` bytes: the value in its unit with two decimals, a
/// space, and the unit.
pub open spec fn bytes_text(b: int) -> Seq<char> {
    let u = unit_index(b);
    let h = hundredths(b, u);
    decimal((h / 100) as nat) + seq!['.', digit_char((h % 100) / 10), digit_char(h % 10)] + seq![' ']
        + unit_name(u)
}

fn digit_str(d: u128) -> (r: &'static str)
    requires
        d < 10,
    ensures
        r@ == seq![digit_char(d as int)],
{
    proof {
        reveal_strlit("0");
        reveal_strlit("1");
        reveal_strlit("2");
        reveal_strlit("3");
        reveal_strlit("4");
        reveal_strlit("5");
        reveal_strlit("6");
        reveal_strlit("7");
        reveal_strlit("8");
        reveal_strlit("9");
    }
    if d == 0 {
        "0"
    } else if d == 1 {
        "1"
    } else if d == 2 {
        "2"
    } else if d == 3 {
        "3"
    } else if d == 4 {
        "4"
    } else if d == 5 {
        "5"
    } else if d == 6 {
        "6"
    } else if d == 7 {
        "7"
    } else if d == 8 {
        "8"
    } else {
        "9"
    }
}

fn push_decimal(out: &mut String, n: u128)
    ensures
        final(out)@ == old(out)@ + decimal(n as nat),
    decreases n,
{
    if n >= 10 {
        push_decimal(out, n / 10);
    }
    out.append(digit_str(n % 10));
    proof {
        if n < 10 {
            assert(n % 10 == n);
        }
    }
}

/// Formats a byte count for people: `1536` is `"1.50 KB"`.
pub fn format_bytes(bytes: u64) -> (r: String)
    ensures
        r@ == bytes_text(bytes as int),
{
    let b = bytes as u128;
    let (u, scale): (u128, u128) = if b < 1024 {
        (0, 1)
    } else if b < 1024 * 1024 {
        (1, 1024)
    } else if b < 1024 * 1024 * 1024 {
        (2, 1024 * 1024)
    } else if b < 1024 * 1024 * 1024 * 1024 {
        (3, 1024 * 1024 * 1024)
    } else {
        (4, 1024 * 1024 * 1024 * 1024)
    };
    let q = (b * 100) / scale;
    let rem = (b * 100) % scale;
    let h = if 2 * rem > scale || (2 * rem == scale && q % 2 == 1) {
        q + 1
    } else {
        q
    };
    let mut out = String::new();
    push_decimal(&mut out, h / 100);
    out.append(".");
    out.append(digit_str((h % 100) / 10));
    out.append(digit_str(h % 10));
    out.append(" ");
    proof {
        reveal_strlit(".");
        reveal_strlit(" ");
        reveal_strlit("B");
        reveal_strlit("KB");
        reveal_strlit("MB");
        reveal_strlit("GB");
        reveal_strlit("TB");
    }
    if u == 0 {
        out.append("B");
    } else if u == 1 {
        out.append("KB");
    } else if u == 2 {
        out.append("MB");
    } else if u == 3 {
        out.append("GB");
    } else {
        out.append("TB");
    }
    assert(out@ =~= bytes_text(bytes as int));
    out
}

} // verus!
