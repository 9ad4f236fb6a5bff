use vstd::prelude::*;
use vstd::string::StringExecFns;

verus! {

/// The character for one decimal digit value.
pub open spec fn dec_digit(d: int) -> char {
    if d == 0 {
        '0'
    } else if d == 1 {
        '1'
    } else if d == 2 {
        '2'
    } else if d == 3 {
        '3'
    } else if d == 4 {
        '4'
    } else if d == 5 {
        '5'
    } else if d == 6 {
        '6'
    } else if d == 7 {
        '7'
    } else if d == 8 {
        '8'
    } else {
        '9'
    }
}

/// The decimal rendering of a number, most significant digit first,
/// with no leading zeros (a lone zero renders as "0").
pub open spec fn dec_seq(n: nat) -> Seq<char>
    decreases n,
{
    if n < 10 {
        seq![dec_digit(n as int)]
    } else {
        dec_seq(n / 10).push(dec_digit((n % 10) as int))
    }
}

/// The character for one hexadecimal digit value, upper case.
pub open spec fn hex_digit(d: int) -> char {
    if d < 10 {
        dec_digit(d)
    } else if d == 10 {
        'A'
    } else if d == 11 {
        'B'
    } else if d == 12 {
        'C'
    } else if d == 13 {
        'D'
    } else if d == 14 {
        'E'
    } else {
        'F'
    }
}

/// The hexadecimal rendering of a number, upper case, most
/// significant digit first, with no leading zeros.
pub open spec fn hex_seq(n: nat) -> Seq<char>
    decreases n,
{
    if n < 16 {
        seq![hex_digit(n as int)]
    } else {
        hex_seq(n / 16).push(hex_digit((n % 16) as int))
    }
}

/// The hexadecimal rendering of a number, zero-padded on the left to
/// at least four digits.
pub open spec fn hex_padded4(n: nat) -> Seq<char> {
    if n < 0x10 {
        "000"@ + hex_seq(n)
    } else if n < 0x100 {
        "00"@ + hex_seq(n)
    } else if n < 0x1000 {
        "0"@ + hex_seq(n)
    } else {
        hex_seq(n)
    }
}

fn append_dec_digit(s: &mut String, d: u64)
    requires
        d < 10,
    ensures
        final(s)@ == old(s)@.push(dec_digit(d as int)),
{
    let ghost pre = s@;
    match d {
        0 => s.append("0"),
        1 => s.append("1"),
        2 => s.append("2"),
        3 => s.append("3"),
        4 => s.append("4"),
        5 => s.append("5"),
        6 => s.append("6"),
        7 => s.append("7"),
        8 => s.append("8"),
        _ => s.append("9"),
    }
    proof {
        reveal_strlit("0");
        reveal_strlit("1");
        reveal_strlit("2");
        reveal_strlit("3");
        reveal_strlit("4");
        reveal_strlit("5");
        reveal_strlit("6");
        reveal_strlit("7");
        reveal_strlit("8");
        reveal_strlit("9");
        assert(s@ =~= pre.push(dec_digit(d as int)));
    }
}

fn append_hex_digit(s: &mut String, d: u64)
    requires
        d < 16,
    ensures
        final(s)@ == old(s)@.push(hex_digit(d as int)),
{
    let ghost pre = s@;
    if d < 10 {
        append_dec_digit(s, d);
    } else {
        match d {
            10 => s.append("A"),
            11 => s.append("B"),
            12 => s.append("C"),
            13 => s.append("D"),
            14 => s.append("E"),
            _ => s.append("F"),
        }
        proof {
            reveal_strlit("A");
            reveal_strlit("B");
            reveal_strlit("C");
            reveal_strlit("D");
            reveal_strlit("E");
            reveal_strlit("F");
            assert(s@ =~= pre.push(hex_digit(d as int)));
        }
    }
}

/// Append the decimal rendering of `n`.
pub fn append_dec(s: &mut String, n: u64)
    ensures
        final(s)@ == old(s)@ + dec_seq(n as nat),
    decreases n,
{
    let ghost pre = s@;
    if n >= 10 {
        append_dec(s, n / 10);
    }
    append_dec_digit(s, n % 10);
    proof {
        assert(s@ =~= pre + dec_seq(n as nat));
    }
}

/// Append the hexadecimal rendering of `n`, upper case, no padding.
pub fn append_hex(s: &mut String, n: u64)
    ensures
        final(s)@ == old(s)@ + hex_seq(n as nat),
    decreases n,
{
    let ghost pre = s@;
    if n >= 16 {
        append_hex(s, n / 16);
    }
    append_hex_digit(s, n % 16);
    proof {
        assert(s@ =~= pre + hex_seq(n as nat));
    }
}

/// Append the hexadecimal rendering of `n`, zero-padded to at least
/// four digits.
pub fn append_hex_padded4(s: &mut String, n: u64)
    ensures
        final(s)@ == old(s)@ + hex_padded4(n as nat),
{
    let ghost pre = s@;
    if n < 0x10 {
        s.append("000");
    } else if n < 0x100 {
        s.append("00");
    } else if n < 0x1000 {
        s.append("0");
    }
    append_hex(s, n);
    proof {
        assert(s@ =~= pre + hex_padded4(n as nat));
    }
}

/// Render a number in decimal as a fresh string.
pub fn dec_string(n: u64) -> (r: String)
    ensures
        r@ == dec_seq(n as nat),
{
    let mut s = String::new();
    append_dec(&mut s, n);
    proof {
        assert(s@ =~= dec_seq(n as nat));
    }
    s
}

} // verus!
