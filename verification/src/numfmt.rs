//! Decimal and hexadecimal text for the numbers the crate prints:
//! address octets, ports and error codes.

use vstd::prelude::*;
use vstd::string::StringExecFns;

verus! {

/// The decimal digit character for `d` in 0..10.
pub open spec fn spec_dec_digit(d: int) -> char {
    if d == 0 {
        '0'
    } else if d == 1 {
        '1'
    } else if d == 2 {
        '2'
    } else if d == 3 {
        '3'
    } else if d == 4 {
        '4'
    } else if d == 5 {
        '5'
    } else if d == 6 {
        '6'
    } else if d == 7 {
        '7'
    } else if d == 8 {
        '8'
    } else {
        '9'
    }
}

/// The decimal text of a non-negative number, most significant digit
/// first, no leading zeros (a lone zero for 0).
pub open spec fn spec_udec(n: int) -> Seq<char>
    decreases n, when n >= 0
{
    if n < 10 {
        seq![spec_dec_digit(n)]
    } else {
        spec_udec(n / 10).push(spec_dec_digit(n % 10))
    }
}

/// The decimal text of a signed number: a minus sign when negative.
pub open spec fn spec_idec(n: int) -> Seq<char> {
    if n < 0 {
        seq!['-'] + spec_udec(-n)
    } else {
        spec_udec(n)
    }
}

/// The lower-case hexadecimal digit character for `d` in 0..16.
pub open spec fn spec_hex_digit(d: int) -> char {
    if d < 10 {
        spec_dec_digit(d)
    } else if d == 10 {
        'a'
    } else if d == 11 {
        'b'
    } else if d == 12 {
        'c'
    } else if d == 13 {
        'd'
    } else if d == 14 {
        'e'
    } else {
        'f'
    }
}

/// The lower-case hexadecimal text of a non-negative number, no leading
/// zeros (a lone zero for 0).
pub open spec fn spec_uhex(n: int) -> Seq<char>
    decreases n, when n >= 0
{
    if n < 16 {
        seq![spec_hex_digit(n)]
    } else {
        spec_uhex(n / 16).push(spec_hex_digit(n % 16))
    }
}

fn dec_digit_str(d: u32) -> (r: &'static str)
    requires
        d < 10,
    ensures
        r@ == seq![spec_dec_digit(d as int)],
{
    if d == 0 {
        proof {
            reveal_strlit("0");
            assert("0"@ =~= seq![spec_dec_digit(0)]);
        }
        "0"
    } else if d == 1 {
        proof {
            reveal_strlit("1");
            assert("1"@ =~= seq![spec_dec_digit(1)]);
        }
        "1"
    } else if d == 2 {
        proof {
            reveal_strlit("2");
            assert("2"@ =~= seq![spec_dec_digit(2)]);
        }
        "2"
    } else if d == 3 {
        proof {
            reveal_strlit("3");
            assert("3"@ =~= seq![spec_dec_digit(3)]);
        }
        "3"
    } else if d == 4 {
        proof {
            reveal_strlit("4");
            assert("4"@ =~= seq![spec_dec_digit(4)]);
        }
        "4"
    } else if d == 5 {
        proof {
            reveal_strlit("5");
            assert("5"@ =~= seq![spec_dec_digit(5)]);
        }
        "5"
    } else if d == 6 {
        proof {
            reveal_strlit("6");
            assert("6"@ =~= seq![spec_dec_digit(6)]);
        }
        "6"
    } else if d == 7 {
        proof {
            reveal_strlit("7");
            assert("7"@ =~= seq![spec_dec_digit(7)]);
        }
        "7"
    } else if d == 8 {
        proof {
            reveal_strlit("8");
            assert("8"@ =~= seq![spec_dec_digit(8)]);
        }
        "8"
    } else {
        proof {
            reveal_strlit("9");
            assert("9"@ =~= seq![spec_dec_digit(9)]);
        }
        "9"
    }
}

fn hex_digit_str(d: u32) -> (r: &'static str)
    requires
        d < 16,
    ensures
        r@ == seq![spec_hex_digit(d as int)],
{
    if d < 10 {
        dec_digit_str(d)
    } else if d == 10 {
        proof {
            reveal_strlit("a");
            assert("a"@ =~= seq![spec_hex_digit(10)]);
        }
        "a"
    } else if d == 11 {
        proof {
            reveal_strlit("b");
            assert("b"@ =~= seq![spec_hex_digit(11)]);
        }
        "b"
    } else if d == 12 {
        proof {
            reveal_strlit("c");
            assert("c"@ =~= seq![spec_hex_digit(12)]);
        }
        "c"
    } else if d == 13 {
        proof {
            reveal_strlit("d");
            assert("d"@ =~= seq![spec_hex_digit(13)]);
        }
        "d"
    } else if d == 14 {
        proof {
            reveal_strlit("e");
            assert("e"@ =~= seq![spec_hex_digit(14)]);
        }
        "e"
    } else {
        proof {
            reveal_strlit("f");
            assert("f"@ =~= seq![spec_hex_digit(15)]);
        }
        "f"
    }
}

/// Appends the decimal text of `n` to `out`.
pub fn push_udec(out: &mut String, n: u32)
    ensures
        final(out)@ == old(out)@ + spec_udec(n as int),
    decreases n,
{
    if n < 10 {
        let d = dec_digit_str(n);
        out.append(d);
        proof {
            assert(old(out)@ + d@ =~= old(out)@ + spec_udec(n as int));
        }
    } else {
        let ghost start = out@;
        push_udec(out, n / 10);
        let d = dec_digit_str(n % 10);
        out.append(d);
        proof {
            assert((n / 10) as int == n as int / 10);
            assert((n % 10) as int == n as int % 10);
            assert(start + spec_udec(n as int / 10) + d@ =~= start + spec_udec(n as int));
        }
    }
}

/// Appends the lower-case hexadecimal text of `n` to `out`.
pub fn push_uhex(out: &mut String, n: u32)
    ensures
        final(out)@ == old(out)@ + spec_uhex(n as int),
    decreases n,
{
    if n < 16 {
        let d = hex_digit_str(n);
        out.append(d);
        proof {
            assert(old(out)@ + d@ =~= old(out)@ + spec_uhex(n as int));
        }
    } else {
        let ghost start = out@;
        push_uhex(out, n / 16);
        let d = hex_digit_str(n % 16);
        out.append(d);
        proof {
            assert((n / 16) as int == n as int / 16);
            assert((n % 16) as int == n as int % 16);
            assert(start + spec_uhex(n as int / 16) + d@ =~= start + spec_uhex(n as int));
        }
    }
}

/// The decimal text of an unsigned number, as a fresh string.
pub fn u32_dec_string(n: u32) -> (r: String)
    ensures
        r@ == spec_udec(n as int),
{
    let mut out = String::new();
    push_udec(&mut out, n);
    proof {
        assert(Seq::<char>::empty() + spec_udec(n as int) =~= spec_udec(n as int));
    }
    out
}

/// The decimal text of a signed number, as a fresh string.
pub fn i32_dec_string(n: i32) -> (r: String)
    ensures
        r@ == spec_idec(n as int),
{
    if n >= 0 {
        u32_dec_string(n as u32)
    } else {
        let mut out = String::new();
        proof {
            reveal_strlit("-");
        }
        out.append("-");
        let mag = (-(n as i64)) as u32;
        proof {
            assert(mag as int == -(n as int));
        }
        push_udec(&mut out, mag);
        proof {
            assert(Seq::<char>::empty() + "-"@ + spec_udec(mag as int) =~= spec_idec(n as int));
        }
        out
    }
}

} // verus!
