//! Rendering of numbers and addresses as text.

use vstd::prelude::*;
use vstd::string::StringExecFns;

verus! {

/// The character that stands for the decimal digit `d`.
pub open spec fn digit_char(d: nat) -> char {
    if d == 0 {
        '0'
    } else if d == 1 {
        '1'
    } else if d == 2 {
        '2'
    } else if d == 3 {
        '3'
    } else if d == 4 {
        '4'
    } else if d == 5 {
        '5'
    } else if d == 6 {
        '6'
    } else if d == 7 {
        '7'
    } else if d == 8 {
        '8'
    } else {
        '9'
    }
}

/// The decimal numeral of `n`, without sign or leading zeros.
pub open spec fn decimal(n: nat) -> Seq<char>
    decreases n,
{
    if n < 10 {
        seq![digit_char(n)]
    } else {
        decimal(n / 10).push(digit_char(n % 10))
    }
}

fn digit_str(d: u64) -> (s: &'static str)
    requires
        d < 10,
    ensures
        s@ == seq![digit_char(d as nat)],
{
    proof {
        reveal_strlit("0");
        reveal_strlit("1");
        reveal_strlit("2");
        reveal_strlit("3");
        reveal_strlit("4");
        reveal_strlit("5");
        reveal_strlit("6");
        reveal_strlit("7");
        reveal_strlit("8");
        reveal_strlit("9");
    }
    let s = if d == 0 {
        "0"
    } else if d == 1 {
        "1"
    } else if d == 2 {
        "2"
    } else if d == 3 {
        "3"
    } else if d == 4 {
        "4"
    } else if d == 5 {
        "5"
    } else if d == 6 {
        "6"
    } else if d == 7 {
        "7"
    } else if d == 8 {
        "8"
    } else {
        "9"
    };
    assert(s@ =~= seq![digit_char(d as nat)]);
    s
}

/// Appends the decimal numeral of `n` to `out`.
pub fn push_decimal(out: &mut String, n: u64)
    ensures
        final(out)@ == old(out)@ + decimal(n as nat),
    decreases n,
{
    if n < 10 {
        out.append(digit_str(n));
    } else {
        push_decimal(out, n / 10);
        out.append(digit_str(n % 10));
        assert(out@ =~= old(out)@ + decimal(n as nat));
    }
}

/// The decimal numeral of `n`.
pub fn to_decimal(n: u64) -> (s: String)
    ensures
        s@ == decimal(n as nat),
{
    let mut s = String::new();
    push_decimal(&mut s, n);
    assert(s@ =~= decimal(n as nat));
    s
}

/// An IPv4 address, most significant octet first.
#[derive(Clone, Copy, Debug, PartialEq, Eq, Structural)]
pub struct Ipv4Address {
    pub a: u8,
    pub b: u8,
    pub c: u8,
    pub d: u8,
}

/// The dotted-quad notation of an address.
pub open spec fn dotted_quad(address: Ipv4Address) -> Seq<char> {
    decimal(address.a as nat) + seq!['.'] + decimal(address.b as nat) + seq!['.'] + decimal(
        address.c as nat,
    ) + seq!['.'] + decimal(address.d as nat)
}

/// Appends the dotted-quad notation of `address` to `out`.
pub fn push_dotted_quad(out: &mut String, address: Ipv4Address)
    ensures
        final(out)@ == old(out)@ + dotted_quad(address),
{
    proof {
        reveal_strlit(".");
    }
    push_decimal(out, address.a as u64);
    out.append(".");
    push_decimal(out, address.b as u64);
    out.append(".");
    push_decimal(out, address.c as u64);
    out.append(".");
    push_decimal(out, address.d as u64);
    assert(out@ =~= old(out)@ + dotted_quad(address));
}

impl Ipv4Address {
    /// The address `a.b.c.d`.
    pub fn new(a: u8, b: u8, c: u8, d: u8) -> (address: Ipv4Address)
        ensures
            address == (Ipv4Address { a, b, c, d }),
    {
        Ipv4Address { a, b, c, d }
    }

    /// The dotted-quad notation of this address.
    pub fn to_text(&self) -> (s: String)
        ensures
            s@ == dotted_quad(*self),
    {
        let mut s = String::new();
        push_dotted_quad(&mut s, *self);
        assert(s@ =~= dotted_quad(*self));
        s
    }
}

} // verus!
