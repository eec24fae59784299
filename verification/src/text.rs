//! Texture-key text: decimal rendering of small numbers and the key of a
//! revealed enemy's sprite.
//!
//! The core never touches pixel data; it only writes string keys that the
//! texture collaborator resolves.  The key of a revealed enemy encodes its
//! health and attack in decimal.

use vstd::prelude::*;
use vstd::string::StringExecFns;

verus! {

/// The decimal digit character for `d` in `0..10`.
pub open spec fn digit_char(d: int) -> char {
    if d == 0 {
        '0'
    } else if d == 1 {
        '1'
    } else if d == 2 {
        '2'
    } else if d == 3 {
        '3'
    } else if d == 4 {
        '4'
    } else if d == 5 {
        '5'
    } else if d == 6 {
        '6'
    } else if d == 7 {
        '7'
    } else if d == 8 {
        '8'
    } else {
        '9'
    }
}

/// The decimal digits of `n`, most significant first, without leading
/// zeros (a lone zero for `n == 0`).
pub open spec fn dec_digits(n: nat) -> Seq<char>
    decreases n,
{
    if n < 10 {
        seq![digit_char(n as int)]
    } else {
        dec_digits(n / 10).push(digit_char((n % 10) as int))
    }
}

fn digit_str(d: u8) -> (s: &'static str)
    requires
        d < 10,
    ensures
        s@ == seq![digit_char(d as int)],
{
    proof {
        reveal_strlit("0");
        reveal_strlit("1");
        reveal_strlit("2");
        reveal_strlit("3");
        reveal_strlit("4");
        reveal_strlit("5");
        reveal_strlit("6");
        reveal_strlit("7");
        reveal_strlit("8");
        reveal_strlit("9");
    }
    let s: &'static str = if d == 0 {
        "0"
    } else if d == 1 {
        "1"
    } else if d == 2 {
        "2"
    } else if d == 3 {
        "3"
    } else if d == 4 {
        "4"
    } else if d == 5 {
        "5"
    } else if d == 6 {
        "6"
    } else if d == 7 {
        "7"
    } else if d == 8 {
        "8"
    } else {
        "9"
    };
    proof {
        assert(s@ =~= seq![digit_char(d as int)]);
    }
    s
}

/// Renders `n` in decimal, most significant digit first.
pub fn u8_decimal(n: u8) -> (s: String)
    ensures
        s@ == dec_digits(n as nat),
    decreases n,
{
    if n < 10 {
        String::from_str(digit_str(n))
    } else {
        let mut s = u8_decimal(n / 10);
        s.append(digit_str(n % 10));
        proof {
            assert(s@ =~= dec_digits(n as nat));
        }
        s
    }
}

/// The texture key of a revealed enemy with the given health and attack.
pub open spec fn revealed_key_view(health: int, attack: int) -> Seq<char> {
    "h:"@ + dec_digits(health as nat) + "_a:"@ + dec_digits(attack as nat)
}

/// Builds the texture key under which a revealed enemy's face is
/// registered: its health and attack in decimal.
pub fn revealed_key(health: i8, attack: i8) -> (s: String)
    requires
        0 <= health,
        0 <= attack,
    ensures
        s@ == revealed_key_view(health as int, attack as int),
{
    let mut s = String::from_str("h:");
    let h = u8_decimal(health as u8);
    s.append(h.as_str());
    s.append("_a:");
    let a = u8_decimal(attack as u8);
    s.append(a.as_str());
    proof {
        assert(s@ =~= revealed_key_view(health as int, attack as int));
    }
    s
}

} // verus!
