//! Small verified text utilities: decimal rendering of port numbers and
//! colon replacement in host names.

use vstd::prelude::*;

verus! {

broadcast use vstd::string::is_ascii_spec_bytes;

/// The decimal digit character for `d`.
pub open spec fn dec_digit(d: nat) -> char
    recommends
        d < 10,
{
    if d == 0 {
        '0'
    } else if d == 1 {
        '1'
    } else if d == 2 {
        '2'
    } else if d == 3 {
        '3'
    } else if d == 4 {
        '4'
    } else if d == 5 {
        '5'
    } else if d == 6 {
        '6'
    } else if d == 7 {
        '7'
    } else if d == 8 {
        '8'
    } else {
        '9'
    }
}

/// The usual decimal rendering of `n`, most significant digit first,
/// without leading zeros (`0` renders as `0`).
pub open spec fn dec_rep(n: nat) -> Seq<char>
    decreases n,
{
    if n < 10 {
        seq![dec_digit(n)]
    } else {
        dec_rep(n / 10).push(dec_digit(n % 10))
    }
}

/// The one-character string for a decimal digit.
fn digit_str(d: u16) -> (r: &'static str)
    requires
        d < 10,
    ensures
        r@ == seq![dec_digit(d as nat)],
{
    proof {
        reveal_strlit("0");
        reveal_strlit("1");
        reveal_strlit("2");
        reveal_strlit("3");
        reveal_strlit("4");
        reveal_strlit("5");
        reveal_strlit("6");
        reveal_strlit("7");
        reveal_strlit("8");
        reveal_strlit("9");
    }
    let r: &'static str = if d == 0 {
        "0"
    } else if d == 1 {
        "1"
    } else if d == 2 {
        "2"
    } else if d == 3 {
        "3"
    } else if d == 4 {
        "4"
    } else if d == 5 {
        "5"
    } else if d == 6 {
        "6"
    } else if d == 7 {
        "7"
    } else {
        "8"
    };
    if d == 9 {
        proof {
            assert("9"@ =~= seq![dec_digit(9)]);
        }
        return "9";
    }
    assert(r@ =~= seq![dec_digit(d as nat)]);
    r
}

/// Appends the decimal rendering of `n` to `s`.
pub fn push_decimal(s: &mut String, n: u16)
    ensures
        final(s)@ == old(s)@ + dec_rep(n as nat),
    decreases n,
{
    if n >= 10 {
        push_decimal(s, n / 10);
    }
    s.append(digit_str(n % 10));
    assert(s@ =~= old(s)@ + dec_rep(n as nat));
}

/// The string `s` with every colon replaced by an underscore.
pub open spec fn replace_colons(s: Seq<char>) -> Seq<char> {
    Seq::new(s.len(), |i: int| if s[i] == ':' { '_' } else { s[i] })
}

/// Replaces every colon in an ASCII string by an underscore.
pub fn replace_colons_ascii(s: &str) -> (r: String)
    requires
        s.is_ascii(),
    ensures
        r@ == replace_colons(s@),
{
    proof {
        reveal_strlit("_");
    }
    let underscore: &str = "_";
    assert(underscore@ =~= seq!['_']);
    let len = s.unicode_len();
    let mut r = String::new();
    let mut i: usize = 0;
    while i < len
        invariant
            i <= len,
            len == s@.len(),
            s.is_ascii(),
            underscore@ =~= seq!['_'],
            r@.len() == i,
            forall|j: int| 0 <= j < i ==> r@[j] == (if s@[j] == ':' {
                '_'
            } else {
                s@[j]
            }),
        decreases len - i,
    {
        let c = s.get_char(i);
        if c == ':' {
            r.append(underscore);
        } else {
            let piece = s.substring_ascii(i, i + 1);
            assert(piece@[0] == s@[i as int]);
            r.append(piece);
        }
        i = i + 1;
    }
    assert(r@ =~= replace_colons(s@));
    r
}

} // verus!
