use vstd::prelude::*;

verus! {

/// The decimal digit `d` (0 through 9) as a character.
pub open spec fn spec_digit_char(d: nat) -> char {
    if d == 0 {
        '0'
    } else if d == 1 {
        '1'
    } else if d == 2 {
        '2'
    } else if d == 3 {
        '3'
    } else if d == 4 {
        '4'
    } else if d == 5 {
        '5'
    } else if d == 6 {
        '6'
    } else if d == 7 {
        '7'
    } else if d == 8 {
        '8'
    } else {
        '9'
    }
}

/// The usual decimal rendering of `n`: most significant digit first, with no
/// leading zeros (a single `'0'` for zero itself).
pub open spec fn spec_decimal(n: nat) -> Seq<char>
    decreases n,
{
    if n < 10 {
        seq![spec_digit_char(n)]
    } else {
        spec_decimal(n / 10).push(spec_digit_char(n % 10))
    }
}

/// The identifier under which a certificate issued at host time `timestamp`
/// is stored: a fixed prefix followed by the timestamp in decimal.
pub open spec fn spec_cert_id(timestamp: u64) -> Seq<char> {
    seq!['C', 'E', 'R', 'T', '-'] + spec_decimal(timestamp as nat)
}

fn digit_str(d: u64) -> (r: &'static str)
    requires
        d < 10,
    ensures
        r@ == seq![spec_digit_char(d as nat)],
{
    if d == 0 {
        proof {
            reveal_strlit("0");
            assert("0"@ =~= seq![spec_digit_char(0)]);
        }
        "0"
    } else if d == 1 {
        proof {
            reveal_strlit("1");
            assert("1"@ =~= seq![spec_digit_char(1)]);
        }
        "1"
    } else if d == 2 {
        proof {
            reveal_strlit("2");
            assert("2"@ =~= seq![spec_digit_char(2)]);
        }
        "2"
    } else if d == 3 {
        proof {
            reveal_strlit("3");
            assert("3"@ =~= seq![spec_digit_char(3)]);
        }
        "3"
    } else if d == 4 {
        proof {
            reveal_strlit("4");
            assert("4"@ =~= seq![spec_digit_char(4)]);
        }
        "4"
    } else if d == 5 {
        proof {
            reveal_strlit("5");
            assert("5"@ =~= seq![spec_digit_char(5)]);
        }
        "5"
    } else if d == 6 {
        proof {
            reveal_strlit("6");
            assert("6"@ =~= seq![spec_digit_char(6)]);
        }
        "6"
    } else if d == 7 {
        proof {
            reveal_strlit("7");
            assert("7"@ =~= seq![spec_digit_char(7)]);
        }
        "7"
    } else if d == 8 {
        proof {
            reveal_strlit("8");
            assert("8"@ =~= seq![spec_digit_char(8)]);
        }
        "8"
    } else {
        proof {
            reveal_strlit("9");
            assert("9"@ =~= seq![spec_digit_char(9)]);
        }
        "9"
    }
}

fn push_decimal(n: u64, out: &mut String)
    ensures
        final(out)@ == old(out)@ + spec_decimal(n as nat),
    decreases n,
{
    let ghost prefix: Seq<char> = out@;
    if n >= 10 {
        push_decimal(n / 10, out);
    }
    let d: u64 = n % 10;
    out.append(digit_str(d));
    proof {
        assert(out@ =~= prefix + spec_decimal(n as nat));
    }
}

/// Builds the identifier string for a certificate issued at `timestamp`.
pub fn cert_id(timestamp: u64) -> (r: String)
    ensures
        r@ == spec_cert_id(timestamp),
{
    let mut r = String::from_str("CERT-");
    proof {
        reveal_strlit("CERT-");
        assert(r@ =~= seq!['C', 'E', 'R', 'T', '-']);
    }
    push_decimal(timestamp, &mut r);
    proof {
        assert(r@ =~= spec_cert_id(timestamp));
    }
    r
}

} // verus!
