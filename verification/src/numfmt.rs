//! Decimal rendering of integers, verified against a character-sequence
//! model. Identity strings and object-store keys embed numbers this way.

use vstd::prelude::*;

verus! {

/// The character of a single decimal digit.
pub open spec fn dec_digit(d: int) -> char {
    if d == 0 {
        '0'
    } else if d == 1 {
        '1'
    } else if d == 2 {
        '2'
    } else if d == 3 {
        '3'
    } else if d == 4 {
        '4'
    } else if d == 5 {
        '5'
    } else if d == 6 {
        '6'
    } else if d == 7 {
        '7'
    } else if d == 8 {
        '8'
    } else {
        '9'
    }
}

/// The decimal rendering of a natural number, most significant digit
/// first, with no leading zeroes (zero itself is "0").
pub open spec fn dec_str(n: nat) -> Seq<char>
    decreases n,
{
    if n < 10 {
        seq![dec_digit(n as int)]
    } else {
        dec_str(n / 10).push(dec_digit((n % 10) as int))
    }
}

/// The decimal rendering of a signed number: a minus sign before the
/// magnitude when negative.
pub open spec fn dec_str_signed(i: int) -> Seq<char> {
    if i < 0 {
        seq!['-'] + dec_str((-i) as nat)
    } else {
        dec_str(i as nat)
    }
}

/// Every character of a decimal rendering is a digit.
pub proof fn lemma_dec_str_digits(n: nat)
    ensures
        dec_str(n).len() >= 1,
        forall|i: int| 0 <= i < dec_str(n).len() ==> '0' <= #[trigger] dec_str(n)[i] <= '9',
    decreases n,
{
    if n >= 10 {
        lemma_dec_str_digits(n / 10);
    }
}

/// Append one digit character to a string.
fn push_digit(r: &mut String, d: u64)
    requires
        d < 10,
    ensures
        final(r)@ == old(r)@.push(dec_digit(d as int)),
{
    if d == 0 {
        proof {
            reveal_strlit("0");
        }
        r.append("0");
    } else if d == 1 {
        proof {
            reveal_strlit("1");
        }
        r.append("1");
    } else if d == 2 {
        proof {
            reveal_strlit("2");
        }
        r.append("2");
    } else if d == 3 {
        proof {
            reveal_strlit("3");
        }
        r.append("3");
    } else if d == 4 {
        proof {
            reveal_strlit("4");
        }
        r.append("4");
    } else if d == 5 {
        proof {
            reveal_strlit("5");
        }
        r.append("5");
    } else if d == 6 {
        proof {
            reveal_strlit("6");
        }
        r.append("6");
    } else if d == 7 {
        proof {
            reveal_strlit("7");
        }
        r.append("7");
    } else if d == 8 {
        proof {
            reveal_strlit("8");
        }
        r.append("8");
    } else {
        proof {
            reveal_strlit("9");
        }
        r.append("9");
    }
    proof {
        assert(final(r)@ =~= old(r)@.push(dec_digit(d as int)));
    }
}

/// Render a number in decimal.
pub fn u64_to_dec_string(n: u64) -> (r: String)
    ensures
        r@ == dec_str(n as nat),
{
    // Digits of `n`, least significant first.
    let mut digits: Vec<u64> = Vec::new();
    if n == 0 {
        digits.push(0);
        proof {
            let f = |d: u64| dec_digit(d as int);
            assert(digits@ =~= seq![0u64]);
            assert(digits@.map_values(f) =~= seq![dec_digit(0)]);
            assert(digits@.map_values(f).reverse() =~= seq![dec_digit(0)]);
        }
    } else {
        let mut m = n;
        proof {
            let f = |d: u64| dec_digit(d as int);
            assert(digits@.map_values(f).reverse() =~= Seq::<char>::empty());
            assert(dec_str(n as nat) + Seq::<char>::empty() =~= dec_str(n as nat));
        }
        while m > 0
            invariant
                dec_str(n as nat) == if m > 0 {
                    dec_str(m as nat) + digits@.map_values(|d: u64| dec_digit(d as int)).reverse()
                } else {
                    digits@.map_values(|d: u64| dec_digit(d as int)).reverse()
                },
                m == 0 ==> digits@.len() > 0,
                forall|i: int| 0 <= i < digits@.len() ==> #[trigger] digits@[i] < 10,
            decreases m,
        {
            let ghost digits0 = digits@;
            let ghost m0 = m;
            let d = m % 10;
            digits.push(d);
            m = m / 10;
            proof {
                let f = |d: u64| dec_digit(d as int);
                let old_rev = digits0.map_values(f).reverse();
                let new_rev = digits@.map_values(f).reverse();
                assert(digits@ == digits0.push(d));
                assert(digits@.map_values(f) =~= digits0.map_values(f).push(
                    dec_digit(d as int),
                ));
                assert(new_rev =~= seq![dec_digit(d as int)] + old_rev);
                if m > 0 {
                    assert(dec_str(m0 as nat) == dec_str(m as nat).push(dec_digit(d as int)));
                    assert(dec_str(m as nat).push(dec_digit(d as int)) + old_rev =~= dec_str(
                        m as nat,
                    ) + new_rev);
                } else {
                    assert(dec_str(m0 as nat) == seq![dec_digit(d as int)]);
                    assert(seq![dec_digit(d as int)] + old_rev =~= new_rev);
                }
            }
        }
    }

    let mut r = String::new();
    let mut i: usize = digits.len();
    proof {
        assert(dec_str(n as nat) == digits@.map_values(
            |d: u64| dec_digit(d as int),
        ).reverse());
        assert(r@ =~= dec_str(n as nat).take(0));
    }
    while i > 0
        invariant
            i <= digits@.len(),
            forall|j: int| 0 <= j < digits@.len() ==> #[trigger] digits@[j] < 10,
            dec_str(n as nat) == digits@.map_values(|d: u64| dec_digit(d as int)).reverse(),
            r@ == dec_str(n as nat).take(digits@.len() - i),
        decreases i,
    {
        i = i - 1;
        let d = digits[i];
        push_digit(&mut r, d);
        proof {
            let f = |d: u64| dec_digit(d as int);
            let s = dec_str(n as nat);
            let k = digits@.len() - 1 - i;
            assert(s[k] == digits@.map_values(f).reverse()[k]);
            assert(digits@.map_values(f).reverse()[k] == digits@.map_values(f)[i as int]);
            assert(digits@.map_values(f)[i as int] == dec_digit(digits@[i as int] as int));
            assert(r@ =~= s.take(k + 1));
        }
    }
    proof {
        assert(dec_str(n as nat).take(digits@.len() as int) =~= dec_str(n as nat));
    }
    r
}

/// Render a signed number in decimal, a minus sign first when negative.
pub fn i64_to_dec_string(i: i64) -> (r: String)
    ensures
        r@ == dec_str_signed(i as int),
{
    if i >= 0 {
        u64_to_dec_string(i as u64)
    } else {
        let magnitude: u64 = (-(i as i128)) as u64;
        let mut r = String::new();
        proof {
            reveal_strlit("-");
        }
        r.append("-");
        let digits = u64_to_dec_string(magnitude);
        r.append(digits.as_str());
        proof {
            assert(r@ =~= seq!['-'] + dec_str(magnitude as nat));
        }
        r
    }
}

} // verus!
