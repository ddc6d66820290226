//! Decimal rendering of counters and node indices, used for readback names
//! and the statistics report.

use vstd::prelude::*;
use vstd::string::StringExecFns;

verus! {

/// The decimal digit character for `d` (0 to 9).
pub open spec fn digit_char(d: int) -> char {
    if d == 0 {
        '0'
    } else if d == 1 {
        '1'
    } else if d == 2 {
        '2'
    } else if d == 3 {
        '3'
    } else if d == 4 {
        '4'
    } else if d == 5 {
        '5'
    } else if d == 6 {
        '6'
    } else if d == 7 {
        '7'
    } else if d == 8 {
        '8'
    } else {
        '9'
    }
}

/// The decimal digits of `n`, most significant first.
pub open spec fn dec_digits(n: int) -> Seq<char>
    decreases n,
{
    if n < 10 {
        seq![digit_char(n)]
    } else {
        dec_digits(n / 10).push(digit_char(n % 10))
    }
}

/// The one-character string for digit `d`.
fn digit_str(d: u64) -> (r: &'static str)
    requires
        d < 10,
    ensures
        r@ =~= seq![digit_char(d as int)],
{
    if d == 0 {
        proof {
            reveal_strlit("0");
        }
        "0"
    } else if d == 1 {
        proof {
            reveal_strlit("1");
        }
        "1"
    } else if d == 2 {
        proof {
            reveal_strlit("2");
        }
        "2"
    } else if d == 3 {
        proof {
            reveal_strlit("3");
        }
        "3"
    } else if d == 4 {
        proof {
            reveal_strlit("4");
        }
        "4"
    } else if d == 5 {
        proof {
            reveal_strlit("5");
        }
        "5"
    } else if d == 6 {
        proof {
            reveal_strlit("6");
        }
        "6"
    } else if d == 7 {
        proof {
            reveal_strlit("7");
        }
        "7"
    } else if d == 8 {
        proof {
            reveal_strlit("8");
        }
        "8"
    } else {
        proof {
            reveal_strlit("9");
        }
        "9"
    }
}

/// Render `n` in decimal.
pub fn u64_to_string(n: u64) -> (s: String)
    ensures
        s@ == dec_digits(n as int),
{
    // Peel the low digits off; `rest` holds them least significant first.
    let mut rest: Vec<u64> = Vec::new();
    let mut m: u64 = n;
    while m >= 10
        invariant
            forall|t: int| 0 <= t < rest@.len() ==> #[trigger] rest@[t] < 10,
            dec_digits(n as int) == dec_digits(m as int) + digits_of(rest@),
        decreases m,
    {
        let d = m % 10;
        let ghost mold = m as int;
        let ghost prev = rest@;
        rest.push(d);
        m = m / 10;
        proof {
            lemma_digits_push(prev, d);
            assert(dec_digits(mold) == dec_digits(mold / 10).push(digit_char(mold % 10)));
            assert(m as int == mold / 10 && d as int == mold % 10);
            assert(dec_digits(m as int).push(digit_char(d as int)) + digits_of(prev)
                =~= dec_digits(m as int) + (seq![digit_char(d as int)] + digits_of(prev)));
            assert(dec_digits(n as int) == dec_digits(m as int) + digits_of(rest@));
        }
    }
    // Assemble, most significant digit first.
    let mut s = digit_str(m).to_owned();
    let mut k: usize = rest.len();
    while k > 0
        invariant
            k <= rest@.len(),
            forall|t: int| 0 <= t < rest@.len() ==> #[trigger] rest@[t] < 10,
            dec_digits(n as int) == dec_digits(m as int) + digits_of(rest@),
            s@ == dec_digits(m as int) + digits_of(rest@.subrange(k as int, rest@.len() as int)),
        decreases k,
    {
        k = k - 1;
        let ghost before = s@;
        s.append(digit_str(rest[k]));
        proof {
            let sub = rest@.subrange(k as int, rest@.len() as int);
            assert(sub.drop_first() =~= rest@.subrange(k + 1, rest@.len() as int));
            assert(sub.first() == rest@[k as int]);
            assert(digits_of(sub) == digits_of(sub.drop_first()).push(
                digit_char(sub.first() as int),
            ));
            assert(s@ =~= before.push(digit_char(rest@[k as int] as int)));
            assert(s@ =~= dec_digits(m as int) + digits_of(sub));
        }
    }
    proof {
        assert(rest@.subrange(0, rest@.len() as int) =~= rest@);
        assert(s@ =~= dec_digits(n as int));
    }
    s
}

/// The digit characters of a least-significant-first digit list, rendered
/// most significant first.
pub open spec fn digits_of(rest: Seq<u64>) -> Seq<char>
    decreases rest.len(),
{
    if rest.len() == 0 {
        Seq::empty()
    } else {
        digits_of(rest.drop_first()).push(digit_char(rest.first() as int))
    }
}

/// Appending a digit to the low end prepends its character.
proof fn lemma_digits_push(r: Seq<u64>, d: u64)
    ensures
        digits_of(r.push(d)) =~= seq![digit_char(d as int)] + digits_of(r),
    decreases r.len(),
{
    if r.len() == 0 {
        assert(r.push(d).drop_first() =~= Seq::<u64>::empty());
        assert(r.push(d).first() == d);
        assert(digits_of(r) =~= Seq::<char>::empty());
        assert(digits_of(r.push(d)) == digits_of(r.push(d).drop_first()).push(
            digit_char(r.push(d).first() as int),
        ));
        assert(digits_of(r.push(d)) =~= seq![digit_char(d as int)] + digits_of(r));
    } else {
        assert(r.push(d).drop_first() =~= r.drop_first().push(d));
        lemma_digits_push(r.drop_first(), d);
        assert(r.push(d).first() == r.first());
        assert(digits_of(r.push(d)) == digits_of(r.drop_first().push(d)).push(
            digit_char(r.first() as int),
        ));
        assert(digits_of(r) == digits_of(r.drop_first()).push(digit_char(r.first() as int)));
        assert((seq![digit_char(d as int)] + digits_of(r.drop_first())).push(
            digit_char(r.first() as int),
        ) =~= seq![digit_char(d as int)] + digits_of(r.drop_first()).push(
            digit_char(r.first() as int),
        ));
    }
}

/// A name with an index appended, as readback names variables.
pub fn name_with_index(name: &str, idx: usize) -> (r: String)
    ensures
        r@ == name@ + dec_digits(idx as int),
{
    let mut s = name.to_owned();
    let num = u64_to_string(idx as u64);
    s.append(num.as_str());
    s
}

} // verus!
