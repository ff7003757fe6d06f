//! Decimal rendering of the numeric block fields, verified against the spec
//! of a decimal numeral: most significant digit first, no leading zeros, a
//! single `'0'` for zero, a leading `'-'` for a negative value.

use vstd::prelude::*;
use vstd::string::StringExecFns;

verus! {

/// The decimal digit character for a value below ten.
pub open spec fn dec_digit(d: nat) -> char {
    if d == 0 {
        '0'
    } else if d == 1 {
        '1'
    } else if d == 2 {
        '2'
    } else if d == 3 {
        '3'
    } else if d == 4 {
        '4'
    } else if d == 5 {
        '5'
    } else if d == 6 {
        '6'
    } else if d == 7 {
        '7'
    } else if d == 8 {
        '8'
    } else {
        '9'
    }
}

/// The decimal rendering of a natural number, most significant digit first,
/// without leading zeros (a single `'0'` for zero itself).
pub open spec fn dec_nat(n: nat) -> Seq<char>
    decreases n,
{
    if n < 10 {
        seq![dec_digit(n)]
    } else {
        dec_nat(n / 10).push(dec_digit(n % 10))
    }
}

/// The decimal rendering of an unsigned 64-bit value.
pub open spec fn dec_u64(n: u64) -> Seq<char> {
    dec_nat(n as nat)
}

/// The decimal rendering of a signed 64-bit value: a leading `'-'` for a
/// negative one.
pub open spec fn dec_i64(n: i64) -> Seq<char> {
    if n >= 0 {
        dec_nat(n as nat)
    } else {
        seq!['-'] + dec_nat((0 - n as int) as nat)
    }
}

/// The characters of a digit list stored least significant first, rendered
/// most significant first.
pub open spec fn digits_rendered(ds: Seq<u64>) -> Seq<char>
    decreases ds.len(),
{
    if ds.len() == 0 {
        Seq::empty()
    } else {
        digits_rendered(ds.drop_first()) + seq![dec_digit(ds.first() as nat)]
    }
}

/// Appending a more significant digit to the list prepends its character to
/// the rendering.
proof fn lemma_digits_rendered_push(ds: Seq<u64>, d: u64)
    ensures
        digits_rendered(ds.push(d)) == seq![dec_digit(d as nat)] + digits_rendered(ds),
    decreases ds.len(),
{
    if ds.len() == 0 {
        assert(ds.push(d).first() == d);
        assert(ds.push(d).drop_first() =~= Seq::<u64>::empty());
        assert(digits_rendered(Seq::<u64>::empty()) == Seq::<char>::empty());
        assert(digits_rendered(ds.push(d)) =~= seq![dec_digit(d as nat)] + digits_rendered(ds));
    } else {
        assert(ds.push(d).drop_first() =~= ds.drop_first().push(d));
        assert(ds.push(d).first() == ds.first());
        lemma_digits_rendered_push(ds.drop_first(), d);
        assert(digits_rendered(ds.push(d)) =~= seq![dec_digit(d as nat)] + digits_rendered(ds));
    }
}

/// The one-character string for a decimal digit value.
fn digit_str(d: u64) -> (r: &'static str)
    requires
        d < 10,
    ensures
        r@ == seq![dec_digit(d as nat)],
{
    proof {
        reveal_strlit("0");
        reveal_strlit("1");
        reveal_strlit("2");
        reveal_strlit("3");
        reveal_strlit("4");
        reveal_strlit("5");
        reveal_strlit("6");
        reveal_strlit("7");
        reveal_strlit("8");
        reveal_strlit("9");
        assert(("0")@ =~= seq!['0']);
        assert(("1")@ =~= seq!['1']);
        assert(("2")@ =~= seq!['2']);
        assert(("3")@ =~= seq!['3']);
        assert(("4")@ =~= seq!['4']);
        assert(("5")@ =~= seq!['5']);
        assert(("6")@ =~= seq!['6']);
        assert(("7")@ =~= seq!['7']);
        assert(("8")@ =~= seq!['8']);
        assert(("9")@ =~= seq!['9']);
    }
    if d == 0 {
        "0"
    } else if d == 1 {
        "1"
    } else if d == 2 {
        "2"
    } else if d == 3 {
        "3"
    } else if d == 4 {
        "4"
    } else if d == 5 {
        "5"
    } else if d == 6 {
        "6"
    } else if d == 7 {
        "7"
    } else if d == 8 {
        "8"
    } else {
        "9"
    }
}

/// The decimal numeral of `n`, as u64's Display would write it.
pub fn u64_to_string(n: u64) -> (r: String)
    ensures
        r@ == dec_u64(n),
{
    let mut digits: Vec<u64> = Vec::new();
    let mut m: u64 = n;
    loop
        invariant_except_break
            digits@.len() == 0 ==> m == n,
            digits@.len() > 0 ==> m > 0,
            digits@.len() > 0 ==> dec_nat(n as nat) == dec_nat(m as nat) + digits_rendered(
                digits@,
            ),
            forall|j: int| 0 <= j < digits@.len() ==> digits@[j] < 10,
        ensures
            dec_nat(n as nat) == digits_rendered(digits@),
            forall|j: int| 0 <= j < digits@.len() ==> digits@[j] < 10,
        decreases m,
    {
        let d: u64 = m % 10;
        let ghost previous_digits = digits@;
        digits.push(d);
        proof {
            lemma_digits_rendered_push(previous_digits, d);
            if m >= 10 {
                assert(dec_nat(m as nat) =~= dec_nat((m / 10) as nat) + seq![
                    dec_digit((m % 10) as nat),
                ]);
                assert(dec_nat(m as nat) + digits_rendered(previous_digits) =~= dec_nat(
                    (m / 10) as nat,
                ) + digits_rendered(digits@));
            } else {
                assert(dec_nat(m as nat) + digits_rendered(previous_digits) =~= digits_rendered(
                    digits@,
                ));
            }
        }
        m = m / 10;
        if m == 0 {
            break;
        }
    }
    let mut r = String::new();
    let mut i: usize = digits.len();
    proof {
        assert(digits@.subrange(i as int, digits@.len() as int) =~= Seq::<u64>::empty());
    }
    while i > 0
        invariant
            i <= digits@.len(),
            forall|j: int| 0 <= j < digits@.len() ==> digits@[j] < 10,
            r@ == digits_rendered(digits@.subrange(i as int, digits@.len() as int)),
        decreases i,
    {
        let d: u64 = digits[i - 1];
        r.append(digit_str(d));
        proof {
            let tail = digits@.subrange(i - 1, digits@.len() as int);
            assert(tail.drop_first() =~= digits@.subrange(i as int, digits@.len() as int));
            assert(r@ =~= digits_rendered(tail));
        }
        i = i - 1;
    }
    proof {
        assert(digits@.subrange(0, digits@.len() as int) =~= digits@);
    }
    r
}

/// The decimal numeral of `n`, as i64's Display would write it.
pub fn i64_to_string(n: i64) -> (r: String)
    ensures
        r@ == dec_i64(n),
{
    if n >= 0 {
        u64_to_string(n as u64)
    } else {
        let magnitude: u64 = if n == i64::MIN {
            9223372036854775808
        } else {
            (0 - n) as u64
        };
        let mut r = String::new();
        r.append("-");
        let rendered = u64_to_string(magnitude);
        r.append(rendered.as_str());
        proof {
            reveal_strlit("-");
            assert(("-")@ =~= seq!['-']);
            assert(r@ =~= seq!['-'] + dec_nat((0 - n as int) as nat));
        }
        r
    }
}

} // verus!
