//! Decimal rendering of indices, used to derive processed-file names.

use vstd::prelude::*;

verus! {

/// The character for a single decimal digit.
pub open spec fn digit_char(d: nat) -> char {
    if d == 0 {
        '0'
    } else if d == 1 {
        '1'
    } else if d == 2 {
        '2'
    } else if d == 3 {
        '3'
    } else if d == 4 {
        '4'
    } else if d == 5 {
        '5'
    } else if d == 6 {
        '6'
    } else if d == 7 {
        '7'
    } else if d == 8 {
        '8'
    } else {
        '9'
    }
}

/// The usual decimal notation of `n`: most significant digit first,
/// no leading zeros except for `n == 0` itself.
pub open spec fn decimal_digits(n: nat) -> Seq<char>
    decreases n,
{
    if n < 10 {
        seq![digit_char(n)]
    } else {
        decimal_digits(n / 10).push(digit_char(n % 10))
    }
}

/// Whether `c` is one of the ten decimal digit characters.
pub open spec fn is_digit_char(c: char) -> bool {
    c == '0' || c == '1' || c == '2' || c == '3' || c == '4' || c == '5' || c == '6' || c == '7'
        || c == '8' || c == '9'
}

/// A decimal rendering is never empty and holds digit characters only.
pub proof fn lemma_decimal_digits_are_digits(n: nat)
    ensures
        decimal_digits(n).len() >= 1,
        forall|k: int|
            0 <= k < decimal_digits(n).len() ==> is_digit_char(#[trigger] decimal_digits(n)[k]),
    decreases n,
{
    if n >= 10 {
        lemma_decimal_digits_are_digits(n / 10);
        assert forall|k: int|
            0 <= k < decimal_digits(n).len() implies is_digit_char(
            #[trigger] decimal_digits(n)[k],
        ) by {
            if k < decimal_digits(n / 10).len() {
                assert(decimal_digits(n)[k] == decimal_digits(n / 10)[k]);
            } else {
                assert(decimal_digits(n)[k] == digit_char(n % 10));
            }
        }
    }
}

/// Decimal notation has no leading zeros, so it names each number uniquely.
pub proof fn lemma_decimal_digits_injective(m: nat, n: nat)
    requires
        decimal_digits(m) == decimal_digits(n),
    ensures
        m == n,
    decreases m,
{
    lemma_decimal_digits_are_digits(m / 10);
    lemma_decimal_digits_are_digits(n / 10);
    if m < 10 && n < 10 {
        assert(decimal_digits(m)[0] == digit_char(m));
        assert(decimal_digits(n)[0] == digit_char(n));
    } else if m < 10 && n >= 10 {
        assert(decimal_digits(m).len() == 1);
        assert(decimal_digits(n).len() == decimal_digits(n / 10).len() + 1);
        assert(false);
    } else if m >= 10 && n < 10 {
        assert(decimal_digits(n).len() == 1);
        assert(decimal_digits(m).len() == decimal_digits(m / 10).len() + 1);
        assert(false);
    } else {
        let dm = decimal_digits(m / 10);
        let dn = decimal_digits(n / 10);
        assert(decimal_digits(m) == dm.push(digit_char(m % 10)));
        assert(decimal_digits(n) == dn.push(digit_char(n % 10)));
        assert(dm.push(digit_char(m % 10)).drop_last() =~= dm);
        assert(dn.push(digit_char(n % 10)).drop_last() =~= dn);
        assert(dm == dn);
        assert(digit_char(m % 10) == dm.push(digit_char(m % 10)).last());
        assert(digit_char(n % 10) == dn.push(digit_char(n % 10)).last());
        assert(m % 10 == n % 10);
        assert(m / 10 < m) by (nonlinear_arith)
            requires
                m >= 10,
        ;
        lemma_decimal_digits_injective(m / 10, n / 10);
        assert(m == 10 * (m / 10) + m % 10) by (nonlinear_arith);
        assert(n == 10 * (n / 10) + n % 10) by (nonlinear_arith);
    }
}

/// The one-character string for a single decimal digit.
fn digit_str(d: u64) -> (r: &'static str)
    requires
        d < 10,
    ensures
        r@ == seq![digit_char(d as nat)],
{
    let r: &'static str = if d == 0 {
        "0"
    } else if d == 1 {
        "1"
    } else if d == 2 {
        "2"
    } else if d == 3 {
        "3"
    } else if d == 4 {
        "4"
    } else if d == 5 {
        "5"
    } else if d == 6 {
        "6"
    } else if d == 7 {
        "7"
    } else if d == 8 {
        "8"
    } else {
        "9"
    };
    proof {
        reveal_strlit("0");
        reveal_strlit("1");
        reveal_strlit("2");
        reveal_strlit("3");
        reveal_strlit("4");
        reveal_strlit("5");
        reveal_strlit("6");
        reveal_strlit("7");
        reveal_strlit("8");
        reveal_strlit("9");
        assert(r@ =~= seq![digit_char(d as nat)]);
    }
    r
}

/// Renders `n` in decimal.
pub fn decimal_string(n: u64) -> (r: String)
    ensures
        r@ == decimal_digits(n as nat),
{
    let mut acc = String::new();
    let mut m = n;
    while m >= 10
        invariant
            decimal_digits(n as nat) == decimal_digits(m as nat) + acc@,
        decreases m,
    {
        let mut piece = String::from_str(digit_str(m % 10));
        piece.append(acc.as_str());
        proof {
            assert(decimal_digits(m as nat) == decimal_digits((m / 10) as nat) + seq![
                digit_char((m % 10) as nat),
            ]);
            assert(decimal_digits((m / 10) as nat) + (seq![digit_char((m % 10) as nat)] + acc@)
                =~= decimal_digits(m as nat) + acc@);
            assert(m / 10 < m) by (nonlinear_arith)
                requires
                    m >= 10,
            ;
        }
        acc = piece;
        m = m / 10;
    }
    let mut r = String::from_str(digit_str(m));
    r.append(acc.as_str());
    proof {
        assert(r@ =~= decimal_digits(n as nat));
    }
    r
}

} // verus!
