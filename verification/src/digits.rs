//! Decimal rendering of small numbers: digit characters, whole numbers, and
//! scores given in thousandths.

use vstd::prelude::*;

verus! {

/// The decimal digit character for `d` in `0..=9`.
pub open spec fn decimal_digit(d: int) -> char {
    if d == 0 {
        '0'
    } else if d == 1 {
        '1'
    } else if d == 2 {
        '2'
    } else if d == 3 {
        '3'
    } else if d == 4 {
        '4'
    } else if d == 5 {
        '5'
    } else if d == 6 {
        '6'
    } else if d == 7 {
        '7'
    } else if d == 8 {
        '8'
    } else {
        '9'
    }
}

/// The decimal digits of `n`, most significant first.
pub open spec fn dec_chars(n: nat) -> Seq<char>
    decreases n,
{
    if n < 10 {
        seq![decimal_digit(n as int)]
    } else {
        dec_chars(n / 10).push(decimal_digit((n % 10) as int))
    }
}

/// A score `p` in thousandths rendered with three decimal places, as
/// `0.xyz`, or `1.000` for the full score.
pub open spec fn permille_chars(p: int) -> Seq<char> {
    if p == 1000 {
        seq!['1', '.', '0', '0', '0']
    } else {
        seq![
            '0',
            '.',
            decimal_digit(p / 100),
            decimal_digit((p / 10) % 10),
            decimal_digit(p % 10),
        ]
    }
}

/// The one-character string for digit `d`.
fn digit_str(d: u32) -> (s: &'static str)
    requires
        d < 10,
    ensures
        s@ == seq![decimal_digit(d as int)],
{
    proof {
        reveal_strlit("0");
        reveal_strlit("1");
        reveal_strlit("2");
        reveal_strlit("3");
        reveal_strlit("4");
        reveal_strlit("5");
        reveal_strlit("6");
        reveal_strlit("7");
        reveal_strlit("8");
        reveal_strlit("9");
    }
    let s = match d {
        0 => "0",
        1 => "1",
        2 => "2",
        3 => "3",
        4 => "4",
        5 => "5",
        6 => "6",
        7 => "7",
        8 => "8",
        _ => "9",
    };
    proof {
        assert(s@ =~= seq![decimal_digit(d as int)]);
    }
    s
}

/// Render `n` in decimal.
pub fn usize_to_string(n: usize) -> (s: String)
    ensures
        s@ == dec_chars(n as nat),
{
    let mut digits: Vec<u32> = Vec::new();
    let mut m: usize = n;
    digits.push((m % 10) as u32);
    m = m / 10;
    while m > 0
        invariant
            forall|t: int| 0 <= t < digits@.len() ==> #[trigger] digits@[t] < 10,
            digits@.len() >= 1,
            dec_chars(n as nat) == (if m > 0 {
                dec_chars(m as nat)
            } else {
                Seq::<char>::empty()
            }) + Seq::new(
                digits@.len(),
                |k: int| decimal_digit(digits@[digits@.len() - 1 - k] as int),
            ),
        decreases m,
    {
        let ghost olds = Seq::new(
            digits@.len(),
            |k: int| decimal_digit(digits@[digits@.len() - 1 - k] as int),
        );
        digits.push((m % 10) as u32);
        proof {
            let news = Seq::new(
                digits@.len(),
                |k: int| decimal_digit(digits@[digits@.len() - 1 - k] as int),
            );
            assert(news =~= seq![decimal_digit((m % 10) as int)] + olds);
            if m < 10 {
                assert(dec_chars(n as nat) =~= Seq::<char>::empty() + news);
            } else {
                assert(dec_chars(m as nat) == dec_chars((m / 10) as nat).push(
                    decimal_digit((m % 10) as int),
                ));
                assert(dec_chars((m / 10) as nat) + news =~= dec_chars(m as nat) + olds);
                assert(dec_chars(n as nat) =~= dec_chars((m / 10) as nat) + news);
            }
        }
        m = m / 10;
    }
    let ghost suffix = Seq::new(
        digits@.len(),
        |k: int| decimal_digit(digits@[digits@.len() - 1 - k] as int),
    );
    proof {
        assert(dec_chars(n as nat) =~= suffix);
    }
    let mut s = String::new();
    let total = digits.len();
    let mut k: usize = total;
    while k > 0
        invariant
            k <= total,
            total == digits@.len(),
            forall|t: int| 0 <= t < digits@.len() ==> #[trigger] digits@[t] < 10,
            suffix == Seq::new(
                digits@.len(),
                |j: int| decimal_digit(digits@[digits@.len() - 1 - j] as int),
            ),
            s@ == suffix.take(total - k),
        decreases k,
    {
        let piece = digit_str(digits[k - 1]);
        proof {
            assert(suffix[total - k] == decimal_digit(digits@[k - 1] as int));
            assert(suffix.take(total - k + 1) =~= suffix.take(total - k) + seq![
                suffix[total - k],
            ]);
        }
        s.append(piece);
        k -= 1;
    }
    proof {
        assert(suffix.take(total as int) =~= suffix);
    }
    s
}

/// Render a score in thousandths with three decimal places: `0.500`, `1.000`.
pub fn permille_to_string(p: u32) -> (s: String)
    requires
        p <= 1000,
    ensures
        s@ == permille_chars(p as int),
{
    if p == 1000 {
        let s = "1.000".to_owned();
        proof {
            reveal_strlit("1.000");
            assert(s@ =~= permille_chars(p as int));
        }
        s
    } else {
        let mut s = String::new();
        s.append("0.");
        s.append(digit_str(p / 100));
        s.append(digit_str((p / 10) % 10));
        s.append(digit_str(p % 10));
        proof {
            reveal_strlit("0.");
            assert(s@ =~= permille_chars(p as int));
        }
        s
    }
}

} // verus!
