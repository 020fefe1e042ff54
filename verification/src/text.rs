//! Fixed-width text building blocks for the status renderer: decimal digit
//! strings, padding and truncation to a configured width, right-alignment.

use vstd::prelude::*;
use vstd::string::StrSliceExecFns;
use vstd::string::StringExecFns;

verus! {

/// The decimal digit character for `d` in `0..=9`.
pub open spec fn dec_digit_char(d: int) -> char {
    if d == 0 {
        '0'
    } else if d == 1 {
        '1'
    } else if d == 2 {
        '2'
    } else if d == 3 {
        '3'
    } else if d == 4 {
        '4'
    } else if d == 5 {
        '5'
    } else if d == 6 {
        '6'
    } else if d == 7 {
        '7'
    } else if d == 8 {
        '8'
    } else {
        '9'
    }
}

/// The decimal digit string of a nonnegative number, most significant digit
/// first, without leading zeros (`0` is written as one digit).
pub open spec fn dec_chars(n: int) -> Seq<char>
    recommends
        n >= 0,
    decreases n,
{
    if n < 10 {
        seq![dec_digit_char(n)]
    } else {
        dec_chars(n / 10) + seq![dec_digit_char(n % 10)]
    }
}

/// `n` spaces.
pub open spec fn spaces(n: int) -> Seq<char> {
    Seq::new(n as nat, |i: int| ' ')
}

/// `s` truncated to width `w` if longer, padded on the right with spaces to
/// width `w` if shorter.
pub open spec fn spec_pad_trunc(s: Seq<char>, w: int) -> Seq<char>
    recommends
        w >= 0,
{
    if s.len() >= w {
        s.subrange(0, w)
    } else {
        s + spaces(w - s.len())
    }
}

/// `s` padded on the left with spaces to width `w`; left unchanged if it is
/// already at least that wide.
pub open spec fn spec_right_align(s: Seq<char>, w: int) -> Seq<char> {
    if s.len() >= w {
        s
    } else {
        spaces(w - s.len()) + s
    }
}

/// `10^k`.
pub open spec fn spec_pow10(k: nat) -> int
    decreases k,
{
    if k == 0 {
        1
    } else {
        10 * spec_pow10((k - 1) as nat)
    }
}

/// A number below `10^k` prints in at most `k` digits.
pub proof fn lemma_dec_chars_len_le(n: int, k: nat)
    requires
        0 <= n < spec_pow10(k),
        k >= 1,
    ensures
        dec_chars(n).len() <= k,
    decreases k,
{
    if n < 10 {
    } else {
        let p = spec_pow10((k - 1) as nat);
        assert(spec_pow10(k) == 10 * p);
        if k == 1 {
            assert(spec_pow10(1nat) == 10);
        }
        assert(n / 10 < p) by (nonlinear_arith)
            requires
                10 <= n < 10 * p && 0 < p,
        ;
        lemma_dec_chars_len_le(n / 10, (k - 1) as nat);
    }
}

/// Append the single digit `d` to `s`.
pub fn append_digit(s: &mut String, d: u8)
    requires
        d < 10,
    ensures
        final(s)@ == old(s)@ + seq![dec_digit_char(d as int)],
{
    match d {
        0 => {
            proof {
                reveal_strlit("0");
            }
            s.append("0");
        },
        1 => {
            proof {
                reveal_strlit("1");
            }
            s.append("1");
        },
        2 => {
            proof {
                reveal_strlit("2");
            }
            s.append("2");
        },
        3 => {
            proof {
                reveal_strlit("3");
            }
            s.append("3");
        },
        4 => {
            proof {
                reveal_strlit("4");
            }
            s.append("4");
        },
        5 => {
            proof {
                reveal_strlit("5");
            }
            s.append("5");
        },
        6 => {
            proof {
                reveal_strlit("6");
            }
            s.append("6");
        },
        7 => {
            proof {
                reveal_strlit("7");
            }
            s.append("7");
        },
        8 => {
            proof {
                reveal_strlit("8");
            }
            s.append("8");
        },
        _ => {
            proof {
                reveal_strlit("9");
            }
            s.append("9");
        },
    }
    assert(s@ =~= old(s)@ + seq![dec_digit_char(d as int)]);
}

/// Append the decimal digit string of `n` to `s`.
pub fn append_dec_u64(s: &mut String, n: u64)
    ensures
        final(s)@ == old(s)@ + dec_chars(n as int),
    decreases n,
{
    if n >= 10 {
        append_dec_u64(s, n / 10);
    }
    append_digit(s, (n % 10) as u8);
    assert(s@ =~= old(s)@ + dec_chars(n as int));
}

/// Append `n` spaces to `s`.
pub fn append_spaces(s: &mut String, n: usize)
    ensures
        final(s)@ == old(s)@ + spaces(n as int),
{
    let mut i: usize = 0;
    while i < n
        invariant
            i <= n,
            s@ == old(s)@ + spaces(i as int),
        decreases n - i,
    {
        proof {
            reveal_strlit(" ");
        }
        s.append(" ");
        i = i + 1;
        assert(s@ =~= old(s)@ + spaces(i as int));
    }
    assert(s@ =~= old(s)@ + spaces(n as int));
}

/// `s` truncated or padded on the right to exactly `w` characters.
pub fn pad_or_trunc(s: &str, w: usize) -> (r: String)
    ensures
        r@ == spec_pad_trunc(s@, w as int),
        r@.len() == w,
{
    let n = s.unicode_len();
    if n >= w {
        let t = s.substring_char(0, w);
        t.to_owned()
    } else {
        let mut r = s.to_owned();
        append_spaces(&mut r, w - n);
        r
    }
}

/// The decimal digit string of `n`, padded on the left with spaces to width
/// `w` when it is shorter.
pub fn right_align_dec_u64(n: u64, w: usize) -> (r: String)
    ensures
        r@ == spec_right_align(dec_chars(n as int), w as int),
{
    let mut digits = String::new();
    append_dec_u64(&mut digits, n);
    let len = digits.as_str().unicode_len();
    let mut r = String::new();
    if len < w {
        append_spaces(&mut r, w - len);
    }
    r.append(digits.as_str());
    assert(r@ =~= spec_right_align(dec_chars(n as int), w as int));
    r
}

} // verus!
