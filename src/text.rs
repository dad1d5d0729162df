//! Character-level helpers shared by the parsers and formatters: decimal
//! digits, zero-padded numbers and building strings piece by piece.
use vstd::prelude::*;

verus! {

pub open spec fn is_digit(c: char) -> bool {
    '0' <= c && c <= '9'
}

pub open spec fn digit_value(c: char) -> nat {
    (c as int - '0' as int) as nat
}

pub open spec fn digit_char(d: nat) -> char {
    if d == 0 {
        '0'
    } else if d == 1 {
        '1'
    } else if d == 2 {
        '2'
    } else if d == 3 {
        '3'
    } else if d == 4 {
        '4'
    } else if d == 5 {
        '5'
    } else if d == 6 {
        '6'
    } else if d == 7 {
        '7'
    } else if d == 8 {
        '8'
    } else {
        '9'
    }
}

/// The decimal digits of `n`, without leading zeros ("0" for zero).
pub open spec fn decimal(n: nat) -> Seq<char>
    decreases n,
{
    if n < 10 {
        seq![digit_char(n)]
    } else {
        decimal(n / 10).push(digit_char(n % 10))
    }
}

/// The last `w` decimal digits of `n`, padded with leading zeros.
pub open spec fn padded(n: nat, w: nat) -> Seq<char>
    decreases w,
{
    if w == 0 {
        Seq::empty()
    } else {
        padded(n / 10, (w - 1) as nat).push(digit_char(n % 10))
    }
}

/// The value of the decimal digits `s`.
pub open spec fn digits_value(s: Seq<char>) -> nat
    decreases s.len(),
{
    if s.len() == 0 {
        0
    } else {
        digits_value(s.drop_last()) * 10 + digit_value(s.last())
    }
}

pub open spec fn all_digits(s: Seq<char>) -> bool {
    forall|i: int| 0 <= i < s.len() ==> is_digit(#[trigger] s[i])
}

/// A one-character string literal holding the digit `d`.
pub fn digit_str(d: u64) -> (r: &'static str)
    requires
        d < 10,
    ensures
        r@ == seq![digit_char(d as nat)],
{
    if d == 0 {
        proof { reveal_strlit("0"); }
        "0"
    } else if d == 1 {
        proof { reveal_strlit("1"); }
        "1"
    } else if d == 2 {
        proof { reveal_strlit("2"); }
        "2"
    } else if d == 3 {
        proof { reveal_strlit("3"); }
        "3"
    } else if d == 4 {
        proof { reveal_strlit("4"); }
        "4"
    } else if d == 5 {
        proof { reveal_strlit("5"); }
        "5"
    } else if d == 6 {
        proof { reveal_strlit("6"); }
        "6"
    } else if d == 7 {
        proof { reveal_strlit("7"); }
        "7"
    } else if d == 8 {
        proof { reveal_strlit("8"); }
        "8"
    } else {
        proof { reveal_strlit("9"); }
        "9"
    }
}

/// Appends the decimal digits of `n` to `s`.
pub fn push_decimal(s: &mut String, n: u64)
    ensures
        final(s)@ == old(s)@ + decimal(n as nat),
    decreases n,
{
    if n >= 10 {
        push_decimal(s, n / 10);
    }
    s.append(digit_str(n % 10));
    assert(final(s)@ =~= old(s)@ + decimal(n as nat));
}

/// Appends the last `w` decimal digits of `n` to `s`, zero-padded.
pub fn push_padded(s: &mut String, n: u64, w: u64)
    ensures
        final(s)@ == old(s)@ + padded(n as nat, w as nat),
    decreases w,
{
    if w > 0 {
        push_padded(s, n / 10, w - 1);
        s.append(digit_str(n % 10));
    }
    assert(final(s)@ =~= old(s)@ + padded(n as nat, w as nat));
}

/// Appends the text of `t` to `s`.
pub fn push_str(s: &mut String, t: &str)
    ensures
        final(s)@ == old(s)@ + t@,
{
    s.append(t);
}

/// A fresh string holding the text of `t`.
pub fn owned(t: &str) -> (r: String)
    ensures
        r@ == t@,
{
    String::from_str(t)
}

/// Reads the run of `len` decimal digits of `s` that starts at `start`.
pub fn read_digits(s: &str, start: usize, len: usize) -> (r: Option<u64>)
    requires
        start + len <= s@.len() <= usize::MAX,
        len <= 18,
    ensures
        r == (if all_digits(s@.subrange(start as int, start + len)) {
            Some(digits_value(s@.subrange(start as int, start + len)) as u64)
        } else {
            None::<u64>
        }),
{
    let mut v: u64 = 0;
    let mut i: usize = 0;
    while i < len
        invariant
            start + len <= s@.len() <= usize::MAX,
            len <= 18,
            i <= len,
            all_digits(s@.subrange(start as int, start + i)),
            v == digits_value(s@.subrange(start as int, start + i)),
            v < pow10(i as nat),
        decreases len - i,
    {
        let c = s.get_char(start + i);
        let ghost pre = s@.subrange(start as int, start + i);
        let ghost next = s@.subrange(start as int, start + i + 1);
        assert(next.drop_last() =~= pre);
        if !('0' <= c && c <= '9') {
            assert(!all_digits(s@.subrange(start as int, start + len))) by {
                assert(s@.subrange(start as int, start + len)[i as int] == c);
            }
            return None;
        }
        proof {
            lemma_pow10_mono(i as nat, 17);
            reveal_with_fuel(pow10, 18);
            assert(pow10((i + 1) as nat) == 10 * pow10(i as nat));
        }
        v = v * 10 + (c as u64 - '0' as u64);
        i = i + 1;
        assert(all_digits(s@.subrange(start as int, start + i))) by {
            assert forall|k: int| 0 <= k < i implies is_digit(
                #[trigger] s@.subrange(start as int, start + i)[k],
            ) by {
                if k < i - 1 {
                    assert(s@.subrange(start as int, start + i)[k] == pre[k]);
                }
            }
        }
    }
    Some(v)
}

pub open spec fn pow10(n: nat) -> nat
    decreases n,
{
    if n == 0 {
        1
    } else {
        10 * pow10((n - 1) as nat)
    }
}

pub proof fn lemma_pow10_mono(a: nat, b: nat)
    requires
        a <= b,
    ensures
        pow10(a) <= pow10(b),
    decreases b,
{
    if b > a {
        lemma_pow10_mono(a, (b - 1) as nat);
    }
}

/// A run of `n` decimal digits is worth less than `10^n`.
pub proof fn lemma_digits_below(s: Seq<char>)
    requires
        all_digits(s),
    ensures
        digits_value(s) < pow10(s.len()),
    decreases s.len(),
{
    if s.len() > 0 {
        let p = s.drop_last();
        assert(all_digits(p)) by {
            assert forall|i: int| 0 <= i < p.len() implies is_digit(#[trigger] p[i]) by {
                assert(p[i] == s[i]);
            }
        }
        assert(is_digit(s[s.len() - 1]));
        lemma_digits_below(p);
        let v = digits_value(p);
        let q = pow10(p.len());
        let d = digit_value(s.last());
        assert(v * 10 + d < 10 * q) by (nonlinear_arith)
            requires
                v < q,
                d <= 9,
        ;
    }
}

/// The value of digits written one after another.
pub proof fn lemma_digits_concat(a: Seq<char>, b: Seq<char>)
    ensures
        digits_value(a + b) == digits_value(a) * pow10(b.len()) + digits_value(b),
    decreases b.len(),
{
    if b.len() == 0 {
        assert(a + b =~= a);
        assert(pow10(0) == 1);
        assert(digits_value(b) == 0);
    } else {
        let p = b.drop_last();
        let ab = a + b;
        assert(ab.drop_last() =~= a + p);
        assert(ab.last() == b.last());
        assert(ab.len() > 0);
        lemma_digits_concat(a, p);
        let x = digits_value(a);
        let y = digits_value(p);
        let q = pow10(p.len());
        let d = digit_value(b.last());
        assert(digits_value(ab) == digits_value(a + p) * 10 + d);
        assert((x * q + y) * 10 + d == x * (10 * q) + (y * 10 + d)) by (nonlinear_arith);
        assert(pow10(b.len()) == 10 * q);
        assert(digits_value(b) == y * 10 + d);
    }
}

pub proof fn lemma_pow10_add(a: nat, b: nat)
    ensures
        pow10(a + b) == pow10(a) * pow10(b),
    decreases b,
{
    if b == 0 {
        assert(pow10(0) == 1);
        assert(a + b == a);
    } else {
        let b1 = (b - 1) as nat;
        let s1 = (a + b1) as nat;
        let s = (a + b) as nat;
        lemma_pow10_add(a, b1);
        assert(pow10(s) == 10 * pow10(s1));
        let x = pow10(a);
        let y = pow10(b1);
        assert(10 * (x * y) == x * (10 * y)) by (nonlinear_arith);
        assert(pow10(b) == 10 * y);
    }
}

/// `10^n` for the powers that fit in 64 bits with room to spare.
pub fn pow10_u64(n: u32) -> (r: u64)
    requires
        n <= 18,
    ensures
        r == pow10(n as nat),
{
    let mut r: u64 = 1;
    let mut i: u32 = 0;
    while i < n
        invariant
            i <= n <= 18,
            r == pow10(i as nat),
        decreases n - i,
    {
        proof {
            lemma_pow10_mono(i as nat, 17);
            reveal_with_fuel(pow10, 18);
        }
        r = r * 10;
        i = i + 1;
    }
    r
}

} // verus!
