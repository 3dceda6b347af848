use vstd::prelude::*;

verus! {

/// The decimal digit character for a value below ten.
pub open spec fn digit_char(d: nat) -> char {
    if d == 0 {
        '0'
    } else if d == 1 {
        '1'
    } else if d == 2 {
        '2'
    } else if d == 3 {
        '3'
    } else if d == 4 {
        '4'
    } else if d == 5 {
        '5'
    } else if d == 6 {
        '6'
    } else if d == 7 {
        '7'
    } else if d == 8 {
        '8'
    } else {
        '9'
    }
}

/// The usual decimal rendering of a natural number, without leading zeros.
pub open spec fn dec_seq(n: nat) -> Seq<char>
    decreases n,
{
    if n < 10 {
        seq![digit_char(n)]
    } else {
        dec_seq(n / 10) + seq![digit_char(n % 10)]
    }
}

/// The decimal rendering of an integer, with a leading minus sign when
/// negative.
pub open spec fn int_dec(i: int) -> Seq<char> {
    if i < 0 {
        seq!['-'] + dec_seq((-i) as nat)
    } else {
        dec_seq(i as nat)
    }
}

pub open spec fn is_digit(c: char) -> bool {
    '0' <= c && c <= '9'
}

pub open spec fn digit_val(c: char) -> nat {
    if c == '0' {
        0
    } else if c == '1' {
        1
    } else if c == '2' {
        2
    } else if c == '3' {
        3
    } else if c == '4' {
        4
    } else if c == '5' {
        5
    } else if c == '6' {
        6
    } else if c == '7' {
        7
    } else if c == '8' {
        8
    } else {
        9
    }
}

pub open spec fn all_digits(s: Seq<char>) -> bool {
    forall|i: int| 0 <= i < s.len() ==> is_digit(#[trigger] s[i])
}

/// The numeric value of a digit string, most significant digit first.
pub open spec fn digits_val(s: Seq<char>) -> nat
    decreases s.len(),
{
    if s.len() == 0 {
        0
    } else {
        digits_val(s.drop_last()) * 10 + digit_val(s.last())
    }
}

/// A longer prefix of a digit string never has a smaller value.
proof fn lemma_digits_val_prefix_le(s: Seq<char>, i: int, j: int)
    requires
        0 <= i <= j <= s.len(),
    ensures
        digits_val(s.take(i)) <= digits_val(s.take(j)),
    decreases j - i,
{
    if i < j {
        lemma_digits_val_prefix_le(s, i, j - 1);
        assert(s.take(j).drop_last() =~= s.take(j - 1));
    }
}

pub proof fn lemma_dec_seq_len(n: nat)
    ensures
        dec_seq(n).len() >= 1,
        n < 10 <==> dec_seq(n).len() == 1,
    decreases n,
{
    if n >= 10 {
        lemma_dec_seq_len(n / 10);
    }
}

/// Distinct numbers render as distinct decimal texts.
pub proof fn lemma_dec_seq_injective(m: nat, n: nat)
    requires
        dec_seq(m) == dec_seq(n),
    ensures
        m == n,
    decreases m,
{
    lemma_dec_seq_len(m);
    lemma_dec_seq_len(n);
    if m < 10 && n < 10 {
        assert(dec_seq(m)[0] == digit_char(m));
        assert(dec_seq(n)[0] == digit_char(n));
    } else if m >= 10 && n >= 10 {
        assert(dec_seq(m).drop_last() =~= dec_seq(m / 10));
        assert(dec_seq(n).drop_last() =~= dec_seq(n / 10));
        assert(dec_seq(m).last() == digit_char(m % 10));
        assert(dec_seq(n).last() == digit_char(n % 10));
        lemma_dec_seq_injective(m / 10, n / 10);
        assert(m % 10 == n % 10);
        assert(m == (m / 10) * 10 + m % 10);
        assert(n == (n / 10) * 10 + n % 10);
    } else {
        assert(dec_seq(m).len() != dec_seq(n).len());
    }
}

fn digit_of(c: char) -> (r: Option<u64>)
    ensures
        r is Some <==> is_digit(c),
        r matches Some(d) ==> d == digit_val(c) && d < 10,
{
    if '0' <= c && c <= '9' {
        if c == '0' {
            Some(0)
        } else if c == '1' {
            Some(1)
        } else if c == '2' {
            Some(2)
        } else if c == '3' {
            Some(3)
        } else if c == '4' {
            Some(4)
        } else if c == '5' {
            Some(5)
        } else if c == '6' {
            Some(6)
        } else if c == '7' {
            Some(7)
        } else {
            assert(c == '8' || c == '9');
            if c == '8' {
                Some(8)
            } else {
                Some(9)
            }
        }
    } else {
        None
    }
}

/// Renders a number in decimal.
pub fn dec_string(n: u64) -> (r: String)
    ensures
        r@ == dec_seq(n as nat),
    decreases n,
{
    let digits = "0123456789";
    proof {
        reveal_strlit("0123456789");
    }
    if n < 10 {
        let d = digits.substring_ascii(n as usize, n as usize + 1);
        d.to_owned()
    } else {
        let mut r = dec_string(n / 10);
        let d = (n % 10) as usize;
        r.append(digits.substring_ascii(d, d + 1));
        r
    }
}

/// Reads a digit string bounded by `limit`; reports whether the text is all
/// digits and, if so, whether its value fits.
pub fn digits_value_within(t: &str, limit: u64) -> (r: Option<Option<u64>>)
    ensures
        r is Some <==> all_digits(t@),
        r matches Some(rr) ==> ((rr is Some <==> digits_val(t@) <= limit) && (rr matches Some(v)
            ==> v == digits_val(t@))),
{
    let n = t.unicode_len();
    let mut i: usize = 0;
    let mut acc: u64 = 0;
    let mut over: bool = false;
    while i < n
        invariant
            0 <= i <= n,
            n == t@.len(),
            forall|k: int| 0 <= k < i ==> is_digit(#[trigger] t@[k]),
            !over ==> acc == digits_val(t@.take(i as int)) && acc <= limit,
            over ==> digits_val(t@.take(i as int)) > limit,
        decreases n - i,
    {
        let c = t.get_char(i);
        match digit_of(c) {
            None => {
                return None;
            },
            Some(d) => {
                proof {
                    assert(t@.take(i + 1).drop_last() =~= t@.take(i as int));
                    assert(t@.take(i + 1).last() == t@[i as int]);
                }
                if !over {
                    if d > limit {
                        assert(digits_val(t@.take(i + 1)) == acc * 10 + d);
                        over = true;
                    } else if acc > (limit - d) / 10 {
                        proof {
                            assert(digits_val(t@.take(i + 1)) == acc * 10 + d);
                            assert(acc * 10 + d > limit) by (nonlinear_arith)
                                requires
                                    acc > (limit - d) / 10,
                                    d < 10,
                                    d <= limit,
                            ;
                        }
                        over = true;
                    } else {
                        proof {
                            assert(acc * 10 + d <= limit) by (nonlinear_arith)
                                requires
                                    acc <= (limit - d) / 10,
                                    d < 10,
                                    d <= limit,
                            ;
                        }
                        acc = acc * 10 + d;
                    }
                } else {
                    proof {
                        lemma_digits_val_prefix_le(t@, i as int, i + 1);
                    }
                }
            },
        }
        i = i + 1;
    }
    proof {
        assert(t@.take(n as int) =~= t@);
    }
    if over {
        Some(None)
    } else {
        Some(Some(acc))
    }
}

} // verus!
