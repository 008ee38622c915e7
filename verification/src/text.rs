//! Decimal rendering of integers, the building block of every message
//! the bot writes: plain decimal, zero-padded decimal and decimal with
//! thousands separators.
use vstd::prelude::*;
use vstd::string::*;

verus! {

/// The ASCII digit for `d` (taken as `d % 10` beyond nine).
pub open spec fn digit_char(d: nat) -> char {
    if d == 0 {
        '0'
    } else if d == 1 {
        '1'
    } else if d == 2 {
        '2'
    } else if d == 3 {
        '3'
    } else if d == 4 {
        '4'
    } else if d == 5 {
        '5'
    } else if d == 6 {
        '6'
    } else if d == 7 {
        '7'
    } else if d == 8 {
        '8'
    } else {
        '9'
    }
}

/// Decimal representation of a natural number, most significant digit first,
/// without leading zeros.
pub open spec fn dec(n: nat) -> Seq<char>
    decreases n,
{
    if n < 10 {
        seq![digit_char(n)]
    } else {
        dec(n / 10).push(digit_char(n % 10))
    }
}

/// Decimal representation of an integer, with a leading `-` when negative.
pub open spec fn signed_dec(i: int) -> Seq<char> {
    if i < 0 {
        seq!['-'] + dec((-i) as nat)
    } else {
        dec(i as nat)
    }
}

/// `n` in decimal, left-padded with zeros to at least two digits (`{:02}`).
pub open spec fn pad2(n: nat) -> Seq<char> {
    if n < 10 {
        seq!['0'] + dec(n)
    } else {
        dec(n)
    }
}

/// `n` in decimal, left-padded with zeros to at least three digits.
pub open spec fn pad3(n: nat) -> Seq<char> {
    if n < 10 {
        seq!['0', '0'] + dec(n)
    } else if n < 100 {
        seq!['0'] + dec(n)
    } else {
        dec(n)
    }
}

/// Decimal representation with a `,` between each group of three digits,
/// counted from the right (the English grouping).
pub open spec fn comma_dec(n: nat) -> Seq<char>
    decreases n,
{
    if n < 1000 {
        dec(n)
    } else {
        comma_dec(n / 1000) + seq![','] + pad3(n % 1000)
    }
}

/// `comma_dec` of the magnitude, with a leading `-` when negative.
pub open spec fn signed_comma_dec(i: int) -> Seq<char> {
    if i < 0 {
        seq!['-'] + comma_dec((-i) as nat)
    } else {
        comma_dec(i as nat)
    }
}

/// Every character of a decimal rendering is an ASCII digit.
pub open spec fn all_digits(s: Seq<char>) -> bool {
    forall|i: int| 0 <= i < s.len() ==> '0' <= #[trigger] s[i] && s[i] <= '9'
}

/// The one-character string of a digit.
pub fn digit_str(d: u64) -> (s: &'static str)
    requires
        d < 10,
    ensures
        s@ == seq![digit_char(d as nat)],
{
    proof {
        reveal_strlit("0");
        reveal_strlit("1");
        reveal_strlit("2");
        reveal_strlit("3");
        reveal_strlit("4");
        reveal_strlit("5");
        reveal_strlit("6");
        reveal_strlit("7");
        reveal_strlit("8");
        reveal_strlit("9");
    }
    match d {
        0 => "0",
        1 => "1",
        2 => "2",
        3 => "3",
        4 => "4",
        5 => "5",
        6 => "6",
        7 => "7",
        8 => "8",
        _ => "9",
    }
}

/// Renders `n` in decimal (what `{}` prints for an unsigned integer).
pub fn u64_to_decimal(n: u64) -> (s: String)
    ensures
        s@ == dec(n as nat),
    decreases n,
{
    if n < 10 {
        String::from_str(digit_str(n))
    } else {
        let mut s = u64_to_decimal(n / 10);
        s.append(digit_str(n % 10));
        s
    }
}

/// Renders `n` in decimal (what `{}` prints for a signed integer).
pub fn i64_to_decimal(n: i64) -> (s: String)
    ensures
        s@ == signed_dec(n as int),
{
    if n < 0 {
        let magnitude: u64 = (0i128 - (n as i128)) as u64;
        let digits = u64_to_decimal(magnitude);
        let mut s = String::from_str("-");
        proof {
            reveal_strlit("-");
        }
        s.append(digits.as_str());
        s
    } else {
        u64_to_decimal(n as u64)
    }
}

/// Renders `n` in decimal, zero-padded to two digits (what `{:02}` prints).
pub fn pad2_decimal(n: u64) -> (s: String)
    ensures
        s@ == pad2(n as nat),
{
    let digits = u64_to_decimal(n);
    if n < 10 {
        let mut s = String::from_str("0");
        proof {
            reveal_strlit("0");
        }
        s.append(digits.as_str());
        s
    } else {
        digits
    }
}

/// Renders `n` in decimal, zero-padded to three digits.
fn pad3_decimal(n: u64) -> (s: String)
    ensures
        s@ == pad3(n as nat),
{
    let digits = u64_to_decimal(n);
    if n < 10 {
        let mut s = String::from_str("00");
        proof {
            reveal_strlit("00");
        }
        s.append(digits.as_str());
        s
    } else if n < 100 {
        let mut s = String::from_str("0");
        proof {
            reveal_strlit("0");
        }
        s.append(digits.as_str());
        s
    } else {
        digits
    }
}

/// Renders `n` in decimal with `,` between groups of three digits.
pub fn u64_to_comma_decimal(n: u64) -> (s: String)
    ensures
        s@ == comma_dec(n as nat),
    decreases n,
{
    if n < 1000 {
        u64_to_decimal(n)
    } else {
        let mut s = u64_to_comma_decimal(n / 1000);
        let group = pad3_decimal(n % 1000);
        s.append(",");
        proof {
            reveal_strlit(",");
        }
        s.append(group.as_str());
        s
    }
}

/// Renders a signed `n` in decimal with `,` between groups of three digits.
pub fn i64_to_comma_decimal(n: i64) -> (s: String)
    ensures
        s@ == signed_comma_dec(n as int),
{
    if n < 0 {
        let magnitude: u64 = (0i128 - (n as i128)) as u64;
        let digits = u64_to_comma_decimal(magnitude);
        let mut s = String::from_str("-");
        proof {
            reveal_strlit("-");
        }
        s.append(digits.as_str());
        s
    } else {
        u64_to_comma_decimal(n as u64)
    }
}

/// Every decimal rendering consists of ASCII digits only and is never empty.
pub proof fn lemma_dec_digits(n: nat)
    ensures
        all_digits(dec(n)),
        dec(n).len() >= 1,
    decreases n,
{
    if n >= 10 {
        lemma_dec_digits(n / 10);
        assert(all_digits(dec(n))) by {
            assert forall|i: int| 0 <= i < dec(n).len() implies '0' <= #[trigger] dec(n)[i]
                && dec(n)[i] <= '9' by {
                if i < dec(n / 10).len() {
                    assert(dec(n)[i] == dec(n / 10)[i]);
                }
            }
        }
    }
}

/// `s` without its `,` characters.
pub open spec fn strip_commas(s: Seq<char>) -> Seq<char>
    decreases s.len(),
{
    if s.len() == 0 {
        seq![]
    } else if s.last() == ',' {
        strip_commas(s.drop_last())
    } else {
        strip_commas(s.drop_last()).push(s.last())
    }
}

proof fn lemma_strip_commas_concat(a: Seq<char>, b: Seq<char>)
    ensures
        strip_commas(a + b) == strip_commas(a) + strip_commas(b),
    decreases b.len(),
{
    if b.len() == 0 {
        assert(a + b =~= a);
        assert(strip_commas(a) + strip_commas(b) =~= strip_commas(a));
    } else {
        assert((a + b).drop_last() =~= a + b.drop_last());
        assert((a + b).last() == b.last());
        lemma_strip_commas_concat(a, b.drop_last());
        if b.last() != ',' {
            assert(strip_commas(a) + strip_commas(b.drop_last()).push(b.last()) =~= (strip_commas(a)
                + strip_commas(b.drop_last())).push(b.last()));
        }
    }
}

proof fn lemma_strip_commas_digits(s: Seq<char>)
    requires
        all_digits(s),
    ensures
        strip_commas(s) == s,
    decreases s.len(),
{
    if s.len() > 0 {
        assert(all_digits(s.drop_last())) by {
            assert forall|i: int| 0 <= i < s.drop_last().len() implies '0' <= #[trigger] s.drop_last()[i]
                && s.drop_last()[i] <= '9' by {
                assert(s.drop_last()[i] == s[i]);
            }
        }
        lemma_strip_commas_digits(s.drop_last());
        assert(s.last() == s[s.len() - 1]);
        assert(s.drop_last().push(s.last()) =~= s);
    }
}

proof fn lemma_pad3_digits(m: nat)
    ensures
        all_digits(pad3(m)),
{
    lemma_dec_digits(m);
    let p = pad3(m);
    assert forall|i: int| 0 <= i < p.len() implies '0' <= #[trigger] p[i] && p[i] <= '9' by {
        if m < 10 {
            if i >= 2 {
                assert(p[i] == dec(m)[i - 2]);
            }
        } else if m < 100 {
            if i >= 1 {
                assert(p[i] == dec(m)[i - 1]);
            }
        }
    }
}

proof fn lemma_three_digit_arith(n: nat)
    requires
        n >= 1000,
    ensures
        (n / 10) / 10 == n / 100,
        (n / 100) / 10 == n / 1000,
        (n / 100) % 10 == (n % 1000) / 100,
        (n / 10) % 10 == ((n % 1000) / 10) % 10,
        n % 10 == (n % 1000) % 10,
        (n % 1000) / 10 == ((n % 1000) / 10) % 10 + 10 * ((n % 1000) / 100),
{
    assert((n / 10) / 10 == n / 100) by (nonlinear_arith);
    assert((n / 100) / 10 == n / 1000) by (nonlinear_arith);
    assert((n / 100) % 10 == (n % 1000) / 100) by (nonlinear_arith);
    assert((n / 10) % 10 == ((n % 1000) / 10) % 10) by (nonlinear_arith);
    assert(n % 10 == (n % 1000) % 10) by (nonlinear_arith);
    assert((n % 1000) / 10 == ((n % 1000) / 10) % 10 + 10 * ((n % 1000) / 100)) by (nonlinear_arith);
}

/// For four digits and more, the decimal text is that of the thousands
/// followed by the last three digits.
proof fn lemma_dec_split_thousands(n: nat)
    requires
        n >= 1000,
    ensures
        dec(n) == dec(n / 1000) + pad3(n % 1000),
{
    lemma_three_digit_arith(n);
    let m = n % 1000;
    let tail = seq![digit_char((n / 100) % 10), digit_char((n / 10) % 10), digit_char(n % 10)];
    assert(dec(n) =~= dec(n / 1000) + tail) by {
        assert(dec(n) == dec(n / 10).push(digit_char(n % 10)));
        assert(dec(n / 10) == dec(n / 100).push(digit_char((n / 10) % 10)));
        assert(dec(n / 100) == dec(n / 1000).push(digit_char((n / 100) % 10)));
    }
    assert(pad3(m) =~= tail) by {
        if m < 10 {
            assert(m / 100 == 0 && (m / 10) % 10 == 0) by (nonlinear_arith)
                requires
                    m < 10,
            ;
        } else if m < 100 {
            assert(m / 100 == 0 && (m / 10) % 10 == m / 10 && m / 10 < 10) by (nonlinear_arith)
                requires
                    10 <= m < 100,
            ;
            assert(dec(m) == dec(m / 10).push(digit_char(m % 10)));
        } else {
            assert(m / 100 < 10 && m / 10 >= 10 && (m / 10) / 10 == m / 100) by (nonlinear_arith)
                requires
                    100 <= m < 1000,
            ;
            assert(dec(m) == dec(m / 10).push(digit_char(m % 10)));
            assert(dec(m / 10) == dec(m / 100).push(digit_char((m / 10) % 10)));
        }
    }
}

/// Grouping digits only adds separators: dropping the `,` of a number
/// written with thousands separators gives the number written plainly.
pub proof fn lemma_comma_dec_strips_to_dec(n: nat)
    ensures
        strip_commas(comma_dec(n)) == dec(n),
    decreases n,
{
    if n < 1000 {
        lemma_dec_digits(n);
        lemma_strip_commas_digits(dec(n));
    } else {
        lemma_comma_dec_strips_to_dec(n / 1000);
        lemma_pad3_digits(n % 1000);
        lemma_strip_commas_digits(pad3(n % 1000));
        lemma_strip_commas_concat(comma_dec(n / 1000) + seq![','], pad3(n % 1000));
        lemma_strip_commas_concat(comma_dec(n / 1000), seq![',']);
        assert(strip_commas(seq![',']) =~= seq![]) by {
            let c = seq![','];
            assert(c.len() == 1);
            assert(c.last() == ',');
            assert(c.drop_last() =~= Seq::<char>::empty());
            assert(strip_commas(Seq::<char>::empty()) =~= Seq::<char>::empty());
        }
        assert(strip_commas(comma_dec(n / 1000)) + seq![] =~= strip_commas(comma_dec(n / 1000)));
        lemma_dec_split_thousands(n);
    }
}

} // verus!
