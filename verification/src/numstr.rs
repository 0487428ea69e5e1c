//! Verified conversions between decimal strings and integers.

use vstd::prelude::*;
use vstd::string::*;

verus! {

pub open spec fn is_digit(c: char) -> bool {
    '0' <= c && c <= '9'
}

pub open spec fn digit_val(c: char) -> int {
    c as int - 48
}

pub open spec fn all_digits(s: Seq<char>) -> bool {
    forall|i: int| 0 <= i < s.len() ==> is_digit(#[trigger] s[i])
}

/// The value of a digit string, most significant digit first.
pub open spec fn digits_val(s: Seq<char>) -> int
    decreases s.len(),
{
    if s.len() == 0 {
        0
    } else {
        digits_val(s.drop_last()) * 10 + digit_val(s.last())
    }
}

pub open spec fn pow10(n: nat) -> int
    decreases n,
{
    if n == 0 {
        1
    } else {
        10 * pow10((n - 1) as nat)
    }
}

/// What `str::parse::<i64>` accepts: an optional sign followed by at least
/// one digit, with the value in range.
pub open spec fn parse_i64_spec(s: Seq<char>) -> Option<int> {
    let sign: int = if s.len() > 0 && s[0] == '-' {
        -1
    } else {
        1
    };
    let ds = if s.len() > 0 && (s[0] == '-' || s[0] == '+') {
        s.skip(1)
    } else {
        s
    };
    if ds.len() == 0 || !all_digits(ds) {
        None
    } else {
        let v = sign * digits_val(ds);
        if i64::MIN <= v && v <= i64::MAX {
            Some(v)
        } else {
            None
        }
    }
}

proof fn lemma_pow10_positive(n: nat)
    ensures
        pow10(n) >= 1,
    decreases n,
{
    if n > 0 {
        lemma_pow10_positive((n - 1) as nat);
    }
}

proof fn lemma_pow10_monotone(a: nat, b: nat)
    requires
        a <= b,
    ensures
        pow10(a) <= pow10(b),
    decreases b,
{
    if a < b {
        lemma_pow10_monotone(a, (b - 1) as nat);
        lemma_pow10_positive((b - 1) as nat);
    }
}

/// A digit string's value lies below ten to its length.
proof fn lemma_digits_val_upper(s: Seq<char>)
    requires
        all_digits(s),
    ensures
        0 <= digits_val(s) < pow10(s.len()),
    decreases s.len(),
{
    if s.len() > 0 {
        assert(all_digits(s.drop_last())) by {
            assert(forall|i: int|
                0 <= i < s.len() - 1 ==> #[trigger] s.drop_last()[i] == s[i]);
        }
        lemma_digits_val_upper(s.drop_last());
        assert(is_digit(s.last()));
        assert(digits_val(s.drop_last()) * 10 + 10 <= pow10(s.len())) by (nonlinear_arith)
            requires
                digits_val(s.drop_last()) < pow10((s.len() - 1) as nat),
                pow10(s.len()) == 10 * pow10((s.len() - 1) as nat),
        {}
    }
}

/// A digit string with a non-zero first digit is at least ten to one less
/// than its length.
proof fn lemma_digits_val_lower(s: Seq<char>)
    requires
        all_digits(s),
        s.len() > 0,
        s[0] != '0',
    ensures
        digits_val(s) >= pow10((s.len() - 1) as nat),
    decreases s.len(),
{
    if s.len() == 1 {
        assert(digit_val(s[0]) >= 1);
    } else {
        assert(all_digits(s.drop_last())) by {
            assert(forall|i: int|
                0 <= i < s.len() - 1 ==> #[trigger] s.drop_last()[i] == s[i]);
        }
        lemma_digits_val_lower(s.drop_last());
        assert(is_digit(s.last()));
        assert(digits_val(s.drop_last()) * 10 >= pow10((s.len() - 2) as nat) * 10)
            by (nonlinear_arith)
            requires
                digits_val(s.drop_last()) >= pow10((s.len() - 2) as nat),
        {}
    }
}

/// Leading zeros do not change a digit string's value.
proof fn lemma_leading_zero(s: Seq<char>)
    requires
        s.len() > 0,
        s[0] == '0',
    ensures
        digits_val(s) == digits_val(s.skip(1)),
    decreases s.len(),
{
    if s.len() == 1 {
        assert(s.skip(1) =~= Seq::<char>::empty());
        assert(s.drop_last() =~= Seq::<char>::empty());
        assert(digits_val(s) == digits_val(s.drop_last()) * 10 + digit_val(s.last()));
    } else {
        assert(s.drop_last()[0] == s[0]);
        lemma_leading_zero(s.drop_last());
        assert(s.skip(1).drop_last() =~= s.drop_last().skip(1));
        assert(s.skip(1).last() == s.last());
        assert(digits_val(s) == digits_val(s.drop_last()) * 10 + digit_val(s.last()));
        assert(digits_val(s.skip(1)) == digits_val(s.skip(1).drop_last()) * 10 + digit_val(
            s.skip(1).last(),
        ));
    }
}

proof fn lemma_strip_zeros(s: Seq<char>, k: int)
    requires
        0 <= k <= s.len(),
        forall|i: int| 0 <= i < k ==> s[i] == '0',
    ensures
        digits_val(s) == digits_val(s.skip(k)),
    decreases k,
{
    if k > 0 {
        lemma_leading_zero(s);
        assert(s.skip(1).skip(k - 1) =~= s.skip(k));
        lemma_strip_zeros(s.skip(1), k - 1);
    } else {
        assert(s.skip(0) =~= s);
    }
}

/// What `str::parse::<i64>` returns on `s`.
pub fn parse_i64(s: &str) -> (r: Option<i64>)
    ensures
        match parse_i64_spec(s@) {
            Some(v) => r == Some(v as i64),
            None => r is None,
        },
{
    let len = s.unicode_len();
    if len == 0 {
        return None;
    }
    let c0 = s.get_char(0);
    let negative = c0 == '-';
    let start: usize = if c0 == '-' || c0 == '+' {
        1
    } else {
        0
    };
    let ghost ds = if c0 == '-' || c0 == '+' {
        s@.skip(1)
    } else {
        s@
    };
    proof {
        assert(ds =~= s@.skip(start as int));
    }
    if start == len {
        return None;
    }
    let mut j: usize = start;
    while j < len
        invariant
            len == s@.len(),
            len > 0,
            start <= j <= len,
            (start == 1) == (s@[0] == '-' || s@[0] == '+'),
            start <= 1,
            negative == (s@[0] == '-'),
            ds == s@.skip(start as int),
            forall|i: int| 0 <= i < j - start ==> is_digit(#[trigger] ds[i]),
        decreases len - j,
    {
        let c = s.get_char(j);
        if !('0' <= c && c <= '9') {
            proof {
                assert(ds[j - start] == s@[j as int]);
            }
            return None;
        }
        proof {
            assert(ds[j - start] == s@[j as int]);
        }
        j += 1;
    }
    proof {
        assert(all_digits(ds));
    }
    let mut z: usize = start;
    while z < len && s.get_char(z) == '0'
        invariant
            len == s@.len(),
            start <= z <= len,
            ds == s@.skip(start as int),
            forall|i: int| 0 <= i < z - start ==> #[trigger] ds[i] == '0',
        decreases len - z,
    {
        proof {
            assert(ds[z - start] == s@[z as int]);
        }
        z += 1;
    }
    let ghost nz = ds.skip(z - start);
    proof {
        lemma_strip_zeros(ds, z - start);
        assert(forall|i: int| 0 <= i < nz.len() ==> nz[i] == ds[i + z - start]);
        assert(all_digits(nz));
        lemma_digits_val_upper(nz);
    }
    if len - z > 19 {
        proof {
            assert(nz[0] == s@[z as int]);
            assert(nz[0] != '0');
            lemma_digits_val_lower(nz);
            reveal_with_fuel(pow10, 21);
            lemma_pow10_monotone(19, (nz.len() - 1) as nat);
            assert(pow10(19) == 10000000000000000000);
            assert(digits_val(ds) >= 10000000000000000000);
        }
        return None;
    }
    let mut mag: u64 = 0;
    let mut k: usize = z;
    proof {
        assert(nz.take(0) =~= Seq::<char>::empty());
        reveal_with_fuel(pow10, 21);
    }
    while k < len
        invariant
            len == s@.len(),
            z <= k <= len,
            len - z <= 19,
            ds == s@.skip(start as int),
            start <= z,
            nz == ds.skip(z - start),
            all_digits(nz),
            mag == digits_val(nz.take(k - z)),
            0 <= digits_val(nz.take(k - z)) < pow10((k - z) as nat),
            pow10(19) == 10000000000000000000,
        decreases len - k,
    {
        let c = s.get_char(k);
        proof {
            assert(nz[k - z] == s@[k as int]);
            assert(is_digit(nz[k - z]));
            assert(nz.take(k - z + 1).drop_last() =~= nz.take(k - z));
            assert(nz.take(k - z + 1).last() == nz[k - z]);
            lemma_pow10_monotone((k - z + 1) as nat, 19);
            assert(all_digits(nz.take(k - z + 1))) by {
                assert(forall|i: int|
                    0 <= i < k - z + 1 ==> #[trigger] nz.take(k - z + 1)[i] == nz[i]);
            }
            lemma_digits_val_upper(nz.take(k - z + 1));
        }
        let d = (c as u32 - 48) as u64;
        mag = mag * 10 + d;
        k += 1;
    }
    proof {
        assert(nz.take(len - z) =~= nz);
        assert(mag == digits_val(nz));
        assert(digits_val(ds) == digits_val(nz));
    }
    if negative {
        if mag <= 9223372036854775807u64 {
            Some(0i64 - (mag as i64))
        } else if mag == 9223372036854775808u64 {
            Some(i64::MIN)
        } else {
            None
        }
    } else {
        if mag <= 9223372036854775807u64 {
            Some(mag as i64)
        } else {
            None
        }
    }
}

pub open spec fn digit_char(d: int) -> char {
    if d == 0 {
        '0'
    } else if d == 1 {
        '1'
    } else if d == 2 {
        '2'
    } else if d == 3 {
        '3'
    } else if d == 4 {
        '4'
    } else if d == 5 {
        '5'
    } else if d == 6 {
        '6'
    } else if d == 7 {
        '7'
    } else if d == 8 {
        '8'
    } else {
        '9'
    }
}

/// The decimal rendering of `n`, without sign or leading zeros.
pub open spec fn dec_str(n: int) -> Seq<char>
    decreases n,
{
    if n < 10 {
        seq![digit_char(n)]
    } else {
        dec_str(n / 10).push(digit_char(n % 10))
    }
}

fn append_digit(s: &mut String, d: u64)
    requires
        d < 10,
    ensures
        final(s)@ == old(s)@.push(digit_char(d as int)),
{
    proof {
        reveal_strlit("0");
        reveal_strlit("1");
        reveal_strlit("2");
        reveal_strlit("3");
        reveal_strlit("4");
        reveal_strlit("5");
        reveal_strlit("6");
        reveal_strlit("7");
        reveal_strlit("8");
        reveal_strlit("9");
    }
    if d == 0 {
        s.append("0");
        proof {
            assert(old(s)@ + "0"@ =~= old(s)@.push('0'));
        }
    } else if d == 1 {
        s.append("1");
        proof {
            assert(old(s)@ + "1"@ =~= old(s)@.push('1'));
        }
    } else if d == 2 {
        s.append("2");
        proof {
            assert(old(s)@ + "2"@ =~= old(s)@.push('2'));
        }
    } else if d == 3 {
        s.append("3");
        proof {
            assert(old(s)@ + "3"@ =~= old(s)@.push('3'));
        }
    } else if d == 4 {
        s.append("4");
        proof {
            assert(old(s)@ + "4"@ =~= old(s)@.push('4'));
        }
    } else if d == 5 {
        s.append("5");
        proof {
            assert(old(s)@ + "5"@ =~= old(s)@.push('5'));
        }
    } else if d == 6 {
        s.append("6");
        proof {
            assert(old(s)@ + "6"@ =~= old(s)@.push('6'));
        }
    } else if d == 7 {
        s.append("7");
        proof {
            assert(old(s)@ + "7"@ =~= old(s)@.push('7'));
        }
    } else if d == 8 {
        s.append("8");
        proof {
            assert(old(s)@ + "8"@ =~= old(s)@.push('8'));
        }
    } else {
        s.append("9");
        proof {
            assert(old(s)@ + "9"@ =~= old(s)@.push('9'));
        }
    }
}

fn append_dec(s: &mut String, n: u64)
    ensures
        final(s)@ == old(s)@ + dec_str(n as int),
    decreases n,
{
    if n < 10 {
        append_digit(s, n);
        proof {
            assert(old(s)@.push(digit_char(n as int)) =~= old(s)@ + dec_str(n as int));
        }
    } else {
        append_dec(s, n / 10);
        append_digit(s, n % 10);
        proof {
            assert((old(s)@ + dec_str(n as int / 10)).push(digit_char(n as int % 10)) =~= old(s)@
                + dec_str(n as int));
        }
    }
}

/// The decimal rendering of `n`, as `u64::to_string` gives it.
pub fn u64_to_dec(n: u64) -> (r: String)
    ensures
        r@ == dec_str(n as int),
{
    let mut s = String::new();
    append_dec(&mut s, n);
    proof {
        assert(Seq::<char>::empty() + dec_str(n as int) =~= dec_str(n as int));
    }
    s
}

/// The decimal rendering of a signed number: a minus sign before the
/// magnitude for negative values.
pub open spec fn dec_str_i64(n: int) -> Seq<char> {
    if n < 0 {
        seq!['-'] + dec_str(-n)
    } else {
        dec_str(n)
    }
}

pub fn i64_to_dec(n: i64) -> (r: String)
    ensures
        r@ == dec_str_i64(n as int),
{
    if n >= 0 {
        u64_to_dec(n as u64)
    } else {
        let magnitude: u64 = if n == i64::MIN {
            9223372036854775808u64
        } else {
            (0i64 - n) as u64
        };
        proof {
            reveal_strlit("-");
            assert("-"@ =~= seq!['-']);
        }
        let mut s = String::from_str("-");
        append_dec(&mut s, magnitude);
        proof {
            assert(seq!['-'] + dec_str(magnitude as int) =~= dec_str_i64(n as int));
        }
        s
    }
}

} // verus!
