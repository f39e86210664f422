use vstd::prelude::*;
use vstd::string::*;
use crate::text::{digit, digit_char, nat_text, int_text, push_char, push_i64};

verus! {

/// A double-precision number as its shortest decimal form: the value of a
/// finite one is `mantissa * 10^exponent`, negated when `negative` is set.
#[derive(Debug, Clone, Copy, PartialEq)]
pub enum Double {
    Finite { negative: bool, mantissa: u64, exponent: i16 },
    Infinite { negative: bool },
    NaN,
}

/// `n` zeros.
pub open spec fn zeros(n: nat) -> Seq<char> {
    Seq::new(n, |i: int| '0')
}

/// The positional decimal text of `m * 10^e`, written from the digits of `m`
/// without exponent: trailing zeros for `e >= 0`, otherwise a decimal point
/// `-e` digits from the right, with `0.` and leading zeros where the digits
/// do not reach it.
pub open spec fn decimal_text(m: nat, e: int) -> Seq<char> {
    let ds = nat_text(m);
    if e >= 0 {
        ds + zeros(e as nat)
    } else if ds.len() > -e {
        ds.take(ds.len() + e) + seq!['.'] + ds.skip(ds.len() + e)
    } else {
        seq!['0', '.'] + zeros((-e - ds.len()) as nat) + ds
    }
}

/// The text of a double as `f64`'s `Display` writes it: `NaN`, `inf`,
/// `-inf`, or the decimal text with a leading `-` when negative. That this
/// is what `Display` writes for the `f64` that a `Double` stands for is
/// checked by the tests on given values, not proved: floating point stays
/// outside the library.
pub open spec fn double_text(d: Double) -> Seq<char> {
    match d {
        Double::NaN => seq!['N', 'a', 'N'],
        Double::Infinite { negative } => if negative {
            seq!['-', 'i', 'n', 'f']
        } else {
            seq!['i', 'n', 'f']
        },
        Double::Finite { negative, mantissa, exponent } => if negative {
            seq!['-'] + decimal_text(mantissa as nat, exponent as int)
        } else {
            decimal_text(mantissa as nat, exponent as int)
        },
    }
}

/// The digits of `n`, as characters.
pub fn u64_digits(n: u64) -> (v: Vec<char>)
    ensures
        v@ == nat_text(n as nat),
    decreases n,
{
    if n < 10 {
        let mut v = Vec::new();
        v.push(digit(n));
        v
    } else {
        let mut v = u64_digits(n / 10);
        v.push(digit(n % 10));
        v
    }
}

/// Appends `v[from..to]`.
pub fn push_slice(out: &mut String, v: &Vec<char>, from: usize, to: usize)
    requires
        from <= to <= v.len(),
    ensures
        final(out)@ == old(out)@ + v@.subrange(from as int, to as int),
{
    let ghost start = out@;
    let mut i = from;
    while i < to
        invariant
            from <= i <= to <= v.len(),
            out@ == start + v@.subrange(from as int, i as int),
        decreases to - i,
    {
        push_char(out, v[i]);
        assert(v@.subrange(from as int, i + 1) == v@.subrange(from as int, i as int).push(v@[i as int]));
        i = i + 1;
    }
}

/// Appends `n` zeros.
pub fn push_zeros(out: &mut String, n: usize)
    ensures
        final(out)@ == old(out)@ + zeros(n as nat),
{
    let ghost start = out@;
    let mut i: usize = 0;
    while i < n
        invariant
            i <= n,
            out@ == start + zeros(i as nat),
        decreases n - i,
    {
        push_char(out, '0');
        assert(zeros((i + 1) as nat) == zeros(i as nat).push('0'));
        i = i + 1;
    }
}

/// Appends the positional decimal text of `m * 10^e`.
pub fn push_decimal(out: &mut String, m: u64, e: i16)
    ensures
        final(out)@ == old(out)@ + decimal_text(m as nat, e as int),
{
    let ds = u64_digits(m);
    let len = ds.len();
    if e >= 0 {
        push_slice(out, &ds, 0, len);
        push_zeros(out, e as usize);
        assert(ds@.subrange(0, len as int) == ds@);
    } else {
        let k: usize = (0i32 - e as i32) as usize;
        if len > k {
            push_slice(out, &ds, 0, len - k);
            push_char(out, '.');
            push_slice(out, &ds, len - k, len);
            assert(ds@.subrange(0, (len - k) as int) == ds@.take(len - k));
            assert(ds@.subrange((len - k) as int, len as int) == ds@.skip(len - k));
        } else {
            push_char(out, '0');
            push_char(out, '.');
            push_zeros(out, k - len);
            push_slice(out, &ds, 0, len);
            assert(ds@.subrange(0, len as int) == ds@);
        }
    }
}

/// Appends the text of a double.
pub fn push_double(out: &mut String, d: &Double)
    ensures
        final(out)@ == old(out)@ + double_text(*d),
{
    match d {
        Double::NaN => {
            push_char(out, 'N');
            push_char(out, 'a');
            push_char(out, 'N');
        },
        Double::Infinite { negative } => {
            if *negative {
                push_char(out, '-');
            }
            push_char(out, 'i');
            push_char(out, 'n');
            push_char(out, 'f');
        },
        Double::Finite { negative, mantissa, exponent } => {
            if *negative {
                push_char(out, '-');
            }
            push_decimal(out, *mantissa, *exponent);
        },
    }
}

/// `c` is an ASCII digit.
pub open spec fn is_digit(c: char) -> bool {
    '0' <= c <= '9'
}

/// The number that a string of decimal digits stands for.
pub open spec fn digits_value(ds: Seq<char>) -> nat
    decreases ds.len(),
{
    if ds.len() == 0 {
        0
    } else {
        digits_value(ds.drop_last()) * 10 + (ds.last() as nat - 48) as nat
    }
}

/// `-` for a negative number, nothing otherwise.
pub open spec fn sign_text(negative: bool) -> Seq<char> {
    if negative { seq!['-'] } else { seq![] }
}

/// The first digit of `ds`, then the others after a decimal point where
/// there are others.
pub open spec fn point_after_first(ds: Seq<char>) -> Seq<char> {
    seq![ds[0]] + (if ds.len() > 1 { seq!['.'] + ds.drop_first() } else { seq![] })
}

/// The text of a double as `f64`'s `LowerExp` (`{:e}`) writes it: `NaN`,
/// `inf`, `-inf`, or the digits with a decimal point after the first one,
/// then `e` and the power of ten of that first digit.
/// That this is what `{:e}` writes for the `f64` that a `Double` stands for
/// is checked by the tests on given values, not proved.
pub open spec fn exp_text(d: Double) -> Seq<char> {
    match d {
        Double::NaN => seq!['N', 'a', 'N'],
        Double::Infinite { negative } => sign_text(negative) + seq!['i', 'n', 'f'],
        Double::Finite { negative, mantissa, exponent } => {
            let ds = nat_text(mantissa as nat);
            sign_text(negative) + point_after_first(ds) + seq!['e'] + int_text(
                exponent + ds.len() - 1,
            )
        },
    }
}

/// The double that `s` is the `LowerExp` text of, where there is one.
pub open spec fn parse_exp(s: Seq<char>) -> Option<Double> {
    if exists|d: Double| exp_text(d) == s {
        Some(choose|d: Double| exp_text(d) == s)
    } else {
        None
    }
}

proof fn lemma_digit_char(d: nat)
    requires
        d < 10,
    ensures
        digit_char(d) as nat == d + 48,
        is_digit(digit_char(d)),
{
}

/// The digits of a number are digits, the first one is `0` only for zero,
/// and they stand for the number.
pub proof fn lemma_nat_text_digits(n: nat)
    ensures
        nat_text(n).len() > 0,
        forall|i: int| 0 <= i < nat_text(n).len() ==> is_digit(#[trigger] nat_text(n)[i]),
        n > 0 ==> nat_text(n)[0] != '0',
        n < 10 <==> nat_text(n).len() == 1,
        digits_value(nat_text(n)) == n,
    decreases n,
{
    lemma_digit_char(n % 10);
    if n < 10 {
        assert(nat_text(n).drop_last().len() == 0);
        assert(digits_value(nat_text(n).drop_last()) == 0);
    } else {
        lemma_nat_text_digits(n / 10);
        let t = nat_text(n);
        assert(t.drop_last() == nat_text(n / 10));
        assert forall|i: int| 0 <= i < t.len() implies is_digit(#[trigger] t[i]) by {
            if i < t.len() - 1 {
                assert(t[i] == nat_text(n / 10)[i]);
            }
        }
        assert(t[0] == nat_text(n / 10)[0]);
        assert(t.last() == digit_char(n % 10));
        assert(digits_value(t) == digits_value(nat_text(n / 10)) * 10 + (n % 10));
    }
}

/// A prefix of a digit string never stands for more than the whole string.
pub proof fn lemma_digits_value_prefix(ds: Seq<char>, k: int)
    requires
        0 <= k <= ds.len(),
        forall|i: int| 0 <= i < ds.len() ==> is_digit(#[trigger] ds[i]),
    ensures
        digits_value(ds.take(k)) <= digits_value(ds),
    decreases ds.len(),
{
    if k < ds.len() {
        let init = ds.drop_last();
        assert forall|i: int| 0 <= i < init.len() implies is_digit(#[trigger] init[i]) by {
            assert(init[i] == ds[i]);
        }
        lemma_digits_value_prefix(init, k);
        assert(init.take(k) == ds.take(k));
    } else {
        assert(ds.take(k) == ds);
    }
}

/// The value of one more digit.
pub proof fn lemma_digits_value_push(ds: Seq<char>, k: int)
    requires
        0 <= k < ds.len(),
    ensures
        digits_value(ds.take(k + 1)) == digits_value(ds.take(k)) * 10 + (ds[k] as nat - 48) as nat,
{
    assert(ds.take(k + 1).drop_last() == ds.take(k));
}

/// The text of an integer stands for it alone.
pub proof fn lemma_int_text_injective(i: int, j: int)
    requires
        int_text(i) == int_text(j),
    ensures
        i == j,
{
    let ti = int_text(i);
    if i < 0 {
        lemma_nat_text_digits((-i) as nat);
        if j < 0 {
            lemma_nat_text_digits((-j) as nat);
            assert(ti.drop_first() == nat_text((-i) as nat));
            assert(int_text(j).drop_first() == nat_text((-j) as nat));
        } else {
            lemma_nat_text_digits(j as nat);
            assert(int_text(j)[0] == nat_text(j as nat)[0]);
        }
    } else {
        lemma_nat_text_digits(i as nat);
        if j < 0 {
            assert(ti[0] == nat_text(i as nat)[0]);
        } else {
            lemma_nat_text_digits(j as nat);
        }
    }
}

/// Where neither `a1` nor `a2` holds an `e`, the first `e` of
/// `a1 + e + t1` and of `a2 + e + t2` splits both the same way.
proof fn lemma_split_at_first_e(a1: Seq<char>, t1: Seq<char>, a2: Seq<char>, t2: Seq<char>)
    requires
        forall|i: int| 0 <= i < a1.len() ==> #[trigger] a1[i] != 'e',
        forall|i: int| 0 <= i < a2.len() ==> #[trigger] a2[i] != 'e',
        a1 + seq!['e'] + t1 == a2 + seq!['e'] + t2,
    ensures
        a1 == a2,
        t1 == t2,
{
    let w = a1 + seq!['e'] + t1;
    if a1.len() < a2.len() {
        assert(w[a1.len() as int] == 'e');
        assert(w[a1.len() as int] == a2[a1.len() as int]);
    } else if a2.len() < a1.len() {
        assert(w[a2.len() as int] == 'e');
        assert(w[a2.len() as int] == a1[a2.len() as int]);
    }
    assert(a1 == w.take(a1.len() as int));
    assert(a2 == w.take(a2.len() as int));
    assert(t1 == w.skip(a1.len() as int + 1));
    assert(t2 == w.skip(a2.len() as int + 1));
}

/// The digits before and after the decimal point, without it.
pub open spec fn without_point(a: Seq<char>) -> Seq<char> {
    if a.len() > 1 { seq![a[0]] + a.skip(2) } else { a }
}

proof fn lemma_point_after_first(ds: Seq<char>)
    requires
        ds.len() > 0,
        forall|i: int| 0 <= i < ds.len() ==> is_digit(#[trigger] ds[i]),
    ensures
        without_point(point_after_first(ds)) == ds,
        forall|i: int|
            0 <= i < point_after_first(ds).len() ==> #[trigger] point_after_first(ds)[i] != 'e',
        point_after_first(ds)[0] == ds[0],
{
    let a = point_after_first(ds);
    if ds.len() > 1 {
        assert(a.skip(2) == ds.drop_first());
        assert(ds == seq![ds[0]] + ds.drop_first());
        assert forall|i: int| 0 <= i < a.len() implies #[trigger] a[i] != 'e' by {
            if i >= 2 {
                assert(a[i] == ds[i - 1]);
            }
        }
    } else {
        assert(a == ds);
    }
}

/// The `LowerExp` text of a double stands for it alone.
pub proof fn law_exp_text_injective(d1: Double, d2: Double)
    ensures
        exp_text(d1) == exp_text(d2) ==> d1 == d2,
{
    if exp_text(d1) == exp_text(d2) {
        lemma_exp_text_injective(d1, d2);
    }
}

proof fn lemma_finite_text(negative: bool, mantissa: u64, exponent: i16)
    ensures
        ({
            let ds = nat_text(mantissa as nat);
            let t = exp_text(Double::Finite { negative, mantissa, exponent });
            &&& t.len() > sign_text(negative).len() + 1
            &&& t[0] == '-' <==> negative
            &&& is_digit(t[sign_text(negative).len() as int])
            &&& t.skip(sign_text(negative).len() as int) == point_after_first(ds) + seq!['e']
                + int_text(exponent + ds.len() - 1)
        }),
{
    let ds = nat_text(mantissa as nat);
    lemma_nat_text_digits(mantissa as nat);
    lemma_point_after_first(ds);
    let rest = point_after_first(ds) + seq!['e'] + int_text(exponent + ds.len() - 1);
    let t = sign_text(negative) + rest;
    assert(exp_text(Double::Finite { negative, mantissa, exponent }) == t);
    assert(t.skip(sign_text(negative).len() as int) == rest);
    assert(rest[0] == ds[0]);
}

proof fn lemma_exp_text_injective(d1: Double, d2: Double)
    requires
        exp_text(d1) == exp_text(d2),
    ensures
        d1 == d2,
{
    let t = exp_text(d1);
    match d1 {
        Double::NaN => {
            match d2 {
                Double::NaN => {},
                Double::Infinite { negative } => {
                    assert(t[0] == 'N');
                },
                Double::Finite { negative, mantissa, exponent } => {
                    lemma_finite_text(negative, mantissa, exponent);
                    assert(t[0] == 'N');
                },
            }
        },
        Double::Infinite { negative: n1 } => {
            match d2 {
                Double::NaN => {
                    assert(exp_text(d2)[0] == 'N');
                },
                Double::Infinite { negative: n2 } => {
                    if n1 != n2 {
                        assert(exp_text(d1).len() != exp_text(d2).len());
                    }
                },
                Double::Finite { negative, mantissa, exponent } => {
                    lemma_finite_text(negative, mantissa, exponent);
                    if n1 {
                        assert(t[1] == 'i');
                    } else {
                        assert(t[0] == 'i');
                    }
                },
            }
        },
        Double::Finite { negative: n1, mantissa: m1, exponent: e1 } => {
            lemma_finite_text(n1, m1, e1);
            match d2 {
                Double::NaN => {
                    assert(t[0] == 'N');
                },
                Double::Infinite { negative } => {
                    if negative {
                        assert(exp_text(d2)[1] == 'i');
                    } else {
                        assert(exp_text(d2)[0] == 'i');
                    }
                },
                Double::Finite { negative: n2, mantissa: m2, exponent: e2 } => {
                    lemma_finite_text(n2, m2, e2);
                    assert(n1 == n2);
                    let ds1 = nat_text(m1 as nat);
                    let ds2 = nat_text(m2 as nat);
                    lemma_nat_text_digits(m1 as nat);
                    lemma_nat_text_digits(m2 as nat);
                    lemma_point_after_first(ds1);
                    lemma_point_after_first(ds2);
                    let k = sign_text(n1).len() as int;
                    lemma_split_at_first_e(
                        point_after_first(ds1),
                        int_text(e1 + ds1.len() - 1),
                        point_after_first(ds2),
                        int_text(e2 + ds2.len() - 1),
                    );
                    assert(ds1 == ds2);
                    assert(m1 == m2);
                    lemma_int_text_injective(e1 + ds1.len() - 1, e2 + ds2.len() - 1);
                },
            }
        },
    }
}

/// Reading the `LowerExp` text of a double gives the double back.
pub proof fn law_parse_exp_text(d: Double)
    ensures
        parse_exp(exp_text(d)) == Some(d),
{
    let t = exp_text(d);
    assert(exists|x: Double| exp_text(x) == t);
    let c = choose|x: Double| exp_text(x) == t;
    lemma_exp_text_injective(c, d);
}

/// `10^k`.
pub open spec fn pow10(k: nat) -> nat
    decreases k,
{
    if k == 0 { 1 } else { 10 * pow10((k - 1) as nat) }
}

proof fn lemma_nat_text_len_bound(n: nat, k: nat)
    requires
        k >= 1,
        n < pow10(k),
    ensures
        nat_text(n).len() <= k,
    decreases k,
{
    if n >= 10 {
        if k == 1 {
            assert(pow10(1) == 10 * pow10(0));
        } else {
            assert(pow10(k) == 10 * pow10((k - 1) as nat));
            lemma_nat_text_len_bound(n / 10, (k - 1) as nat);
        }
    }
}

/// A `u64` has at most twenty digits.
proof fn lemma_u64_digits_len(n: u64)
    ensures
        nat_text(n as nat).len() <= 20,
{
    assert(pow10(20) == 100_000_000_000_000_000_000) by {
        reveal_with_fuel(pow10, 21);
    }
    lemma_nat_text_len_bound(n as nat, 20);
}

/// The first characters of the `LowerExp` text of a double tell which kind
/// of double it is and its sign.
proof fn lemma_exp_text_shape(d: Double)
    ensures
        d is NaN ==> exp_text(d)[0] == 'N' && exp_text(d).len() == 3,
        d matches Double::Infinite { negative } ==> {
            &&& exp_text(d).len() == sign_text(negative).len() + 3
            &&& exp_text(d)[0] == '-' <==> negative
            &&& exp_text(d)[sign_text(negative).len() as int] == 'i'
        },
        d matches Double::Finite { negative, mantissa, exponent } ==> {
            &&& exp_text(d).len() > sign_text(negative).len() + 1
            &&& exp_text(d)[0] == '-' <==> negative
            &&& is_digit(exp_text(d)[sign_text(negative).len() as int])
        },
{
    match d {
        Double::Finite { negative, mantissa, exponent } => {
            lemma_finite_text(negative, mantissa, exponent);
        },
        _ => {},
    }
}

fn digit_value(c: char) -> (d: u64)
    requires
        is_digit(c),
    ensures
        d == c as nat - 48,
{
    (c as u32 - 48) as u64
}

fn is_digit_char(c: char) -> (b: bool)
    ensures
        b == is_digit(c),
{
    '0' <= c && c <= '9'
}

/// How many digits the first `j` characters of `point_after_first(ds)` hold.
spec fn digits_seen(j: int) -> int {
    if j <= 1 { j } else { j - 1 }
}

/// `v` from `p` on is the digits `ds` with a point after the first one,
/// then `e` and `tail`.
spec fn mantissa_shaped(v: Seq<char>, p: int, ds: Seq<char>, tail: Seq<char>) -> bool {
    &&& 0 <= p <= v.len()
    &&& v.skip(p) == point_after_first(ds) + seq!['e'] + tail
    &&& 0 < ds.len() <= 20
    &&& forall|i: int| 0 <= i < ds.len() ==> is_digit(#[trigger] ds[i])
    &&& digits_value(ds) <= u64::MAX
}

/// Reads the digits from `p` up to the first `e`, skipping whatever else
/// stands there: their value, how many there are, and where the `e` is.
fn read_mantissa(v: &Vec<char>, p: usize, Ghost(ds): Ghost<Seq<char>>, Ghost(tail): Ghost<Seq<char>>) -> (r: Option<(u64, usize, usize)>)
    requires
        p <= v.len(),
    ensures
        r matches Some((m, count, q)) ==> q < v.len() && count <= 20,
        mantissa_shaped(v@, p as int, ds, tail) ==> r == Some(
            (digits_value(ds) as u64, ds.len() as usize, (p + point_after_first(ds).len()) as usize),
        ),
{
    let n = v.len();
    let ghost shaped = mantissa_shaped(v@, p as int, ds, tail);
    let ghost a = point_after_first(ds);
    proof {
        if shaped {
            lemma_point_after_first(ds);
        }
    }
    let mut q = p;
    let mut m: u64 = 0;
    let mut count: usize = 0;
    while q < n && v[q] != 'e'
        invariant
            p <= q <= n,
            n == v@.len(),
            count <= 20,
            shaped == mantissa_shaped(v@, p as int, ds, tail),
            a == point_after_first(ds),
            shaped ==> {
                &&& forall|i: int| 0 <= i < a.len() ==> #[trigger] a[i] != 'e'
                &&& q <= p + a.len()
                &&& count == digits_seen(q - p)
                &&& m == digits_value(ds.take(count as int))
            },
        decreases n - q,
    {
        let c = v[q];
        proof {
            if shaped {
                assert(q < p + a.len()) by {
                    if q == p + a.len() {
                        assert(v@[q as int] == v@.skip(p as int)[a.len() as int]);
                    }
                }
                assert(v@[q as int] == v@.skip(p as int)[q - p]);
                assert((a + seq!['e'] + tail)[q - p] == a[q - p]);
                assert(v@[q as int] == a[q - p]);
            }
        }
        if is_digit_char(c) {
            let dv = digit_value(c);
            proof {
                if shaped {
                    let j = q - p;
                    assert(count < ds.len() && c == ds[count as int]) by {
                        if j >= 2 {
                            assert(a[j] == ds[j - 1]);
                        }
                    }
                    lemma_digits_value_push(ds, count as int);
                    lemma_digits_value_prefix(ds, count + 1);
                }
            }
            if count >= 20 || m > (u64::MAX - dv) / 10 {
                return None;
            }
            m = m * 10 + dv;
            count = count + 1;
        } else {
            proof {
                if shaped {
                    let j = q - p;
                    assert(j == 1 && ds.len() > 1) by {
                        if j == 0 {
                            assert(a[0] == ds[0]);
                        } else if j >= 2 {
                            assert(a[j] == ds[j - 1]);
                        }
                    }
                }
            }
        }
        q = q + 1;
    }
    if q >= n {
        proof {
            if shaped {
                assert(v@.skip(p as int).len() == n - p);
                assert((a + seq!['e'] + tail).len() > a.len());
            }
        }
        return None;
    }
    proof {
        if shaped {
            assert(q == p + a.len()) by {
                if q < p + a.len() {
                    assert(v@[q as int] == v@.skip(p as int)[q - p]);
                    assert((a + seq!['e'] + tail)[q - p] == a[q - p]);
                }
            }
            assert(count == ds.len());
            assert(ds.take(count as int) == ds);
        }
    }
    Some((m, count, q))
}

/// Reads the decimal text of an integer from `q` to the end.
fn read_int(v: &Vec<char>, from: usize, Ghost(ev): Ghost<int>) -> (r: Option<i64>)
    requires
        from <= v.len(),
    ensures
        r matches Some(e) ==> -10_000_009 <= e <= 10_000_009,
        v@.skip(from as int) == int_text(ev) && -32786 <= ev <= 32786 ==> r == Some(ev as i64),
{
    let n = v.len();
    let ghost shaped = v@.skip(from as int) == int_text(ev) && -32786 <= ev <= 32786;
    let ghost mag = nat_text(if ev < 0 { (-ev) as nat } else { ev as nat });
    let mut q = from;
    proof {
        if shaped {
            lemma_nat_text_digits(if ev < 0 { (-ev) as nat } else { ev as nat });
            let t = int_text(ev);
            assert(t.len() > 0);
            assert(v@.skip(q as int).len() > 0);
            assert(v@.skip(q as int)[0] == v@[q as int]);
            assert(v@[q as int] == t[0]);
            if ev < 0 {
                assert(t.skip(1) == mag);
                assert(v@.skip(q + 1) == mag);
            } else {
                assert(t == mag);
            }
        }
    }
    let eneg = q < n && v[q] == '-';
    if eneg {
        q = q + 1;
    }
    let start = q;
    proof {
        if shaped {
            assert(eneg == (ev < 0));
            assert(v@.skip(start as int) == mag);
        }
    }
    let mut big: u64 = 0;
    while q < n
        invariant
            start <= q <= n,
            n == v@.len(),
            big <= 10_000_009,
            shaped == (v@.skip(from as int) == int_text(ev) && -32786 <= ev <= 32786),
            shaped ==> {
                &&& v@.skip(start as int) == mag
                &&& mag.len() > 0
                &&& forall|i: int| 0 <= i < mag.len() ==> is_digit(#[trigger] mag[i])
                &&& digits_value(mag) <= 32786
                &&& big == digits_value(mag.take(q - start))
            },
        decreases n - q,
    {
        let c = v[q];
        proof {
            if shaped {
                assert(v@[q as int] == v@.skip(start as int)[q - start]);
                lemma_digits_value_prefix(mag, q - start + 1);
                lemma_digits_value_push(mag, q - start);
            }
        }
        if !is_digit_char(c) || big > 1_000_000 {
            return None;
        }
        big = big * 10 + digit_value(c);
        q = q + 1;
    }
    if q == start {
        return None;
    }
    proof {
        if shaped {
            assert(mag.take(q - start) == mag);
        }
    }
    if eneg { Some(0 - (big as i64)) } else { Some(big as i64) }
}

/// The double whose `LowerExp` text `v` is, where there is one; where there
/// is none, any double or `None`.
fn exp_candidate(v: &Vec<char>) -> (r: Option<Double>)
    ensures
        (exists|d: Double| exp_text(d) == v@) ==> r == Some(choose|d: Double| exp_text(d) == v@),
{
    let n = v.len();
    let ghost valid = exists|d: Double| exp_text(d) == v@;
    let ghost d0 = choose|d: Double| exp_text(d) == v@;
    proof {
        lemma_exp_text_shape(d0);
    }
    if n > 0 && v[0] == 'N' {
        proof {
            if valid {
                assert(d0 is NaN);
            }
        }
        return Some(Double::NaN);
    }
    let negative = n > 0 && v[0] == '-';
    let p: usize = if negative { 1 } else { 0 };
    if p < n && v[p] == 'i' {
        proof {
            if valid {
                assert(d0 is Infinite);
            }
        }
        return Some(Double::Infinite { negative });
    }
    let ghost ds: Seq<char> = nat_text(d0->Finite_mantissa as nat);
    let ghost ev: int = d0->Finite_exponent + ds.len() - 1;
    proof {
        if valid {
            assert(d0 is Finite);
            assert(d0->Finite_negative == negative);
            lemma_finite_text(negative, d0->Finite_mantissa, d0->Finite_exponent);
            lemma_nat_text_digits(d0->Finite_mantissa as nat);
            lemma_u64_digits_len(d0->Finite_mantissa);
            assert(sign_text(negative).len() == p);
            assert(mantissa_shaped(v@, p as int, ds, int_text(ev)));
        }
    }
    let (m, count, q) = match read_mantissa(v, p, Ghost(ds), Ghost(int_text(ev))) {
        Some(r) => r,
        None => return None,
    };
    proof {
        if valid {
            let a = point_after_first(ds);
            assert(v@.skip(q + 1) == int_text(ev)) by {
                assert(v@.skip(q + 1) == v@.skip(p as int).skip(a.len() as int + 1));
                assert((a + seq!['e'] + int_text(ev)).skip(a.len() as int + 1) == int_text(ev));
            }
        }
    }
    let e = match read_int(v, q + 1, Ghost(ev)) {
        Some(e) => e,
        None => return None,
    };
    if count == 0 {
        return None;
    }
    let exponent: i64 = e - (count as i64 - 1);
    if exponent < -32768 || exponent > 32767 {
        return None;
    }
    Some(Double::Finite { negative, mantissa: m, exponent: exponent as i16 })
}

/// Appends the `LowerExp` text of a double.
fn push_exp(out: &mut String, d: &Double)
    ensures
        final(out)@ == old(out)@ + exp_text(*d),
{
    match d {
        Double::NaN => {
            push_char(out, 'N');
            push_char(out, 'a');
            push_char(out, 'N');
        },
        Double::Infinite { negative } => {
            if *negative {
                push_char(out, '-');
            }
            push_char(out, 'i');
            push_char(out, 'n');
            push_char(out, 'f');
        },
        Double::Finite { negative, mantissa, exponent } => {
            if *negative {
                push_char(out, '-');
            }
            let ds = u64_digits(*mantissa);
            let len = ds.len();
            proof {
                lemma_u64_digits_len(*mantissa);
                lemma_nat_text_digits(*mantissa as nat);
            }
            let ghost before = out@;
            push_char(out, ds[0]);
            if len > 1 {
                push_char(out, '.');
                push_slice(out, &ds, 1, len);
                assert(ds@.subrange(1, len as int) == ds@.drop_first());
            }
            push_char(out, 'e');
            push_i64(out, *exponent as i64 + len as i64 - 1);
        },
    }
}

/// The characters of `s`.
fn chars_of(s: &str) -> (v: Vec<char>)
    ensures
        v@ == s@,
{
    let n = s.unicode_len();
    let mut v: Vec<char> = Vec::new();
    let mut i: usize = 0;
    while i < n
        invariant
            i <= n,
            n == s@.len(),
            v@ == s@.take(i as int),
        decreases n - i,
    {
        v.push(s.get_char(i));
        assert(s@.take(i + 1) == s@.take(i as int).push(s@[i as int]));
        i = i + 1;
    }
    assert(s@.take(n as int) == s@);
    v
}

/// The digits of two digit strings put together stand for the first one
/// shifted left by the length of the second, plus the second.
proof fn lemma_digits_value_concat(a: Seq<char>, b: Seq<char>)
    ensures
        digits_value(a + b) == digits_value(a) * pow10(b.len()) + digits_value(b),
    decreases b.len(),
{
    if b.len() == 0 {
        assert(a + b =~= a);
        assert(pow10(0) == 1);
        assert(digits_value(b) == 0);
        assert(digits_value(a) * 1 == digits_value(a));
    } else {
        let b1 = b.drop_last();
        lemma_digits_value_concat(a, b1);
        assert((a + b).drop_last() =~= a + b1);
        assert((a + b).last() == b.last());
        let x = digits_value(a);
        let p = pow10(b1.len());
        let y = digits_value(b1);
        let l = (b.last() as nat - 48) as nat;
        assert(digits_value(b) == y * 10 + l);
        assert(digits_value(a + b) == digits_value(a + b1) * 10 + l);
        assert(pow10(b.len()) == 10 * p);
        assert((x * p + y) * 10 == x * (10 * p) + y * 10) by (nonlinear_arith);
    }
}

/// Zeros stand for nothing.
proof fn lemma_zeros_value(k: nat)
    ensures
        digits_value(zeros(k)) == 0,
        forall|i: int| 0 <= i < k ==> is_digit(#[trigger] zeros(k)[i]),
    decreases k,
{
    if k > 0 {
        lemma_zeros_value((k - 1) as nat);
        assert(zeros(k).drop_last() =~= zeros((k - 1) as nat));
    }
}

/// Every character of `ds` is a digit.
pub open spec fn all_digits(ds: Seq<char>) -> bool {
    forall|i: int| 0 <= i < ds.len() ==> is_digit(#[trigger] ds[i])
}

/// `t` is the digits `ip`, then, where `fp` is not empty, a decimal point
/// and the digits `fp`.
pub open spec fn is_point_split(t: Seq<char>, ip: Seq<char>, fp: Seq<char>) -> bool {
    &&& t == (if fp.len() == 0 { ip } else { ip + seq!['.'] + fp })
    &&& ip.len() > 0
    &&& all_digits(ip)
    &&& all_digits(fp)
}

/// The decimal text of `m * 10^e` reads back as that number: it is digits,
/// with a decimal point before the last `-e` of them when `e` is negative
/// and none otherwise, and its digits without the point stand for `m`
/// shifted left by `e` places when `e` is not negative, and for `m` itself
/// otherwise.
pub proof fn law_decimal_text(m: nat, e: int)
    ensures
        exists|ip: Seq<char>, fp: Seq<char>|
            #[trigger] is_point_split(decimal_text(m, e), ip, fp) && fp.len() == (if e < 0 {
                -e
            } else {
                0
            }) && digits_value(ip + fp) == m * pow10(if e >= 0 { e as nat } else { 0 }),
{
    let ds = nat_text(m);
    lemma_nat_text_digits(m);
    if e >= 0 {
        let ip = ds + zeros(e as nat);
        let fp: Seq<char> = seq![];
        lemma_zeros_value(e as nat);
        lemma_digits_value_concat(ds, zeros(e as nat));
        assert(ip + fp =~= ip);
        assert(all_digits(ip)) by {
            assert forall|i: int| 0 <= i < ip.len() implies is_digit(#[trigger] ip[i]) by {
                if i >= ds.len() {
                    assert(ip[i] == zeros(e as nat)[i - ds.len()]);
                }
            }
        }
        assert(digits_value(ip + fp) == m * pow10(e as nat));
        assert(is_point_split(decimal_text(m, e), ip, fp));
    } else if ds.len() > -e {
        let k = ds.len() + e;
        let ip = ds.take(k);
        let fp = ds.skip(k);
        assert(ip + fp =~= ds);
        assert(pow10(0) == 1);
        assert(all_digits(ip)) by {
            assert forall|i: int| 0 <= i < ip.len() implies is_digit(#[trigger] ip[i]) by {
                assert(ip[i] == ds[i]);
            }
        }
        assert(all_digits(fp)) by {
            assert forall|i: int| 0 <= i < fp.len() implies is_digit(#[trigger] fp[i]) by {
                assert(fp[i] == ds[i + k]);
            }
        }
        assert(m * 1 == m);
        assert(digits_value(ip + fp) == m * pow10(0));
        assert(is_point_split(decimal_text(m, e), ip, fp));
    } else {
        let z = zeros((-e - ds.len()) as nat);
        let ip = seq!['0'];
        let fp = z + ds;
        lemma_zeros_value((-e - ds.len()) as nat);
        lemma_digits_value_concat(z, ds);
        lemma_digits_value_concat(ip, fp);
        assert(ip.drop_last() =~= Seq::<char>::empty());
        assert(digits_value(ip.drop_last()) == 0);
        assert(ip.last() == '0');
        assert(digits_value(ip) == 0);
        assert(pow10(0) == 1);
        assert(decimal_text(m, e) =~= ip + seq!['.'] + fp);
        assert(all_digits(fp)) by {
            assert forall|i: int| 0 <= i < fp.len() implies is_digit(#[trigger] fp[i]) by {
                if i >= z.len() {
                    assert(fp[i] == ds[i - z.len()]);
                } else {
                    assert(fp[i] == z[i]);
                }
            }
        }
        let pz = pow10(fp.len());
        let vz = digits_value(ip);
        assert(vz * pz == 0) by (nonlinear_arith)
            requires
                vz == 0,
        ;
        assert(digits_value(ip + fp) == digits_value(fp));
        assert(digits_value(fp) == m);
        assert(m * 1 == m);
        assert(digits_value(ip + fp) == m * pow10(0));
        assert(is_point_split(decimal_text(m, e), ip, fp));
    }
}

/// The decimal text of an integer reads back as it: the digits of its
/// absolute value, after a `-` where it is negative.
pub proof fn law_int_text(i: int)
    ensures
        i >= 0 ==> all_digits(int_text(i)) && int_text(i).len() > 0 && digits_value(int_text(i)) == i,
        i < 0 ==> int_text(i)[0] == '-' && all_digits(int_text(i).drop_first())
            && int_text(i).len() > 1 && digits_value(int_text(i).drop_first()) == -i,
{
    if i >= 0 {
        lemma_nat_text_digits(i as nat);
    } else {
        lemma_nat_text_digits((-i) as nat);
        assert(int_text(i).drop_first() =~= nat_text((-i) as nat));
    }
}

/// The text of a double: `NaN`, `inf` or `-inf`, or for a finite double a
/// `-` where it is negative, then the decimal text of its mantissa times ten
/// to its exponent.
pub proof fn law_double_text(d: Double)
    ensures
        d is NaN ==> double_text(d) == seq!['N', 'a', 'N'],
        d matches Double::Infinite { negative } ==> double_text(d) == (if negative {
            seq!['-']
        } else {
            seq![]
        }) + seq!['i', 'n', 'f'],
        d matches Double::Finite { negative, mantissa, exponent } ==> double_text(d) == (if negative {
            seq!['-']
        } else {
            seq![]
        }) + decimal_text(mantissa as nat, exponent as int),
{
    match d {
        Double::Infinite { negative } => {
            if !negative {
                assert(seq![] + seq!['i', 'n', 'f'] =~= seq!['i', 'n', 'f']);
            }
        },
        Double::Finite { negative, mantissa, exponent } => {
            if !negative {
                assert(seq![] + decimal_text(mantissa as nat, exponent as int) =~= decimal_text(
                    mantissa as nat,
                    exponent as int,
                ));
            }
        },
        _ => {},
    }
}

impl Double {
    /// The double whose `LowerExp` text (what `format!("{:e}", x)` writes
    /// for an `f64` `x`) is `s`; `None` where `s` is the text of no double.
    pub fn from_exp_str(s: &str) -> (r: Option<Double>)
        ensures
            r == parse_exp(s@),
    {
        let v = chars_of(s);
        match exp_candidate(&v) {
            None => None,
            Some(d) => {
                let mut text = String::new();
                push_exp(&mut text, &d);
                let given = s.to_owned();
                if text == given {
                    proof {
                        lemma_exp_text_injective(d, choose|x: Double| exp_text(x) == s@);
                    }
                    Some(d)
                } else {
                    None
                }
            },
        }
    }
}

} // verus!
