use vstd::prelude::*;
use vstd::string::*;

verus! {

/// The ASCII digit that stands for `d` (for `d < 10`).
pub open spec fn digit_char(d: nat) -> char {
    if d == 0 { '0' }
    else if d == 1 { '1' }
    else if d == 2 { '2' }
    else if d == 3 { '3' }
    else if d == 4 { '4' }
    else if d == 5 { '5' }
    else if d == 6 { '6' }
    else if d == 7 { '7' }
    else if d == 8 { '8' }
    else { '9' }
}

/// The decimal digits of a natural number, most significant first, with no
/// leading zero (zero itself is the single digit `0`).
pub open spec fn nat_text(n: nat) -> Seq<char>
    decreases n,
{
    if n < 10 {
        seq![digit_char(n)]
    } else {
        nat_text(n / 10).push(digit_char(n % 10))
    }
}

/// The decimal text of an integer: a `-` before the digits of a negative one.
pub open spec fn int_text(i: int) -> Seq<char> {
    if i < 0 {
        seq!['-'] + nat_text((-i) as nat)
    } else {
        nat_text(i as nat)
    }
}

/// Appends one character to a `String`.
#[verifier::external_body]
pub fn push_char(s: &mut String, c: char)
    ensures
        final(s)@ == old(s)@.push(c),
{
    s.push(c);
}

pub fn digit(d: u64) -> (c: char)
    requires
        d < 10,
    ensures
        c == digit_char(d as nat),
{
    if d == 0 { '0' }
    else if d == 1 { '1' }
    else if d == 2 { '2' }
    else if d == 3 { '3' }
    else if d == 4 { '4' }
    else if d == 5 { '5' }
    else if d == 6 { '6' }
    else if d == 7 { '7' }
    else if d == 8 { '8' }
    else { '9' }
}

/// Appends the decimal digits of `n`.
pub fn push_u64(out: &mut String, n: u64)
    ensures
        final(out)@ == old(out)@ + nat_text(n as nat),
    decreases n,
{
    if n < 10 {
        push_char(out, digit(n));
    } else {
        push_u64(out, n / 10);
        push_char(out, digit(n % 10));
    }
}

/// Appends the decimal text of `n`, as `i64::to_string` writes it.
pub fn push_i64(out: &mut String, n: i64)
    ensures
        final(out)@ == old(out)@ + int_text(n as int),
{
    if n < 0 {
        push_char(out, '-');
        let m: u64 = (0i128 - n as i128) as u64;
        push_u64(out, m);
    } else {
        push_u64(out, n as u64);
    }
}

} // verus!

verus! {

/// Appends a string slice.
pub fn push_str(out: &mut String, s: &str)
    ensures
        final(out)@ == old(out)@ + s@,
{
    out.append(s);
}

/// The pieces with `sep` between each two neighbours.
pub open spec fn join(parts: Seq<Seq<char>>, sep: char) -> Seq<char>
    decreases parts.len(),
{
    if parts.len() == 0 {
        seq![]
    } else if parts.len() == 1 {
        parts[0]
    } else {
        join(parts.drop_last(), sep).push(sep) + parts.last()
    }
}

/// The pieces folded from the left into an accumulator that starts empty:
/// while the accumulator is still empty the next piece replaces it, otherwise
/// `sep` and the piece are appended to it.
pub open spec fn fold_join(parts: Seq<Seq<char>>, sep: char) -> Seq<char>
    decreases parts.len(),
{
    if parts.len() == 0 {
        seq![]
    } else {
        let acc = fold_join(parts.drop_last(), sep);
        if acc.len() == 0 {
            parts.last()
        } else {
            acc.push(sep) + parts.last()
        }
    }
}

/// One step of `fold_join`: `acc` becomes the fold of one more piece.
pub fn fold_push(acc: &mut String, cur: &str, sep: char)
    ensures
        final(acc)@ == (if old(acc)@.len() == 0 {
            cur@
        } else {
            old(acc)@.push(sep) + cur@
        }),
{
    if acc.as_str().is_empty() {
        push_str(acc, cur);
    } else {
        push_char(acc, sep);
        push_str(acc, cur);
    }
}

/// Where no piece is empty, folding the pieces gives the pieces joined by
/// the separator, and the result is empty only when there are no pieces.
pub proof fn lemma_fold_join_is_join(parts: Seq<Seq<char>>, sep: char)
    requires
        forall|i: int| 0 <= i < parts.len() ==> #[trigger] parts[i].len() > 0,
    ensures
        fold_join(parts, sep) == join(parts, sep),
        parts.len() > 0 ==> join(parts, sep).len() > 0,
    decreases parts.len(),
{
    if parts.len() > 0 {
        let init = parts.drop_last();
        assert forall|i: int| 0 <= i < init.len() implies #[trigger] init[i].len() > 0 by {
            assert(init[i] == parts[i]);
        }
        lemma_fold_join_is_join(init, sep);
        assert(parts[parts.len() - 1].len() > 0);
    }
}

} // verus!
