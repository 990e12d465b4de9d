//! Natural numbers of any size, held as base-2^32 digits with the least
//! significant digit first. They carry the powers by which two colour buckets
//! are compared.

use vstd::arithmetic::power::{lemma_pow0, lemma_pow_positive, pow};
use vstd::prelude::*;

verus! {

/// The base of the digits.
pub open spec fn radix() -> int {
    0x1_0000_0000
}

/// The number that a sequence of digits stands for.
pub open spec fn value_of(d: Seq<u32>) -> int
    decreases d.len(),
{
    if d.len() == 0 {
        0
    } else {
        value_of(d.drop_last()) + (d.last() as int) * pow(radix(), (d.len() - 1) as nat)
    }
}

/// `radix()` to the power `e + 1` is `radix()` times `radix()` to the power `e`.
pub proof fn lemma_radix_step(e: nat)
    ensures
        pow(radix(), e + 1) == radix() * pow(radix(), e),
        pow(radix(), e) > 0,
{
    reveal(pow);
    lemma_pow_positive(radix(), e);
}

/// Appending a digit adds that digit at the next place.
pub proof fn lemma_value_push(d: Seq<u32>, x: u32)
    ensures
        value_of(d.push(x)) == value_of(d) + (x as int) * pow(radix(), d.len()),
{
    assert(d.push(x).drop_last() =~= d);
}

/// A number of `n` digits lies below `radix()` to the power `n`.
pub proof fn lemma_value_bound(d: Seq<u32>)
    ensures
        0 <= value_of(d) < pow(radix(), d.len()),
    decreases d.len(),
{
    if d.len() == 0 {
        lemma_pow0(radix());
    } else {
        let rest = d.drop_last();
        let p = pow(radix(), rest.len());
        lemma_value_bound(rest);
        lemma_radix_step(rest.len());
        let x = d.last() as int;
        assert(0 <= x * p && x * p + p <= radix() * p) by (nonlinear_arith)
            requires
                0 <= x < radix(),
                p > 0,
        ;
    }
}

/// With the digits from place `i` up alike, two numbers of equal length differ
/// as their lower `i` digits do.
pub proof fn lemma_common_top(a: Seq<u32>, b: Seq<u32>, i: int)
    requires
        a.len() == b.len(),
        0 <= i <= a.len(),
        forall|k: int| i <= k < a.len() ==> a[k] == b[k],
    ensures
        value_of(a) - value_of(b) == value_of(a.take(i)) - value_of(b.take(i)),
    decreases a.len() - i,
{
    if i == a.len() {
        assert(a.take(i) =~= a);
        assert(b.take(i) =~= b);
    } else {
        let a1 = a.drop_last();
        let b1 = b.drop_last();
        lemma_common_top(a1, b1, i);
        assert(a1.take(i) =~= a.take(i));
        assert(b1.take(i) =~= b.take(i));
    }
}

/// The product of a number and a factor below 2^64.
pub fn times(a: &Vec<u32>, n: u64) -> (r: Vec<u32>)
    ensures
        value_of(r@) == value_of(a@) * (n as int),
{
    let mut r: Vec<u32> = Vec::new();
    let mut carry: u64 = 0;
    let mut i: usize = 0;
    while i < a.len()
        invariant
            i <= a.len(),
            r.len() == i,
            value_of(r@) + (carry as int) * pow(radix(), i as nat) == value_of(a@.take(i as int))
                * (n as int),
        decreases a.len() - i,
    {
        let digit_in: u32 = a[i];
        assert((digit_in as int) * (n as int) <= 0xffff_ffff * 0xffff_ffff_ffff_ffff)
            by (nonlinear_arith)
            requires
                0 <= digit_in as int <= 0xffff_ffff,
                0 <= n as int <= 0xffff_ffff_ffff_ffff,
        ;
        let prod: u128 = (digit_in as u128) * (n as u128) + (carry as u128);
        let digit: u32 = (prod % 0x1_0000_0000) as u32;
        let next: u64 = (prod / 0x1_0000_0000) as u64;
        proof {
            let p = pow(radix(), i as nat);
            let x = a@[i as int] as int;
            lemma_radix_step(i as nat);
            lemma_value_push(r@, digit);
            assert(a@.take(i as int + 1) =~= a@.take(i as int).push(a@[i as int]));
            lemma_value_push(a@.take(i as int), a@[i as int]);
            assert(prod as int == x * (n as int) + carry as int);
            assert(prod as int == (digit as int) + radix() * (next as int));
            assert((digit as int) * p + (next as int) * (radix() * p) == (x * (n as int)
                + carry as int) * p) by (nonlinear_arith)
                requires
                    x * (n as int) + carry as int == (digit as int) + radix() * (next as int),
            ;
            assert((x * (n as int) + carry as int) * p == (x * p) * (n as int) + (carry as int)
                * p) by (nonlinear_arith);
            assert((value_of(a@.take(i as int)) + x * p) * (n as int) == value_of(
                a@.take(i as int),
            ) * (n as int) + (x * p) * (n as int)) by (nonlinear_arith);
        }
        r.push(digit);
        carry = next;
        i += 1;
    }
    let low: u32 = (carry % 0x1_0000_0000) as u32;
    let high: u32 = (carry / 0x1_0000_0000) as u32;
    proof {
        let p = pow(radix(), a.len() as nat);
        assert(a@.take(a.len() as int) =~= a@);
        lemma_radix_step(a.len() as nat);
        lemma_value_push(r@, low);
        lemma_value_push(r@.push(low), high);
        assert((low as int) * p + (high as int) * (radix() * p) == (carry as int) * p)
            by (nonlinear_arith)
            requires
                carry as int == (low as int) + radix() * (high as int),
        ;
    }
    r.push(low);
    r.push(high);
    r
}

/// `n` to the power `e`.
pub fn power(n: u64, e: u32) -> (r: Vec<u32>)
    ensures
        value_of(r@) == pow(n as int, e as nat),
{
    let mut r: Vec<u32> = Vec::new();
    r.push(1);
    proof {
        lemma_value_push(Seq::<u32>::empty(), 1u32);
        assert(Seq::<u32>::empty().push(1u32) =~= r@);
        lemma_pow0(radix());
        lemma_pow0(n as int);
    }
    let mut k: u32 = 0;
    while k < e
        invariant
            k <= e,
            value_of(r@) == pow(n as int, k as nat),
        decreases e - k,
    {
        r = times(&r, n);
        proof {
            reveal(pow);
            assert(pow(n as int, (k + 1) as nat) == (n as int) * pow(n as int, k as nat));
            assert(pow(n as int, k as nat) * (n as int) == (n as int) * pow(n as int, k as nat))
                by (nonlinear_arith);
        }
        k += 1;
    }
    r
}

/// The same number written with at least `len` digits.
pub fn padded(a: &Vec<u32>, len: usize) -> (r: Vec<u32>)
    ensures
        value_of(r@) == value_of(a@),
        r.len() == if a.len() >= len { a.len() } else { len },
{
    let mut r: Vec<u32> = a.clone();
    while r.len() < len
        invariant
            value_of(r@) == value_of(a@),
            r.len() >= a.len(),
            r.len() <= len || r.len() == a.len(),
        decreases len - r.len(),
    {
        proof {
            lemma_value_push(r@, 0u32);
        }
        r.push(0);
    }
    r
}

/// Whether the first number is the greater one.
pub fn exceeds(a: &Vec<u32>, b: &Vec<u32>) -> (greater: bool)
    ensures
        greater == (value_of(a@) > value_of(b@)),
{
    let x = padded(a, b.len());
    let y = padded(b, a.len());
    let mut i: usize = x.len();
    while i > 0
        invariant
            i <= x.len(),
            x.len() == y.len(),
            value_of(x@) == value_of(a@),
            value_of(y@) == value_of(b@),
            forall|k: int| i <= k < x.len() ==> x@[k] == y@[k],
        decreases i,
    {
        i -= 1;
        if x[i] != y[i] {
            proof {
                let xl = x@.take(i as int);
                let yl = y@.take(i as int);
                let p = pow(radix(), i as nat);
                lemma_common_top(x@, y@, i as int + 1);
                assert(x@.take(i as int + 1) =~= xl.push(x@[i as int]));
                assert(y@.take(i as int + 1) =~= yl.push(y@[i as int]));
                lemma_value_push(xl, x@[i as int]);
                lemma_value_push(yl, y@[i as int]);
                lemma_value_bound(xl);
                lemma_value_bound(yl);
                let dx = x@[i as int] as int;
                let dy = y@[i as int] as int;
                assert(dx > dy ==> dx * p >= dy * p + p) by (nonlinear_arith)
                    requires
                        p > 0,
                ;
                assert(dx < dy ==> dy * p >= dx * p + p) by (nonlinear_arith)
                    requires
                        p > 0,
                ;
            }
            return x[i] > y[i];
        }
    }
    proof {
        lemma_common_top(x@, y@, 0);
        assert(x@.take(0) =~= y@.take(0));
    }
    false
}

} // verus!
