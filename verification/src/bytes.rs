//! Numbers written as bytes, most significant first.
use vstd::arithmetic::power::*;
use vstd::prelude::*;

verus! {

/// The number that the bytes stand for, most significant byte first.
pub open spec fn be_value(s: Seq<u8>) -> nat
    decreases s.len(),
{
    if s.len() == 0 {
        0
    } else {
        256 * be_value(s.drop_last()) + s.last() as nat
    }
}

/// The last `len` bytes of `n`, most significant first.
pub open spec fn be_bytes(n: nat, len: nat) -> Seq<u8>
    decreases len,
{
    if len == 0 {
        Seq::empty()
    } else {
        be_bytes(n / 256, (len - 1) as nat).push((n % 256) as u8)
    }
}

/// How many numbers a `usize` can hold.
pub open spec fn usize_range() -> nat {
    usize::MAX as nat + 1
}

/// `len` bytes stand for less than 256 to the power of `len`.
pub proof fn lemma_be_value_bound(s: Seq<u8>)
    ensures
        be_value(s) < pow(256, s.len()),
    decreases s.len(),
{
    reveal(pow);
    if s.len() > 0 {
        lemma_be_value_bound(s.drop_last());
    }
}

/// There are as many bytes as were asked for.
pub proof fn lemma_be_bytes_len(n: nat, len: nat)
    ensures
        be_bytes(n, len).len() == len,
    decreases len,
{
    if len > 0 {
        lemma_be_bytes_len(n / 256, (len - 1) as nat);
    }
}

/// A number that fits comes back from its bytes.
pub proof fn lemma_be_bytes_value(n: nat, len: nat)
    requires
        n < pow(256, len),
    ensures
        be_bytes(n, len).len() == len,
        be_value(be_bytes(n, len)) == n,
    decreases len,
{
    reveal(pow);
    if len > 0 {
        let rest = pow(256, (len - 1) as nat);
        assert(n / 256 < rest) by (nonlinear_arith)
            requires
                n < 256 * rest,
        ;
        lemma_be_bytes_value(n / 256, (len - 1) as nat);
        assert(be_bytes(n, len).drop_last() =~= be_bytes(n / 256, (len - 1) as nat));
    }
}

/// Leading bytes count in steps of 256 to the power of the number of bytes that follow.
pub proof fn lemma_be_value_concat(high: Seq<u8>, low: Seq<u8>)
    ensures
        be_value(high + low) == be_value(high) * pow(256, low.len()) + be_value(low),
    decreases low.len(),
{
    reveal(pow);
    if low.len() == 0 {
        assert(high + low =~= high);
    } else {
        let rest = low.drop_last();
        lemma_be_value_concat(high, rest);
        assert((high + low).drop_last() =~= high + rest);
        let h = be_value(high) as int;
        let p = pow(256, rest.len());
        assert(256 * (h * p) == h * (256 * p)) by (nonlinear_arith);
    }
}

/// Reads a number of at most eight bytes.
pub fn be_u64(data: &[u8]) -> (res: u64)
    requires
        data@.len() <= 8,
    ensures
        res == be_value(data@),
{
    let mut value: u64 = 0;
    let mut i: usize = 0;
    while i < data.len()
        invariant
            i <= data@.len() <= 8,
            value == be_value(data@.take(i as int)),
        decreases data@.len() - i,
    {
        let ghost next = data@.take(i + 1);
        proof {
            assert(next.drop_last() =~= data@.take(i as int));
            lemma_be_value_bound(next);
            lemma_pow_increases(256, next.len(), 8);
            assert(pow(256, 8) == 0x1_0000_0000_0000_0000) by {
                reveal_with_fuel(pow, 9);
            }
        }
        value = value * 256 + data[i] as u64;
        i = i + 1;
    }
    assert(data@.take(data@.len() as int) =~= data@);
    value
}

/// Reads a number, of which only what a `usize` can hold is kept.
pub fn be_usize_wrapping(data: &[u8]) -> (res: usize)
    ensures
        res == be_value(data@) % usize_range(),
{
    let mut value: usize = 0;
    let mut i: usize = 0;
    proof {
        vstd::arithmetic::div_mod::lemma_small_mod(0, usize_range());
    }
    while i < data.len()
        invariant
            i <= data@.len(),
            value == be_value(data@.take(i as int)) % usize_range(),
        decreases data@.len() - i,
    {
        let ghost before = be_value(data@.take(i as int)) as int;
        let ghost m = usize_range() as int;
        let ghost b = data@[i as int] as int;
        proof {
            assert(data@.take(i + 1).drop_last() =~= data@.take(i as int));
            vstd::arithmetic::div_mod::lemma_mul_mod_noop_right(256, before, m);
            vstd::arithmetic::div_mod::lemma_add_mod_noop(256 * before, b, m);
            vstd::arithmetic::div_mod::lemma_small_mod(b as nat, m as nat);
        }
        let scaled: usize = value.wrapping_mul(256);
        let ghost sum = scaled + b;
        value = scaled.wrapping_add(data[i] as usize);
        proof {
            if sum >= m {
                vstd::arithmetic::div_mod::lemma_mod_sub_multiples_vanish(sum, m);
                vstd::arithmetic::div_mod::lemma_small_mod((sum - m) as nat, m as nat);
            } else {
                vstd::arithmetic::div_mod::lemma_small_mod(sum as nat, m as nat);
            }
        }
        i = i + 1;
    }
    assert(data@.take(data@.len() as int) =~= data@);
    value
}

} // verus!
