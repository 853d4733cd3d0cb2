//! Alignment arithmetic and small conversions.

use vstd::prelude::*;
use vstd::arithmetic::div_mod::{lemma_fundamental_div_mod, lemma_fundamental_div_mod_converse};
use vstd::arithmetic::power::pow;
use vstd::arithmetic::power2::{
    is_pow2,
    is_pow2_equiv,
    is_pow2_exists,
    lemma2_to64,
    lemma_pow2_strictly_increases,
    pow2,
};
use vstd::bits::{lemma_usize_low_bits_mask_is_mod, low_bits_mask};
use vstd::string::{StrSliceExecFns, StringSliceAdditionalSpecFns};
use crate::error::Error;
use crate::ip::IpAddr;

verus! {

/// The smallest multiple of `a` that is at least `n`.
pub open spec fn align_up(n: int, a: int) -> int
    recommends
        a > 0,
{
    if n % a == 0 {
        n
    } else {
        n + a - n % a
    }
}

proof fn lemma_clear_low_bits(x: usize, m: usize)
    by (bit_vector)
    ensures
        x & m <= x,
        x & !m == x - (x & m),
{
}

/// Rounding up by adding `a - 1` and clearing the low bits gives the
/// smallest multiple of `a` that is at least `len`, for every power of two
/// `a`.
pub proof fn lemma_align_by_mask(len: usize, a: usize)
    requires
        is_pow2(a as int),
        len + a - 1 <= usize::MAX,
    ensures
        ((len + a - 1) as usize) & !((a - 1) as usize) == align_up(len as int, a as int),
{
    assert(a > 0) by {
        reveal(is_pow2);
    }
    is_pow2_equiv(a as int);
    assert(is_pow2_exists(a as int));
    let k = choose|k: nat| pow(2, k) == a as int;
    assert(pow2(k) == a);
    assert(k < usize::BITS) by {
        lemma2_to64();
        if k > usize::BITS {
            lemma_pow2_strictly_increases(usize::BITS as nat, k);
        }
        if k >= usize::BITS {
            assert(pow2(k) > usize::MAX);
        }
    }
    lemma2_to64();
    let x = (len + a - 1) as usize;
    let m = (a - 1) as usize;
    assert(low_bits_mask(k) as usize == m);
    lemma_usize_low_bits_mask_is_mod(x, k);
    assert(x & m == x % a);
    lemma_clear_low_bits(x, m);
    let q = len as int / a as int;
    let r = len as int % a as int;
    lemma_fundamental_div_mod(len as int, a as int);
    if r == 0 {
        assert(x == q * a + (a - 1)) by (nonlinear_arith)
            requires
                len == a * q + r,
                r == 0,
                x == len + a - 1,
        ;
        lemma_fundamental_div_mod_converse(x as int, a as int, q, a - 1);
    } else {
        assert(x == (q + 1) * a + (r - 1)) by (nonlinear_arith)
            requires
                len == a * q + r,
                x == len + a - 1,
        ;
        lemma_fundamental_div_mod_converse(x as int, a as int, q + 1, r - 1);
    }
}

/// Four is a power of two.
pub proof fn lemma_four_is_pow2()
    ensures
        is_pow2(4),
{
    reveal_with_fuel(is_pow2, 3);
}

/// Rounds `len` up to the next multiple of `align_to`, a power of two.
pub fn align_of(len: usize, align_to: usize) -> (r: usize)
    requires
        is_pow2(align_to as int),
        len + align_to - 1 <= usize::MAX,
    ensures
        r == align_up(len as int, align_to as int),
        r == ((len + align_to - 1) as usize) & !((align_to - 1) as usize),
{
    proof {
        lemma_align_by_mask(len, align_to);
        reveal(is_pow2);
    }
    (len + (align_to - 1)) & !(align_to - 1)
}

/// For the alignment of the wire format, four, rounding up is `(n + 3) & !3`.
pub proof fn lemma_align_four(n: usize)
    requires
        n + 3 <= usize::MAX,
    ensures
        align_up(n as int, 4) == ((n + 3) as usize) & !3usize,
        align_up(n as int, 4) % 4 == 0,
        n <= align_up(n as int, 4) < n + 4,
{
    lemma_four_is_pow2();
    lemma_align_by_mask(n, 4);
}

/// The bytes of `s` in UTF-8, followed by one zero byte.
pub fn zero_terminated(s: &str) -> (v: Vec<u8>)
    ensures
        v@ == s.spec_bytes().push(0),
{
    let mut v = s.as_bytes_vec();
    v.push(0);
    v
}

/// The address that `s` holds: IPv4 for four octets, IPv6 for sixteen, and
/// none for any other count.
pub open spec fn addr_of_octets(s: Seq<u8>) -> Result<IpAddr, Error> {
    if s.len() == 4 {
        Ok(IpAddr::V4([s[0], s[1], s[2], s[3]]))
    } else if s.len() == 16 {
        Ok(
            IpAddr::V6(
                [
                    s[0],
                    s[1],
                    s[2],
                    s[3],
                    s[4],
                    s[5],
                    s[6],
                    s[7],
                    s[8],
                    s[9],
                    s[10],
                    s[11],
                    s[12],
                    s[13],
                    s[14],
                    s[15],
                ],
            ),
        )
    } else {
        Err(Error::InvalidAddressLength(s.len() as usize))
    }
}

/// Reads an address from its octets in network order. Four octets make an
/// IPv4 address and sixteen an IPv6 address; any other count is rejected.
pub fn vec_to_addr(vec: Vec<u8>) -> (r: Result<IpAddr, Error>)
    ensures
        r == addr_of_octets(vec@),
{
    slice_to_addr(vec.as_slice())
}

/// Reads an address from its octets as `vec_to_addr` does, without taking
/// the bytes over.
pub fn slice_to_addr(vec: &[u8]) -> (r: Result<IpAddr, Error>)
    ensures
        r == addr_of_octets(vec@),
{
    if vec.len() == 4 {
        Ok(IpAddr::V4([vec[0], vec[1], vec[2], vec[3]]))
    } else if vec.len() == 16 {
        Ok(
            IpAddr::V6(
                [
                    vec[0],
                    vec[1],
                    vec[2],
                    vec[3],
                    vec[4],
                    vec[5],
                    vec[6],
                    vec[7],
                    vec[8],
                    vec[9],
                    vec[10],
                    vec[11],
                    vec[12],
                    vec[13],
                    vec[14],
                    vec[15],
                ],
            ),
        )
    } else {
        Err(Error::InvalidAddressLength(vec.len()))
    }
}

/// An address read back from its own octets is the same address.
pub proof fn lemma_octets_round_trip(ip: IpAddr)
    ensures
        addr_of_octets(ip.octets_spec()) == Ok::<IpAddr, Error>(ip),
{
    match ip {
        IpAddr::V4(o) => {
            assert([o@[0], o@[1], o@[2], o@[3]] =~= o);
        },
        IpAddr::V6(o) => {
            assert([
                o@[0],
                o@[1],
                o@[2],
                o@[3],
                o@[4],
                o@[5],
                o@[6],
                o@[7],
                o@[8],
                o@[9],
                o@[10],
                o@[11],
                o@[12],
                o@[13],
                o@[14],
                o@[15],
            ] =~= o);
        },
    }
}

} // verus!
