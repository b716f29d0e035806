use vstd::prelude::*;

verus! {

/// The unsigned value of the `n` bytes of `s` that start at `at`, most
/// significant byte first.
pub open spec fn be_uint(s: Seq<u8>, at: int, n: nat) -> nat
    decreases n,
{
    if n == 0 {
        0
    } else {
        be_uint(s, at, (n - 1) as nat) * 256 + s[at + n - 1] as nat
    }
}

/// 256 to the power `n`.
pub open spec fn pow256(n: nat) -> nat
    decreases n,
{
    if n == 0 {
        1
    } else {
        256 * pow256((n - 1) as nat)
    }
}

/// An `n`-byte value is below `256^n`.
pub proof fn lemma_be_uint_bound(s: Seq<u8>, at: int, n: nat)
    ensures
        be_uint(s, at, n) < pow256(n),
        pow256(1) == 256,
        pow256(2) == 65536,
        pow256(4) == 4294967296,
        pow256(8) == 18446744073709551616,
    decreases n,
{
    reveal_with_fuel(pow256, 9);
    if n > 0 {
        lemma_be_uint_bound(s, at, (n - 1) as nat);
    }
}

/// The value of `m + n` bytes is the value of the first `m`, shifted left by
/// `n` bytes, plus the value of the last `n`.
pub proof fn lemma_be_uint_split(s: Seq<u8>, at: int, m: nat, n: nat)
    ensures
        be_uint(s, at, m + n) == be_uint(s, at, m) * pow256(n) + be_uint(s, at + m, n),
    decreases n,
{
    if n > 0 {
        let k = (n - 1) as nat;
        lemma_be_uint_split(s, at, m, k);
        let a = be_uint(s, at, m);
        let b = be_uint(s, at + m, k);
        let p = pow256(k);
        assert(be_uint(s, at, m + n) == be_uint(s, at, m + k) * 256 + s[at + m + n - 1] as nat);
        assert(be_uint(s, at + m, n) == b * 256 + s[at + m + n - 1] as nat);
        assert(pow256(n) == 256 * p);
        assert((a * p + b) * 256 == a * (256 * p) + b * 256) by (nonlinear_arith);
    } else {
        assert(pow256(n) == 1);
        assert(be_uint(s, at + m, n) == 0);
        assert(be_uint(s, at, m) * 1 == be_uint(s, at, m)) by (nonlinear_arith);
    }
}

/// The powers of 256 up to the eighth.
pub proof fn lemma_pow256_values()
    ensures
        pow256(0) == 1,
        pow256(1) == 0x100,
        pow256(2) == 0x1_0000,
        pow256(3) == 0x100_0000,
        pow256(4) == 0x1_0000_0000,
        pow256(5) == 0x100_0000_0000,
        pow256(6) == 0x1_0000_0000_0000,
        pow256(7) == 0x100_0000_0000_0000,
        pow256(8) == 0x1_0000_0000_0000_0000,
{
    reveal_with_fuel(pow256, 9);
}

/// Powers of 256 grow with the exponent.
pub proof fn lemma_pow256_monotone(m: nat, n: nat)
    requires
        m <= n,
    ensures
        pow256(m) <= pow256(n),
        pow256(m) >= 1,
    decreases n,
{
    if m < n {
        lemma_pow256_monotone(m, (n - 1) as nat);
    } else if m > 0 {
        lemma_pow256_monotone((m - 1) as nat, (m - 1) as nat);
    }
}

/// The first of `len` bytes weighs `256^(len - 1)`: the value lies between
/// that byte's share and the share of the next larger byte.
pub proof fn lemma_first_byte_weight(s: Seq<u8>, at: int, len: nat)
    requires
        len >= 1,
        0 <= at,
        at + len <= s.len(),
    ensures
        s[at] * pow256((len - 1) as nat) <= be_uint(s, at, len) < (s[at] + 1) * pow256(
            (len - 1) as nat,
        ),
    decreases len,
{
    if len == 1 {
        reveal_with_fuel(be_uint, 2);
        reveal_with_fuel(pow256, 2);
        assert(be_uint(s, at, 1) == s[at] as nat);
        assert(pow256(0) == 1);
        assert(s[at] * 1 == s[at] as int && (s[at] + 1) * 1 == s[at] + 1) by (nonlinear_arith);
    } else {
        lemma_first_byte_weight(s, at, (len - 1) as nat);
        let p = pow256((len - 2) as nat);
        let v = be_uint(s, at, (len - 1) as nat);
        let b = s[at] as int;
        let last = s[at + len - 1] as int;
        assert(be_uint(s, at, len) == v * 256 + last);
        assert(pow256((len - 1) as nat) == 256 * p);
        assert(b * (256 * p) <= v * 256) by (nonlinear_arith)
            requires
                b * p <= v,
        ;
        assert((v + 1) * 256 <= (b + 1) * (256 * p)) by (nonlinear_arith)
            requires
                v + 1 <= (b + 1) * p,
        ;
    }
}

} // verus!
