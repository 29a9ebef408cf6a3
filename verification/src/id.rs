//! Deterministic node identities.
//!
//! Every row of the navigation tree carries a 64-bit identity derived from
//! the identity of its parent and a local discriminant (the field ordinal of
//! a struct field, or the position of a sequence element).  The derivation is
//! a fixed mixing function with no per-run salt, so the same tree shape
//! yields the same identities on every frame, and two siblings under the
//! same parent never collide.

use vstd::arithmetic::div_mod::{lemma_mod_multiples_vanish, lemma_mul_mod_noop_left};
use vstd::arithmetic::mul::lemma_mul_is_associative;
use vstd::prelude::*;

verus! {

/// The fixed initial state of the hasher; nonzero, so that the all-zero
/// path does not collapse onto the zero identity.
pub const INIT_STATE: u64 = 0xcbf29ce484222325;

/// Odd multiplier mixed into every value written into the hasher.
pub const WRITE_MUL: u64 = 0x9e3779b97f4a7c15;
/// Odd multiplier applied to the running state on every write.
pub const STATE_MUL: u64 = 0xff51afd7ed558ccd;
/// Odd multiplier applied when the state is folded into an identity.
pub const FINISH_MUL: u64 = 0xc4ceb9fe1a85ec53;

/// One mixing step: fold the value `v` into the running state.
///
/// For a fixed state the map `v -> mix_write(state, v)` is injective:
/// multiplication by the odd constant `WRITE_MUL` is a bijection modulo
/// 2^64, and xor with a fixed word is a bijection as well.
pub open spec fn mix_write(state: u64, v: u64) -> u64 {
    state.wrapping_mul(STATE_MUL) ^ v.wrapping_mul(WRITE_MUL)
}

/// Final scramble of the state into an identity; a bijection on `u64`.
pub open spec fn mix_finish(state: u64) -> u64 {
    state.wrapping_mul(FINISH_MUL)
}

/// The identity of a child node: seed with the parent identity, mix in the
/// child's local discriminant, finalize.
pub open spec fn spec_child_id(parent: u64, disc: u64) -> u64 {
    mix_finish(mix_write(mix_write(INIT_STATE, parent), disc))
}

/// A deterministic, seedable 64-bit hasher.  It has no hidden state and no
/// per-run randomization: identities must come out identical on every frame.
pub struct IdHasher {
    pub state: u64,
}

impl IdHasher {
    /// A fresh hasher with the fixed initial state.
    pub fn new() -> (h: Self)
        ensures
            h.state == INIT_STATE,
    {
        IdHasher { state: INIT_STATE }
    }

    /// Fold one 64-bit value into the state.
    pub fn write_u64(&mut self, v: u64)
        ensures
            final(self).state == mix_write(old(self).state, v),
    {
        self.state = self.state.wrapping_mul(STATE_MUL) ^ v.wrapping_mul(WRITE_MUL);
    }

    /// Fold the state into an identity without consuming the hasher.
    pub fn finish(&self) -> (r: u64)
        ensures
            r == mix_finish(self.state),
    {
        self.state.wrapping_mul(FINISH_MUL)
    }
}

/// The identity of the child with discriminant `disc` under `parent`.
pub fn child_id(parent: u64, disc: u64) -> (r: u64)
    ensures
        r == spec_child_id(parent, disc),
{
    let mut h = IdHasher::new();
    h.write_u64(parent);
    h.write_u64(disc);
    h.finish()
}

/// Multiplication by an odd constant is injective modulo 2^64.  The caller
/// supplies the inverse `kinv` and the cofactor `t` witnessing
/// `k * kinv == 1 + t * 2^64`.
proof fn lemma_mul_odd_cancel(a: u64, b: u64, k: u64, kinv: int, t: int)
    requires
        k as int * kinv == 1 + t * 0x10000000000000000,
        a.wrapping_mul(k) == b.wrapping_mul(k),
    ensures
        a == b,
{
    let m: int = 0x10000000000000000;
    let ak = a as int * k as int;
    let bk = b as int * k as int;
    assert(ak % m == bk % m) by {
        assert(a.wrapping_mul(k) == ((a as nat * k as nat) % m as nat) as u64);
        assert(b.wrapping_mul(k) == ((b as nat * k as nat) % m as nat) as u64);
    }
    lemma_mul_mod_noop_left(ak, kinv, m);
    lemma_mul_mod_noop_left(bk, kinv, m);
    assert(ak * kinv % m == bk * kinv % m);
    assert(ak * kinv == a as int * (k as int * kinv)) by {
        lemma_mul_is_associative(a as int, k as int, kinv);
    }
    assert(bk * kinv == b as int * (k as int * kinv)) by {
        lemma_mul_is_associative(b as int, k as int, kinv);
    }
    assert(a as int * (1 + t * m) == a as int + (a as int * t) * m) by (nonlinear_arith);
    assert(b as int * (1 + t * m) == b as int + (b as int * t) * m) by (nonlinear_arith);
    assert((a as int + (a as int * t) * m) % m == a as int % m) by {
        lemma_mod_multiples_vanish(a as int * t, a as int, m);
        assert(m * (a as int * t) == (a as int * t) * m) by (nonlinear_arith);
    }
    assert((b as int + (b as int * t) * m) % m == b as int % m) by {
        lemma_mod_multiples_vanish(b as int * t, b as int, m);
        assert(m * (b as int * t) == (b as int * t) * m) by (nonlinear_arith);
    }
    assert(a as int % m == a as int);
    assert(b as int % m == b as int);
}

/// Cancellation through the final scramble.
proof fn lemma_finish_cancel(a: u64, b: u64)
    requires
        mix_finish(a) == mix_finish(b),
    ensures
        a == b,
{
    lemma_mul_odd_cancel(a, b, FINISH_MUL, 0x9cb4b2f8129337db, 0x7878e44812b2d581);
}

/// Cancellation of the written value through one mixing step.
proof fn lemma_write_cancel(state: u64, v1: u64, v2: u64)
    requires
        mix_write(state, v1) == mix_write(state, v2),
    ensures
        v1 == v2,
{
    let s = state.wrapping_mul(STATE_MUL);
    let x1 = v1.wrapping_mul(WRITE_MUL);
    let x2 = v2.wrapping_mul(WRITE_MUL);
    assert(s ^ x1 == s ^ x2 ==> x1 == x2) by (bit_vector);
    lemma_mul_odd_cancel(v1, v2, WRITE_MUL, 0xf1de83e19937733d, 0x957bbf35006ed677);
}

/// Locality of identity: two distinct discriminants under the same parent
/// always produce distinct child identities.  Sibling rows of the tree are
/// given distinct discriminants, so their identities never collide.
pub proof fn lemma_child_id_injective(parent: u64, d1: u64, d2: u64)
    requires
        d1 != d2,
    ensures
        spec_child_id(parent, d1) != spec_child_id(parent, d2),
{
    if spec_child_id(parent, d1) == spec_child_id(parent, d2) {
        let seed = mix_write(INIT_STATE, parent);
        lemma_finish_cancel(mix_write(seed, d1), mix_write(seed, d2));
        lemma_write_cancel(seed, d1, d2);
    }
}

} // verus!
