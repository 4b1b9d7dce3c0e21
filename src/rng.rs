use vstd::prelude::*;
use core::marker::PhantomData;

use crate::Platform;

verus! {

/// The seed the game gives its generator before a stage starts.
pub const SEED: u32 = 0xDEAD0CAB;

/// The multiplier and addend of a linear congruential generator.
pub trait RngConsts {
    const MULT_COEFFICIENT: u32;
    const ADD_COEFFICIENT: u32;

    /// The multiplier, as contracts speak of it.
    spec fn multiplier() -> u32;

    /// The addend, as contracts speak of it.
    spec fn addend() -> u32;

    /// The executable constants are the ones contracts speak of.
    proof fn lemma_coefficients()
        ensures
            Self::MULT_COEFFICIENT == Self::multiplier(),
            Self::ADD_COEFFICIENT == Self::addend(),
    ;
}

/// Desktop constants.
pub struct PcRng;

impl RngConsts for PcRng {
    const MULT_COEFFICIENT: u32 = 0x000343FD;
    const ADD_COEFFICIENT: u32 = 0x00269EC3;

    open spec fn multiplier() -> u32 {
        0x000343FD
    }

    open spec fn addend() -> u32 {
        0x00269EC3
    }

    proof fn lemma_coefficients() {
    }
}

/// Console constants.
pub struct GcRng;

impl RngConsts for GcRng {
    const MULT_COEFFICIENT: u32 = 0x41C64E6D;
    const ADD_COEFFICIENT: u32 = 0x00003039;

    open spec fn multiplier() -> u32 {
        0x41C64E6D
    }

    open spec fn addend() -> u32 {
        0x00003039
    }

    proof fn lemma_coefficients() {
    }
}

/// One step of the generator: `state * MULT + ADD (mod 2^32)`.
pub open spec fn lcg_next<R: RngConsts>(state: u32) -> u32 {
    ((state * R::multiplier() + R::addend()) % 0x1_0000_0000) as u32
}

/// The state after `k` steps from `state`.
pub open spec fn lcg_iter<R: RngConsts>(state: u32, k: nat) -> u32
    decreases k,
{
    if k == 0 {
        state
    } else {
        lcg_next::<R>(lcg_iter::<R>(state, (k - 1) as nat))
    }
}

/// The 15-bit value drawn from a state: bits 16 to 30.
pub open spec fn draw_of(state: u32) -> u32 {
    ((state / 0x10000) % 0x8000) as u32
}

/// Stepping `j` times and then `k` times is stepping `j + k` times.
pub proof fn lemma_lcg_iter_add<R: RngConsts>(state: u32, j: nat, k: nat)
    ensures
        lcg_iter::<R>(lcg_iter::<R>(state, j), k) == lcg_iter::<R>(state, j + k),
    decreases k,
{
    if k > 0 {
        lemma_lcg_iter_add::<R>(state, j, (k - 1) as nat);
    }
}

/// Two generators started from the same state and stepped the same number of
/// times are in the same state: the generator is a function of its seed and
/// of the number of draws.
pub proof fn lemma_rng_deterministic<R: RngConsts>(a: Rng, b: Rng, k: nat)
    requires
        a@ == b@,
    ensures
        lcg_iter::<R>(a@, k) == lcg_iter::<R>(b@, k),
{
}

/// A 32-bit linear congruential generator.
#[derive(Clone, Copy, Debug)]
pub struct Rng {
    state: u32,
}

impl View for Rng {
    type V = u32;

    closed spec fn view(&self) -> u32 {
        self.state
    }
}

impl Rng {
    pub fn new(seed: u32) -> (r: Rng)
        ensures
            r@ == seed,
    {
        Rng { state: seed }
    }

    /// Steps the generator and returns the 15-bit draw of the new state.
    pub fn gen_val<R: RngConsts>(&mut self) -> (v: u32)
        ensures
            final(self)@ == lcg_next::<R>(old(self)@),
            v == draw_of(final(self)@),
            v < 0x8000,
    {
        let m: u32 = R::MULT_COEFFICIENT;
        let a: u32 = R::ADD_COEFFICIENT;
        proof {
            R::lemma_coefficients();
            let s = self.state;
            assert(s.wrapping_mul(m).wrapping_add(a) == ((s * m + a) % 0x1_0000_0000) as u32) by {
                assert(s.wrapping_mul(m) == ((s * m) % 0x1_0000_0000) as u32);
                assert(((s * m) % 0x1_0000_0000 + a) % 0x1_0000_0000 == (s * m + a) % 0x1_0000_0000)
                    by (nonlinear_arith);
            }
        }
        self.state = self.state.wrapping_mul(m).wrapping_add(a);
        let s = self.state;
        let v = (s >> 16) & 0x7FFF;
        assert(v == ((s / 0x10000) % 0x8000) as u32 && v < 0x8000) by (bit_vector)
            requires
                v == (s >> 16) & 0x7FFF,
        ;
        v
    }

    pub fn get_state(&self) -> (s: u32)
        ensures
            s == self@,
    {
        self.state
    }

    /// A generator seeded with `SEED` and stepped `calls` times.
    pub fn from_seed_after<R: RngConsts>(calls: u32) -> (r: Rng)
        ensures
            r@ == lcg_iter::<R>(SEED, calls as nat),
    {
        let mut r = Rng::new(SEED);
        let mut i: u32 = 0;
        while i < calls
            invariant
                i <= calls,
                r@ == lcg_iter::<R>(SEED, i as nat),
            decreases calls - i,
        {
            r.gen_val::<R>();
            i = i + 1;
        }
        r
    }
}

/// The number of steps from `SEED` to `state` for platform `P`, if some
/// count that fits in 32 bits reaches it: the least such count.
pub fn reverse_rng<P: Platform>(state: u32) -> (r: Option<u32>)
    ensures
        match r {
            Some(k) => lcg_iter::<P::Consts>(SEED, k as nat) == state && forall|j: nat|
                j < k ==> #[trigger] lcg_iter::<P::Consts>(SEED, j) != state,
            None => forall|j: nat| j <= u32::MAX ==> #[trigger] lcg_iter::<P::Consts>(SEED, j) != state,
        },
{
    let mut r = Rng::new(SEED);
    let mut count: u32 = 0;
    loop
        invariant
            r@ == lcg_iter::<P::Consts>(SEED, count as nat),
            forall|j: nat| j < count ==> #[trigger] lcg_iter::<P::Consts>(SEED, j) != state,
        decreases u32::MAX - count,
    {
        if r.get_state() == state {
            return Some(count);
        }
        if count == u32::MAX {
            return None;
        }
        r.gen_val::<P::Consts>();
        count = count + 1;
    }
}

/// Generators for consecutive starting offsets: the first is `SEED` stepped
/// a given number of times, and each `next` hands out the current one and
/// steps once.
pub struct RngIterator<P> {
    r: Rng,
    p: PhantomData<P>,
}

impl<P: Platform> RngIterator<P> {
    pub closed spec fn current(&self) -> u32 {
        self.r@
    }

    pub fn new(p: u32) -> (it: RngIterator<P>)
        ensures
            it.current() == lcg_iter::<P::Consts>(SEED, p as nat),
    {
        RngIterator { r: Rng::from_seed_after::<P::Consts>(p), p: PhantomData }
    }

    pub fn next(&mut self) -> (r: Rng)
        ensures
            r@ == old(self).current(),
            final(self).current() == lcg_next::<P::Consts>(old(self).current()),
    {
        let ret = self.r;
        self.r.gen_val::<P::Consts>();
        ret
    }
}

} // verus!
