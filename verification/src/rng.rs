//! The subtractive random number generator of .NET's seeded `System.Random`, which
//! GameMaker uses to derive the random UID of a data file's general info.

use vstd::prelude::*;

verus! {

/// The generator's modulus.
pub const MBIG: i32 = 2147483647;

/// The constant that the seed is subtracted from.
pub const MSEED: i32 = 161803398;

/// `a - b` in 32-bit two's complement, wrapping on overflow.
pub open spec fn wsub(a: i32, b: i32) -> i32 {
    let d = a - b;
    if d < i32::MIN {
        (d + 0x1_0000_0000) as i32
    } else if d > i32::MAX {
        (d - 0x1_0000_0000) as i32
    } else {
        d as i32
    }
}

/// `x` moved into `0..MBIG` by adding `MBIG` once when it is negative.
pub open spec fn lift(x: i32) -> i32 {
    if x < 0 { (x + MBIG) as i32 } else { x }
}

/// The value the seed is subtracted from `MSEED` as: its absolute value, `MBIG` for the
/// least `i32`.
pub open spec fn seed_subtraction(seed: i32) -> i32 {
    if seed == i32::MIN { MBIG } else if seed < 0 { (-seed) as i32 } else { seed }
}

/// The table, `mj`, `mk` and index after `i` rounds of the first seeding loop.
pub open spec fn seed_fill(seed: i32, i: nat) -> (Seq<i32>, i32, i32, int)
    decreases i,
{
    if i == 0 {
        let mj = (MSEED - seed_subtraction(seed)) as i32;
        (Seq::new(56, |k: int| if k == 55 { mj } else { 0i32 }), mj, 1i32, 0int)
    } else {
        let (s, mj, mk, ii) = seed_fill(seed, (i - 1) as nat);
        let next_ii = if ii + 21 >= 55 { ii + 21 - 55 } else { ii + 21 };
        (s.update(next_ii, mk), mk, lift(wsub(mj, mk)), next_ii)
    }
}

/// The index that entry `i` is mixed with in the second seeding loop.
pub open spec fn mix_partner(i: int) -> int {
    1 + if i + 30 >= 55 { i + 30 - 55 } else { i + 30 }
}

/// The table after `t` single steps of the second seeding loop, which runs four passes over
/// entries 1 to 55.
pub open spec fn seed_mix(s: Seq<i32>, t: nat) -> Seq<i32>
    decreases t,
{
    if t == 0 {
        s
    } else {
        let prev = seed_mix(s, (t - 1) as nat);
        let i = (t - 1) % 55 + 1;
        prev.update(i, lift(wsub(prev[i], prev[mix_partner(i)])))
    }
}

/// The generator's state: its table and its two indices.
pub struct RngState {
    pub seeds: Seq<i32>,
    pub inext: int,
    pub inextp: int,
}

/// The state of a generator made with `seed`.
pub open spec fn rng_seeded(seed: i32) -> RngState {
    RngState { seeds: seed_mix(seed_fill(seed, 54).0, 220), inext: 0, inextp: 21 }
}

/// An index moved one on, from 55 back to 1.
pub open spec fn next_index(i: int) -> int {
    if i + 1 >= 56 { 1 } else { i + 1 }
}

/// The number that the next draw from state `st` gives.
pub open spec fn rng_sample(st: RngState) -> i32 {
    let a = next_index(st.inext);
    let b = next_index(st.inextp);
    let d = wsub(st.seeds[a], st.seeds[b]);
    lift(if d == MBIG { (d - 1) as i32 } else { d })
}

/// The state after one draw from `st`.
pub open spec fn rng_step(st: RngState) -> RngState {
    let a = next_index(st.inext);
    RngState { seeds: st.seeds.update(a, rng_sample(st)), inext: a, inextp: next_index(st.inextp) }
}

/// The state of a generator made with `seed` after `n` draws.
pub open spec fn rng_after(seed: i32, n: nat) -> RngState
    decreases n,
{
    if n == 0 { rng_seeded(seed) } else { rng_step(rng_after(seed, (n - 1) as nat)) }
}

/// The number that draw `n` (from 0) of a generator made with `seed` gives.
pub open spec fn rng_output(seed: i32, n: nat) -> i32 {
    rng_sample(rng_after(seed, n))
}

/// `a - b`, wrapping.
fn sub_wrapping(a: i32, b: i32) -> (r: i32)
    ensures
        r == wsub(a, b),
{
    let d: i64 = a as i64 - b as i64;
    if d < i32::MIN as i64 {
        (d + 0x1_0000_0000i64) as i32
    } else if d > i32::MAX as i64 {
        (d - 0x1_0000_0000i64) as i32
    } else {
        d as i32
    }
}

/// `x` moved into `0..MBIG`.
fn lift_exec(x: i32) -> (r: i32)
    ensures
        r == lift(x),
{
    if x < 0 { x + MBIG } else { x }
}

/// A seeded generator.
pub struct CSharpRng {
    seed_array: Vec<i32>,
    inext: usize,
    inextp: usize,
    /// The number of draws so far.
    draws: Ghost<nat>,
    seed: Ghost<i32>,
}

impl CSharpRng {
    /// The generator is in the state that `draws` draws leave a generator made with `seed` in.
    pub closed spec fn wf(&self) -> bool {
        &&& self.seed_array@.len() == 56
        &&& 0 <= self.inext <= 55
        &&& 0 <= self.inextp <= 55
        &&& rng_after(self.seed@, self.draws@) == (RngState {
            seeds: self.seed_array@,
            inext: self.inext as int,
            inextp: self.inextp as int,
        })
    }

    /// The seed the generator was made with.
    pub closed spec fn seed(&self) -> i32 {
        self.seed@
    }

    /// The number of draws so far.
    pub closed spec fn draws(&self) -> nat {
        self.draws@
    }

    /// A generator seeded with `seed`.
    pub fn new(seed: i32) -> (r: CSharpRng)
        ensures
            r.wf(),
            r.seed() == seed,
            r.draws() == 0,
    {
        let subtraction: i32 = if seed == i32::MIN {
            MBIG
        } else if seed < 0 {
            -seed
        } else {
            seed
        };
        let mut mj: i32 = MSEED - subtraction;
        let mut seeds: Vec<i32> = Vec::new();
        let mut k: usize = 0;
        while k < 56
            invariant
                k <= 56,
                seeds@.len() == k,
                mj == (MSEED - seed_subtraction(seed)) as i32,
                forall|j: int| 0 <= j < k ==> #[trigger] seeds@[j] == (if j == 55 { mj } else { 0i32 }),
            decreases 56 - k,
        {
            if k == 55 {
                seeds.push(mj);
            } else {
                seeds.push(0);
            }
            k = k + 1;
        }
        let mut mk: i32 = 1;
        let mut ii: usize = 0;
        proof {
            assert(seeds@ =~= seed_fill(seed, 0).0);
        }
        let mut i: usize = 1;
        while i < 55
            invariant
                1 <= i <= 55,
                seeds@.len() == 56,
                ii < 55,
                seed_fill(seed, (i - 1) as nat) == (seeds@, mj, mk, ii as int),
            decreases 55 - i,
        {
            ii = if ii + 21 >= 55 { ii + 21 - 55 } else { ii + 21 };
            seeds.set(ii, mk);
            let d = sub_wrapping(mj, mk);
            mj = mk;
            mk = lift_exec(d);
            i = i + 1;
        }
        let ghost filled = seeds@;
        let mut t: usize = 0;
        while t < 220
            invariant
                t <= 220,
                seeds@.len() == 56,
                filled == seed_fill(seed, 54).0,
                seeds@ == seed_mix(filled, t as nat),
            decreases 220 - t,
        {
            let i: usize = t % 55 + 1;
            let v = lift_exec(sub_wrapping(seeds[i], seeds[1 + if i + 30 >= 55 { i + 30 - 55 } else { i + 30 }]));
            seeds.set(i, v);
            t = t + 1;
        }
        CSharpRng { seed_array: seeds, inext: 0, inextp: 21, draws: Ghost(0), seed: Ghost(seed) }
    }

    /// Draws the next number, in `0..MBIG`.
    pub fn next(&mut self) -> (r: i32)
        requires
            old(self).wf(),
        ensures
            final(self).wf(),
            final(self).seed() == old(self).seed(),
            final(self).draws() == old(self).draws() + 1,
            r == rng_output(old(self).seed(), old(self).draws()),
    {
        let a: usize = if self.inext + 1 >= 56 { 1 } else { self.inext + 1 };
        let b: usize = if self.inextp + 1 >= 56 { 1 } else { self.inextp + 1 };
        let d = sub_wrapping(self.seed_array[a], self.seed_array[b]);
        let d2: i32 = if d == MBIG { d - 1 } else { d };
        let v = lift_exec(d2);
        self.seed_array.set(a, v);
        self.inext = a;
        self.inextp = b;
        self.draws = Ghost((self.draws@ + 1) as nat);
        v
    }
}

} // verus!
