use vstd::prelude::*;

verus! {

/// Multiplier of the linear congruential generator.
pub const LCG_MULTIPLIER: u64 = 6364136223846793005;

/// Seed the simulation starts from.
pub const DEFAULT_SEED: u64 = 12345;

/// Largest value of a draw; a draw `v` stands for the fraction `v / DRAW_MAX` in `[0, 1]`.
pub const DRAW_MAX: u32 = 4294967295;

/// One step of the generator: `s * LCG_MULTIPLIER + 1` modulo 2^64.
pub open spec fn lcg_next(s: u64) -> u64 {
    s.wrapping_mul(LCG_MULTIPLIER).wrapping_add(1)
}

/// The value a draw yields from the state it produced: the upper 32 bits.
pub open spec fn lcg_output(s: u64) -> u32 {
    (s >> 32u64) as u32
}

/// The state after `k` steps from `s`.
pub open spec fn lcg_iter(s: u64, k: nat) -> u64
    decreases k,
{
    if k == 0 {
        s
    } else {
        lcg_next(lcg_iter(s, (k - 1) as nat))
    }
}

/// The `k`-th draw (counting from 0) made from state `s`.
pub open spec fn nth_draw(s: u64, k: nat) -> u32 {
    lcg_output(lcg_iter(s, k + 1))
}

/// Taking one more step after `k` steps is taking `k + 1` steps.
pub proof fn lemma_iter_step(s: u64, k: nat)
    ensures
        lcg_iter(s, k + 1) == lcg_next(lcg_iter(s, k)),
{
}

/// Taking `a` steps and then `b` steps is taking `a + b` steps.
pub proof fn lemma_iter_add(s: u64, a: nat, b: nat)
    ensures
        lcg_iter(lcg_iter(s, a), b) == lcg_iter(s, a + b),
        nth_draw(lcg_iter(s, a), b) == nth_draw(s, a + b),
{
    lemma_iter_add_plain(s, a, b);
    lemma_iter_add_plain(s, a, b + 1);
}

proof fn lemma_iter_add_plain(s: u64, a: nat, b: nat)
    ensures
        lcg_iter(lcg_iter(s, a), b) == lcg_iter(s, a + b),
    decreases b,
{
    if b > 0 {
        lemma_iter_add_plain(s, a, (b - 1) as nat);
    }
}

/// The first draw from the state reached after `k` steps is the `k`-th draw.
pub proof fn lemma_first_draw(s: u64, k: nat)
    ensures
        nth_draw(lcg_iter(s, k), 0) == nth_draw(s, k),
        lcg_next(lcg_iter(s, k)) == lcg_iter(s, k + 1),
{
    let t = lcg_iter(s, k);
    assert(lcg_iter(t, 0) == t);
    assert(lcg_iter(t, 1) == lcg_next(lcg_iter(t, 0)));
    assert(lcg_iter(s, k + 1) == lcg_next(lcg_iter(s, k)));
}

/// Deterministic pseudo-random generator driving the simulation's variability.
pub struct SimRng {
    state: u64,
}

impl View for SimRng {
    type V = u64;

    closed spec fn view(&self) -> u64 {
        self.state
    }
}

impl SimRng {
    /// A generator in the given state.
    pub fn new(seed: u64) -> (r: SimRng)
        ensures
            r@ == seed,
    {
        SimRng { state: seed }
    }

    /// Advances the generator one step and returns the upper 32 bits of the new state.
    pub fn next_u32(&mut self) -> (v: u32)
        ensures
            final(self)@ == lcg_next(old(self)@),
            v == lcg_output(final(self)@),
            v == nth_draw(old(self)@, 0),
    {
        self.state = self.state.wrapping_mul(LCG_MULTIPLIER).wrapping_add(1);
        assert(lcg_iter(old(self)@, 1) == lcg_next(lcg_iter(old(self)@, 0)));
        (self.state >> 32u64) as u32
    }
}

/// Whether the fraction `draw / DRAW_MAX` is below `percent / 100`, computed exactly.
pub open spec fn draw_below_percent(draw: u32, percent: int) -> bool {
    100 * (draw as int) < percent * (DRAW_MAX as int)
}

/// The identifier number derived from a draw: `10 + floor(90 * draw / DRAW_MAX)`.
pub open spec fn rand_id_spec(draw: u32) -> u32 {
    (10 + (draw as int * 90) / (DRAW_MAX as int)) as u32
}

/// Draws an identifier number between 10 and 100 (100 only for the largest draw).
pub fn rand_id(rng: &mut SimRng) -> (id: u32)
    ensures
        final(rng)@ == lcg_next(old(rng)@),
        id == rand_id_spec(nth_draw(old(rng)@, 0)),
        10 <= id <= 100,
{
    let v = rng.next_u32();
    let scaled: u64 = (v as u64) * 90;
    let q: u64 = scaled / (DRAW_MAX as u64);
    assert(q <= 90) by (nonlinear_arith)
        requires
            scaled == (v as u64) * 90,
            v <= DRAW_MAX,
            q == scaled / (DRAW_MAX as u64),
    ;
    10 + (q as u32)
}

/// Whether the fraction `draw / DRAW_MAX` is below `percent / 100`.
pub fn draw_below(draw: u32, percent: u32) -> (b: bool)
    ensures
        b == draw_below_percent(draw, percent as int),
{
    let lhs: u64 = 100 * (draw as u64);
    assert((percent as u64) * (DRAW_MAX as u64) <= (DRAW_MAX as u64) * (DRAW_MAX as u64)) by (nonlinear_arith)
        requires
            percent <= DRAW_MAX,
    ;
    assert(4294967295 * 4294967295 <= 18446744073709551615u64) by (nonlinear_arith);
    let rhs: u64 = (percent as u64) * (DRAW_MAX as u64);
    lhs < rhs
}

} // verus!
