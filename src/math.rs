use vstd::prelude::*;

verus! {

/// Number of fixed-point steps in one world unit: coordinates are held in thousandths.
pub const UNIT: i64 = 1000;

/// How far from the origin, in thousandths, a position may lie on each axis.
pub const POSITION_LIMIT: i64 = 2_000_000_000_500;

/// The cell that holds coordinate `v`: `v` divided by `UNIT`, rounded down.
pub open spec fn cell_of(v: int) -> int {
    v / (UNIT as int)
}

/// A coordinate that a position may hold.
pub open spec fn within_reach(v: int) -> bool {
    -POSITION_LIMIT <= v <= POSITION_LIMIT
}

/// A point or displacement in world space, each component in thousandths of a unit.
#[derive(Debug, Clone, Copy, PartialEq, Eq, Structural)]
pub struct Vec3(pub i64, pub i64, pub i64);

impl Vec3 {
    pub fn set_x(&self, new_x: i64) -> (r: Vec3)
        ensures
            r == Vec3(new_x, self.1, self.2),
    {
        Vec3(new_x, self.1, self.2)
    }

    pub fn set_y(&self, new_y: i64) -> (r: Vec3)
        ensures
            r == Vec3(self.0, new_y, self.2),
    {
        Vec3(self.0, new_y, self.2)
    }

    pub fn set_z(&self, new_z: i64) -> (r: Vec3)
        ensures
            r == Vec3(self.0, self.1, new_z),
    {
        Vec3(self.0, self.1, new_z)
    }

    pub fn x(&self) -> (r: i64)
        ensures
            r == self.0,
    {
        self.0
    }

    pub fn y(&self) -> (r: i64)
        ensures
            r == self.1,
    {
        self.1
    }

    pub fn z(&self) -> (r: i64)
        ensures
            r == self.2,
    {
        self.2
    }

    /// Component-wise sum.
    pub fn add(&self, rhs: Vec3) -> (r: Vec3)
        requires
            i64::MIN <= self.0 + rhs.0 <= i64::MAX,
            i64::MIN <= self.1 + rhs.1 <= i64::MAX,
            i64::MIN <= self.2 + rhs.2 <= i64::MAX,
        ensures
            r.0 == self.0 + rhs.0,
            r.1 == self.1 + rhs.1,
            r.2 == self.2 + rhs.2,
    {
        Vec3(self.0 + rhs.0, self.1 + rhs.1, self.2 + rhs.2)
    }
}

impl Vec3 {
    /// Every component lies within `POSITION_LIMIT` of the origin.
    pub open spec fn in_reach(&self) -> bool {
        within_reach(self.0 as int) && within_reach(self.1 as int) && within_reach(self.2 as int)
    }
}

/// The cell that holds coordinate `v`, rounding toward negative infinity.
pub fn floor_cell(v: i64) -> (r: i32)
    requires
        within_reach(v as int),
    ensures
        r as int == cell_of(v as int),
{
    if v >= 0 {
        (v / UNIT) as i32
    } else {
        let q = (UNIT - 1 - v) / UNIT;
        proof {
            let n = (UNIT - 1 - v) as int;
            assert(q as int * 1000 <= n < q as int * 1000 + 1000) by (nonlinear_arith)
                requires q as int == n / 1000, n >= 0;
            assert(-(q as int) * 1000 <= v < -(q as int) * 1000 + 1000);
            vstd::arithmetic::div_mod::lemma_fundamental_div_mod_converse(
                v as int, 1000, -(q as int), v as int + (q as int) * 1000);
        }
        (-q) as i32
    }
}

/// One xorshift step on a 32-bit state.
pub open spec fn xorshift(s: u32) -> u32 {
    let a = s ^ (s << 13u32);
    let b = a ^ (a >> 17u32);
    b ^ (b << 5u32)
}

/// The state after `n` steps from `seed`.
pub open spec fn xorshift_iter(seed: u32, n: nat) -> u32
    decreases n,
{
    if n == 0 {
        seed
    } else {
        xorshift(xorshift_iter(seed, (n - 1) as nat))
    }
}

/// A xorshift pseudo-random generator over a 32-bit state.
pub struct RandomNumberGenerator {
    pub seed: u32,
}

impl RandomNumberGenerator {
    pub fn with_seed(seed: u32) -> (r: Self)
        ensures
            r.seed == seed,
    {
        Self { seed }
    }

    /// Advances the state by one xorshift step and returns the new state.
    pub fn gen_u32(&mut self) -> (r: u32)
        ensures
            r == xorshift(old(self).seed),
            final(self).seed == r,
    {
        self.seed = self.seed ^ (self.seed << 13u32);
        self.seed = self.seed ^ (self.seed >> 17u32);
        self.seed = self.seed ^ (self.seed << 5u32);
        self.seed
    }

    /// A value in `[min, max)`: `min` plus the next state modulo the width of the range.
    pub fn gen_range(&mut self, min: u32, max: u32) -> (r: u32)
        requires
            min < max,
        ensures
            final(self).seed == xorshift(old(self).seed),
            r as int == min as int + (xorshift(old(self).seed) as int) % ((max - min) as int),
            min <= r < max,
    {
        let range = max - min;
        let v = self.gen_u32();
        min + v % range
    }
}

} // verus!
