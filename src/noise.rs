use vstd::prelude::*;

use crate::math::{RandomNumberGenerator, xorshift_iter};

verus! {

/// Fixed-point 1.0 for noise values and gradient components.
pub const NOISE_ONE: i64 = 65536;

/// The seed from which every noise field draws its gradients.
pub const NOISE_SEED: u32 = 32131;

/// The number of evenly spaced directions a gradient is drawn from.
pub const NUM_DIRECTIONS: u32 = 32;

/// Largest cell side accepted, in thousandths of a unit: the size up to which the exact
/// fixed-point evaluation of a noise value is proved to fit in 128-bit integers.
pub const MAX_CELL_SIZE: i64 = 1_073_741_824;

/// Largest number of cells along either axis.
pub const MAX_CELLS: u32 = 4096;

/// A two-dimensional vector over the x-z plane, as (x, z).
#[derive(Debug, Clone, Copy, PartialEq, Eq, Structural)]
pub struct Vec2(pub i64, pub i64);

/// Cosine and sine, scaled by `NOISE_ONE` and rounded, of `j` sixteenths of a half turn.
pub open spec fn first_quadrant(j: int) -> (int, int) {
    if j == 0 {
        (65536, 0)
    } else if j == 1 {
        (64277, 12785)
    } else if j == 2 {
        (60547, 25080)
    } else if j == 3 {
        (54491, 36410)
    } else if j == 4 {
        (46341, 46341)
    } else if j == 5 {
        (36410, 54491)
    } else if j == 6 {
        (25080, 60547)
    } else {
        (12785, 64277)
    }
}

/// The unit vector at `k` thirty-seconds of a full turn from the x axis.
pub open spec fn unit_direction(k: int) -> Vec2 {
    let (c, s) = first_quadrant(k % 8);
    let q = k / 8;
    if q == 0 {
        Vec2(c as i64, s as i64)
    } else if q == 1 {
        Vec2(-s as i64, c as i64)
    } else if q == 2 {
        Vec2(-c as i64, -s as i64)
    } else {
        Vec2(s as i64, -c as i64)
    }
}

fn first_quadrant_exec(j: u32) -> (r: (i64, i64))
    requires
        j < 8,
    ensures
        r.0 as int == first_quadrant(j as int).0,
        r.1 as int == first_quadrant(j as int).1,
{
    match j {
        0 => (65536, 0),
        1 => (64277, 12785),
        2 => (60547, 25080),
        3 => (54491, 36410),
        4 => (46341, 46341),
        5 => (36410, 54491),
        6 => (25080, 60547),
        _ => (12785, 64277),
    }
}

/// Builds the gradient pointing `k` thirty-seconds of a turn from the x axis.
pub fn gradient_from_direction(k: u32) -> (r: Vec2)
    requires
        k < NUM_DIRECTIONS,
    ensures
        r == unit_direction(k as int),
        -NOISE_ONE <= r.0 <= NOISE_ONE,
        -NOISE_ONE <= r.1 <= NOISE_ONE,
{
    let (c, s) = first_quadrant_exec(k % 8);
    let q = k / 8;
    if q == 0 {
        Vec2(c, s)
    } else if q == 1 {
        Vec2(-s, c)
    } else if q == 2 {
        Vec2(-c, -s)
    } else {
        Vec2(s, -c)
    }
}

/// The contribution of one grid corner, scaled by the cube of the cell size.
///
/// `(lx, lz)` is the offset of the point inside its cell, `(cx, cz)` picks the corner, and
/// `g` is the corner's gradient. It is the gradient dotted with the offset from the corner,
/// weighted by the bilinear weight of that corner.
pub open spec fn corner_term(c: int, lx: int, lz: int, cx: int, cz: int, g: Vec2) -> int {
    let wx = if cx == 0 {
        c - lx
    } else {
        lx
    };
    let wz = if cz == 0 {
        c - lz
    } else {
        lz
    };
    wx * wz * (g.0 * (lx - cx * c) + g.1 * (lz - cz * c))
}

/// A bound on the size of one corner term for cells of side `c`.
pub open spec fn term_bound(c: int) -> int {
    2 * NOISE_ONE * (c * c * c)
}

pub open spec fn gradient_bounded(g: Vec2) -> bool {
    -NOISE_ONE <= g.0 <= NOISE_ONE && -NOISE_ONE <= g.1 <= NOISE_ONE
}

proof fn lemma_corner_term_bound(c: int, lx: int, lz: int, cx: int, cz: int, g: Vec2)
    requires
        0 <= lx < c,
        0 <= lz < c,
        0 <= cx <= 1,
        0 <= cz <= 1,
        gradient_bounded(g),
    ensures
        -term_bound(c) <= corner_term(c, lx, lz, cx, cz, g) <= term_bound(c),
{
    let f = NOISE_ONE as int;
    let wx = if cx == 0 {
        c - lx
    } else {
        lx
    };
    let wz = if cz == 0 {
        c - lz
    } else {
        lz
    };
    let dx = lx - cx * c;
    let dz = lz - cz * c;
    assert(-c <= dx <= c);
    assert(-c <= dz <= c);
    let gx = g.0 as int;
    let gz = g.1 as int;
    assert(-f * c <= gx * dx <= f * c) by (nonlinear_arith)
        requires
            -f <= gx <= f,
            -c <= dx <= c,
            f > 0,
    ;
    assert(-f * c <= gz * dz <= f * c) by (nonlinear_arith)
        requires
            -f <= gz <= f,
            -c <= dz <= c,
            f > 0,
    ;
    let d = gx * dx + gz * dz;
    assert(2 * f * c == f * c + f * c) by (nonlinear_arith);
    assert(-2 * f * c == -(f * c) - f * c) by (nonlinear_arith);
    assert(0 <= wx * wz <= c * c) by (nonlinear_arith)
        requires
            0 <= wx <= c,
            0 <= wz <= c,
    ;
    let p = wx * wz;
    assert(-((c * c) * (2 * f * c)) <= p * d <= (c * c) * (2 * f * c)) by (nonlinear_arith)
        requires
            0 <= p <= c * c,
            -2 * f * c <= d <= 2 * f * c,
    ;
    assert((c * c) * (2 * f * c) == 2 * f * (c * c * c)) by (nonlinear_arith);
    assert(-((c * c) * (2 * f * c)) == -(2 * f * (c * c * c))) by (nonlinear_arith);
    assert(corner_term(c, lx, lz, cx, cz, g) == p * d);
}

/// A grid of gradients over the x-z plane from which smooth heights are interpolated.
///
/// Positions and the cell size are in thousandths of a unit; gradient components and
/// heights are fixed-point numbers with `NOISE_ONE` standing for 1.0. The gradient of corner
/// (xi, zi) is stored at `zi * (num_x_cells + 1) + xi`.
#[derive(Debug)]
pub struct Heightmap {
    pub cell_size: i64,
    pub num_x_cells: u32,
    pub num_z_cells: u32,
    pub gradients: Vec<Vec2>,
}

/// The gradients that `Heightmap::new` draws for a grid with `n` corners.
pub open spec fn seeded_gradients(n: nat) -> Seq<Vec2> {
    Seq::new(
        n,
        |i: int|
            unit_direction((xorshift_iter(NOISE_SEED, (i + 1) as nat) % NUM_DIRECTIONS) as int),
    )
}

/// What a heightmap holds, as mathematical values.
pub ghost struct NoiseGrid {
    pub cell_size: int,
    pub num_x_cells: int,
    pub num_z_cells: int,
    pub gradients: Seq<Vec2>,
}

impl NoiseGrid {
    /// The gradient at grid corner (xi, zi).
    pub open spec fn gradient_at(&self, xi: int, zi: int) -> Vec2 {
        self.gradients[zi * (self.num_x_cells + 1) + xi]
    }

    /// Whether (x, z) lies outside `[0, cell_size·num_x_cells) × [0, cell_size·num_z_cells)`.
    pub open spec fn outside(&self, x: int, z: int) -> bool {
        x < 0 || x >= self.cell_size * self.num_x_cells || z < 0 || z >= self.cell_size
            * self.num_z_cells
    }

    /// The four corner contributions at (x, z), summed; (x, z) must lie inside the grid.
    pub open spec fn weighted_sum(&self, x: int, z: int) -> int {
        let c = self.cell_size;
        let xi = x / c;
        let zi = z / c;
        let lx = x % c;
        let lz = z % c;
        corner_term(c, lx, lz, 0, 0, self.gradient_at(xi, zi)) + corner_term(
            c,
            lx,
            lz,
            1,
            0,
            self.gradient_at(xi + 1, zi),
        ) + corner_term(c, lx, lz, 0, 1, self.gradient_at(xi, zi + 1)) + corner_term(
            c,
            lx,
            lz,
            1,
            1,
            self.gradient_at(xi + 1, zi + 1),
        )
    }

    /// The noise value at (x, z): the gradients of the enclosing cell's corners, each dotted
    /// with the offset from its corner, interpolated bilinearly and rounded down to a
    /// fixed-point number; zero outside the grid.
    pub open spec fn noise(&self, x: int, z: int) -> int {
        if self.outside(x, z) {
            0
        } else {
            let c = self.cell_size;
            self.weighted_sum(x, z) / (c * c * c)
        }
    }

}

/// The grid that `Heightmap::new` builds.
pub open spec fn generated_grid(cell_size: int, num_x_cells: int, num_z_cells: int) -> NoiseGrid {
    NoiseGrid {
        cell_size,
        num_x_cells,
        num_z_cells,
        gradients: seeded_gradients(((num_x_cells + 1) * (num_z_cells + 1)) as nat),
    }
}

/// Floor division by a positive divisor.
fn floor_div(n: i128, d: i128) -> (r: i128)
    requires
        d > 0,
        -0x100_0000_0000_0000_0000_0000_0000_0000 <= n,
        n <= 0x100_0000_0000_0000_0000_0000_0000_0000,
        d <= 0x100_0000_0000_0000_0000_0000_0000_0000,
    ensures
        r as int == n as int / d as int,
{
    if n >= 0 {
        n / d
    } else {
        let q = (d - 1 - n) / d;
        proof {
            let m = (d - 1 - n) as int;
            let di = d as int;
            assert(q as int * di <= m < q as int * di + di) by (nonlinear_arith)
                requires
                    q as int == m / di,
                    m >= 0,
                    di > 0,
            ;
            assert(0 <= n + (q as int) * di < di) by (nonlinear_arith)
                requires
                    q as int * di <= m < q as int * di + di,
                    m == di - 1 - n,
            ;
            assert((-(q as int)) * di == -((q as int) * di)) by (nonlinear_arith);
            vstd::arithmetic::div_mod::lemma_fundamental_div_mod_converse(
                n as int,
                di,
                -(q as int),
                n as int + (q as int) * di,
            );
        }
        -q
    }
}

impl Heightmap {
    pub open spec fn view(&self) -> NoiseGrid {
        NoiseGrid {
            cell_size: self.cell_size as int,
            num_x_cells: self.num_x_cells as int,
            num_z_cells: self.num_z_cells as int,
            gradients: self.gradients@,
        }
    }

    pub open spec fn wf(&self) -> bool {
        &&& 0 < self.cell_size <= MAX_CELL_SIZE
        &&& self.num_x_cells <= MAX_CELLS
        &&& self.num_z_cells <= MAX_CELLS
        &&& self.gradients@.len() == (self.num_x_cells + 1) * (self.num_z_cells + 1)
        &&& forall|i: int|
            0 <= i < self.gradients@.len() ==> gradient_bounded(#[trigger] self.gradients@[i])
    }

    /// A grid of `num_x_cells × num_z_cells` cells whose gradients are drawn from a generator
    /// seeded with `NOISE_SEED`, one per corner, rows of increasing z, each of increasing x.
    pub fn new(cell_size: i64, num_x_cells: u32, num_z_cells: u32) -> (r: Self)
        requires
            0 < cell_size <= MAX_CELL_SIZE,
            num_x_cells <= MAX_CELLS,
            num_z_cells <= MAX_CELLS,
        ensures
            r.wf(),
            r.cell_size == cell_size,
            r.num_x_cells == num_x_cells,
            r.num_z_cells == num_z_cells,
            r@ == generated_grid(cell_size as int, num_x_cells as int, num_z_cells as int),
    {
        let mut rng = RandomNumberGenerator::with_seed(NOISE_SEED);
        assert((num_z_cells + 1) * (num_x_cells + 1) <= 4097 * 4097) by (nonlinear_arith)
            requires
                num_x_cells <= 4096,
                num_z_cells <= 4096,
        ;
        let num_values = ((num_z_cells + 1) * (num_x_cells + 1)) as usize;
        assert(num_values == (num_x_cells + 1) * (num_z_cells + 1)) by (nonlinear_arith)
            requires
                num_values == (num_z_cells + 1) * (num_x_cells + 1),
        ;
        let mut gradients: Vec<Vec2> = Vec::with_capacity(num_values);
        let mut i: usize = 0;
        while i < num_values
            invariant
                i <= num_values,
                rng.seed == xorshift_iter(NOISE_SEED, i as nat),
                gradients@ == seeded_gradients(i as nat),
            decreases num_values - i,
        {
            let k = rng.gen_range(0, NUM_DIRECTIONS);
            gradients.push(gradient_from_direction(k));
            assert(gradients@ =~= seeded_gradients((i + 1) as nat));
            i = i + 1;
        }
        let r = Self { cell_size, num_x_cells, num_z_cells, gradients };
        assert forall|j: int| 0 <= j < r.gradients@.len() implies gradient_bounded(
            #[trigger] r.gradients@[j],
        ) by {
            let k = xorshift_iter(NOISE_SEED, (j + 1) as nat) % NUM_DIRECTIONS;
            assert(0 <= k < 32);
        }
        r
    }

    pub fn min_x(&self) -> (r: i64)
        ensures
            r == 0,
    {
        0
    }

    pub fn max_x(&self) -> (r: i64)
        requires
            self.wf(),
        ensures
            r == self.cell_size * self.num_x_cells,
    {
        assert(self.cell_size * self.num_x_cells <= MAX_CELL_SIZE * MAX_CELLS) by (nonlinear_arith)
            requires
                0 < self.cell_size <= MAX_CELL_SIZE,
                self.num_x_cells <= MAX_CELLS,
        ;
        self.cell_size * self.num_x_cells as i64
    }

    pub fn min_z(&self) -> (r: i64)
        ensures
            r == 0,
    {
        0
    }

    pub fn max_z(&self) -> (r: i64)
        requires
            self.wf(),
        ensures
            r == self.cell_size * self.num_z_cells,
    {
        assert(self.cell_size * self.num_z_cells <= MAX_CELL_SIZE * MAX_CELLS) by (nonlinear_arith)
            requires
                0 < self.cell_size <= MAX_CELL_SIZE,
                self.num_z_cells <= MAX_CELLS,
        ;
        self.cell_size * self.num_z_cells as i64
    }

    /// Whether `xz_position` lies outside the half-open rectangle the grid covers.
    pub fn is_out_of_range(&self, xz_position: &Vec2) -> (r: bool)
        requires
            self.wf(),
        ensures
            r == self@.outside(xz_position.0 as int, xz_position.1 as int),
    {
        let Vec2(x, z) = *xz_position;
        x < self.min_x() || x >= self.max_x() || z < self.min_z() || z >= self.max_z()
    }

    /// The gradient at grid corner (xi, zi).
    pub fn gradient_at_index(&self, xi: usize, zi: usize) -> (r: Vec2)
        requires
            self.wf(),
            xi <= self.num_x_cells,
            zi <= self.num_z_cells,
        ensures
            r == self@.gradient_at(xi as int, zi as int),
            gradient_bounded(r),
    {
        let w = self.num_x_cells as usize + 1;
        assert(zi * w + xi < (self.num_x_cells + 1) * (self.num_z_cells + 1) <= 4097 * 4097)
            by (nonlinear_arith)
            requires
                w == self.num_x_cells + 1,
                xi < w,
                zi <= self.num_z_cells,
                self.num_x_cells <= 4096,
                self.num_z_cells <= 4096,
        ;
        self.gradients[zi * w + xi]
    }

    /// The contribution of corner (xi + cx, zi + cz) at offset (lx, lz) inside cell (xi, zi).
    fn corner_contribution(
        &self,
        xi: usize,
        zi: usize,
        lx: i64,
        lz: i64,
        cx: usize,
        cz: usize,
    ) -> (r: i128)
        requires
            self.wf(),
            xi < self.num_x_cells,
            zi < self.num_z_cells,
            0 <= lx < self.cell_size,
            0 <= lz < self.cell_size,
            cx <= 1,
            cz <= 1,
        ensures
            r == corner_term(
                self.cell_size as int,
                lx as int,
                lz as int,
                cx as int,
                cz as int,
                self@.gradient_at(xi + cx, zi + cz),
            ),
            -term_bound(self.cell_size as int) <= r <= term_bound(self.cell_size as int),
    {
        let g = self.gradient_at_index(xi + cx, zi + cz);
        let c = self.cell_size as i128;
        let wx: i128 = if cx == 0 { c - lx as i128 } else { lx as i128 };
        let wz: i128 = if cz == 0 { c - lz as i128 } else { lz as i128 };
        let dx: i128 = if cx == 0 { lx as i128 } else { lx as i128 - c };
        let dz: i128 = if cz == 0 { lz as i128 } else { lz as i128 - c };
        proof {
            lemma_corner_term_bound(c as int, lx as int, lz as int, cx as int, cz as int, g);
            let f = NOISE_ONE as int;
            assert(0 <= wx * wz <= c * c) by (nonlinear_arith)
                requires
                    0 <= wx <= c,
                    0 <= wz <= c,
            ;
            assert(c * c <= 0x1000_0000_0000_0000) by (nonlinear_arith)
                requires
                    0 < c <= 0x4000_0000,
            ;
            assert(-f * c <= g.0 * dx <= f * c) by (nonlinear_arith)
                requires
                    -f <= g.0 <= f,
                    -c <= dx <= c,
                    f > 0,
            ;
            assert(-f * c <= g.1 * dz <= f * c) by (nonlinear_arith)
                requires
                    -f <= g.1 <= f,
                    -c <= dz <= c,
                    f > 0,
            ;
            assert(f * c <= 0x4000_0000_0000) by (nonlinear_arith)
                requires
                    0 < c <= 0x4000_0000,
                    f == 0x1_0000,
            ;
            assert(2 * f * (c * c * c) <= 0x800_0000_0000_0000_0000_0000_0000)
                by (nonlinear_arith)
                requires
                    0 < c <= 0x4000_0000,
                    f == 0x1_0000,
            ;
            assert(wx * wz * ((g.0 as i128) * dx + (g.1 as i128) * dz) == corner_term(
                c as int,
                lx as int,
                lz as int,
                cx as int,
                cz as int,
                g,
            ));
        }
        let p = wx * wz;
        let d = (g.0 as i128) * dx + (g.1 as i128) * dz;
        proof {
            let f = NOISE_ONE as int;
            assert(-0x800_0000_0000_0000_0000_0000_0000 <= p * d
                <= 0x800_0000_0000_0000_0000_0000_0000)
                by (nonlinear_arith)
                requires
                    0 <= p <= 0x1000_0000_0000_0000,
                    -0x8000_0000_0000 <= d <= 0x8000_0000_0000,
            ;
        }
        p * d
    }

    /// The noise value at `xz_position`, or 0 outside the grid.
    pub fn height_at(&self, xz_position: &Vec2) -> (r: i64)
        requires
            self.wf(),
        ensures
            r as int == self@.noise(xz_position.0 as int, xz_position.1 as int),
    {
        if self.is_out_of_range(xz_position) {
            return 0;
        }
        let Vec2(x, z) = *xz_position;
        let c = self.cell_size;
        let xi = x / c;
        let zi = z / c;
        let lx = x % c;
        let lz = z % c;
        proof {
            vstd::arithmetic::div_mod::lemma_fundamental_div_mod(x as int, c as int);
            vstd::arithmetic::div_mod::lemma_fundamental_div_mod(z as int, c as int);
            vstd::arithmetic::div_mod::lemma_mod_pos_bound(x as int, c as int);
            vstd::arithmetic::div_mod::lemma_mod_pos_bound(z as int, c as int);
            assert(0 <= xi < self.num_x_cells) by (nonlinear_arith)
                requires
                    x == c * xi + lx,
                    0 <= lx < c,
                    0 <= x < c * self.num_x_cells,
            ;
            assert(0 <= zi < self.num_z_cells) by (nonlinear_arith)
                requires
                    z == c * zi + lz,
                    0 <= lz < c,
                    0 <= z < c * self.num_z_cells,
            ;
        }
        let xi = xi as usize;
        let zi = zi as usize;
        let x0z0 = self.corner_contribution(xi, zi, lx, lz, 0, 0);
        let x1z0 = self.corner_contribution(xi, zi, lx, lz, 1, 0);
        let x0z1 = self.corner_contribution(xi, zi, lx, lz, 0, 1);
        let x1z1 = self.corner_contribution(xi, zi, lx, lz, 1, 1);
        let ci = c as i128;
        let ghost bound = term_bound(c as int);
        proof {
            assert(ci * ci * ci <= 0x400_0000_0000_0000_0000_0000) by (nonlinear_arith)
                requires
                    0 < ci <= 0x4000_0000,
            ;
            assert(0 < ci * ci * ci) by (nonlinear_arith)
                requires
                    0 < ci,
            ;
            assert(0 < ci * ci <= 0x1000_0000_0000_0000) by (nonlinear_arith)
                requires
                    0 < ci <= 0x4000_0000,
            ;
            assert(bound <= 0x800_0000_0000_0000_0000_0000_0000) by (nonlinear_arith)
                requires
                    0 < c <= 0x4000_0000,
                    bound == 0x2_0000 * (c * c * c),
            ;
        }
        assert(-bound <= x0z0 <= bound);
        assert(-bound <= x1z0 <= bound);
        assert(-bound <= x0z1 <= bound);
        assert(-bound <= x1z1 <= bound);
        let volume = ci * ci * ci;
        let total = x0z0 + x1z0 + x0z1 + x1z1;
        let q = floor_div(total, volume);
        proof {
            let v = volume as int;
            let t = total as int;
            vstd::arithmetic::div_mod::lemma_fundamental_div_mod(t, v);
            vstd::arithmetic::div_mod::lemma_mod_bound(t, v);
            assert(-8 * NOISE_ONE <= q <= 8 * NOISE_ONE) by (nonlinear_arith)
                requires
                    t == v * q + t % v,
                    0 <= t % v < v,
                    -4 * bound <= t <= 4 * bound,
                    bound == 2 * NOISE_ONE * v,
                    v > 0,
            ;
        }
        q as i64
    }

    /// A grid with the given gradients, one per corner, rows of increasing z, each of
    /// increasing x.
    pub fn with_gradients(
        gradients: Vec<Vec2>,
        cell_size: i64,
        num_x_cells: u32,
        num_z_cells: u32,
    ) -> (r: Self)
        requires
            0 < cell_size <= MAX_CELL_SIZE,
            num_x_cells <= MAX_CELLS,
            num_z_cells <= MAX_CELLS,
            gradients@.len() == (num_x_cells + 1) * (num_z_cells + 1),
            forall|i: int| 0 <= i < gradients@.len() ==> gradient_bounded(#[trigger] gradients@[i]),
        ensures
            r.wf(),
            r.cell_size == cell_size,
            r.num_x_cells == num_x_cells,
            r.num_z_cells == num_z_cells,
            r.gradients@ == gradients@,
    {
        Self { cell_size, num_x_cells, num_z_cells, gradients }
    }
}

/// Two heightmaps built by `Heightmap::new` with the same cell size and counts give the same
/// noise value at every position.
pub proof fn lemma_noise_determinism(a: Heightmap, b: Heightmap, x: int, z: int)
    requires
        a@ == generated_grid(a.cell_size as int, a.num_x_cells as int, a.num_z_cells as int),
        b@ == generated_grid(b.cell_size as int, b.num_x_cells as int, b.num_z_cells as int),
        a.cell_size == b.cell_size,
        a.num_x_cells == b.num_x_cells,
        a.num_z_cells == b.num_z_cells,
    ensures
        a@.noise(x, z) == b@.noise(x, z),
{
}

/// Outside the rectangle the grid covers, the noise value is zero.
pub proof fn lemma_outside_is_zero(grid: NoiseGrid, x: int, z: int)
    requires
        x < 0 || x >= grid.cell_size * grid.num_x_cells || z < 0 || z >= grid.cell_size
            * grid.num_z_cells,
    ensures
        grid.noise(x, z) == 0,
{
}

/// At every grid corner the noise value is zero: each gradient is dotted with a zero offset.
pub proof fn lemma_grid_corner_is_zero(grid: NoiseGrid, xi: int, zi: int)
    requires
        grid.cell_size > 0,
        xi >= 0,
        zi >= 0,
    ensures
        grid.noise(xi * grid.cell_size, zi * grid.cell_size) == 0,
{
    let c = grid.cell_size;
    if !grid.outside(xi * c, zi * c) {
        vstd::arithmetic::div_mod::lemma_fundamental_div_mod_converse(xi * c, c, xi, 0);
        vstd::arithmetic::div_mod::lemma_fundamental_div_mod_converse(zi * c, c, zi, 0);
        assert forall|cx: int, cz: int, g: Vec2| 0 <= cx <= 1 && 0 <= cz <= 1 implies
            #[trigger] corner_term(c, 0, 0, cx, cz, g) == 0 by {
            let wx = if cx == 0 {
                c
            } else {
                0
            };
            let wz = if cz == 0 {
                c
            } else {
                0
            };
            let gx = g.0 as int;
            let gz = g.1 as int;
            let d = gx * (0 - cx * c) + gz * (0 - cz * c);
            if cx == 0 && cz == 0 {
                assert(d == 0) by (nonlinear_arith)
                    requires
                        cx == 0,
                        cz == 0,
                        d == gx * (0 - cx * c) + gz * (0 - cz * c),
                ;
            }
            assert(wx * wz * d == 0) by (nonlinear_arith)
                requires
                    wx == 0 || wz == 0 || d == 0,
            ;
        }
        assert(grid.weighted_sum(xi * c, zi * c) == 0);
        assert(c * c * c > 0) by (nonlinear_arith)
            requires
                c > 0,
        ;
    }
}

proof fn lemma_corner_term_scales(c: int, lx: int, lz: int, cx: int, cz: int, g: Vec2, k: int)
    ensures
        corner_term(k * c, k * lx, k * lz, cx, cz, g) == k * k * k * corner_term(
            c,
            lx,
            lz,
            cx,
            cz,
            g,
        ),
{
    let wx = if cx == 0 {
        c - lx
    } else {
        lx
    };
    let wz = if cz == 0 {
        c - lz
    } else {
        lz
    };
    let d = g.0 * (lx - cx * c) + g.1 * (lz - cz * c);
    let wx2 = if cx == 0 {
        k * c - k * lx
    } else {
        k * lx
    };
    let wz2 = if cz == 0 {
        k * c - k * lz
    } else {
        k * lz
    };
    let d2 = g.0 * (k * lx - cx * (k * c)) + g.1 * (k * lz - cz * (k * c));
    assert(wx2 == k * wx) by (nonlinear_arith)
        requires
            wx2 == (if cx == 0 {
                k * c - k * lx
            } else {
                k * lx
            }),
            wx == (if cx == 0 {
                c - lx
            } else {
                lx
            }),
    ;
    assert(wz2 == k * wz) by (nonlinear_arith)
        requires
            wz2 == (if cz == 0 {
                k * c - k * lz
            } else {
                k * lz
            }),
            wz == (if cz == 0 {
                c - lz
            } else {
                lz
            }),
    ;
    let gx = g.0 as int;
    let gz = g.1 as int;
    assert(gx * (k * lx - cx * (k * c)) == k * (gx * (lx - cx * c))) by (nonlinear_arith);
    assert(gz * (k * lz - cz * (k * c)) == k * (gz * (lz - cz * c))) by (nonlinear_arith);
    assert(d2 == k * d) by (nonlinear_arith)
        requires
            d2 == gx * (k * lx - cx * (k * c)) + gz * (k * lz - cz * (k * c)),
            d == gx * (lx - cx * c) + gz * (lz - cz * c),
            gx * (k * lx - cx * (k * c)) == k * (gx * (lx - cx * c)),
            gz * (k * lz - cz * (k * c)) == k * (gz * (lz - cz * c)),
    ;
    assert((k * wx) * (k * wz) * (k * d) == k * k * k * (wx * wz * d)) by (nonlinear_arith);
}

/// Scaling the cell size by `k`, and the position with it, leaves the noise value unchanged.
pub proof fn lemma_scale_invariance(grid: NoiseGrid, k: int, x: int, z: int)
    requires
        grid.cell_size > 0,
        k > 0,
    ensures
        (NoiseGrid { cell_size: k * grid.cell_size, ..grid }).noise(k * x, k * z) == grid.noise(
            x,
            z,
        ),
{
    let big = NoiseGrid { cell_size: k * grid.cell_size, ..grid };
    let c = grid.cell_size;
    let nx = grid.num_x_cells;
    let nz = grid.num_z_cells;
    assert(k * x < 0 <==> x < 0) by (nonlinear_arith)
        requires
            k > 0,
    ;
    assert(k * z < 0 <==> z < 0) by (nonlinear_arith)
        requires
            k > 0,
    ;
    assert(k * x >= (k * c) * nx <==> x >= c * nx) by (nonlinear_arith)
        requires
            k > 0,
    ;
    assert(k * z >= (k * c) * nz <==> z >= c * nz) by (nonlinear_arith)
        requires
            k > 0,
    ;
    if !grid.outside(x, z) {
        let xi = x / c;
        let zi = z / c;
        let lx = x % c;
        let lz = z % c;
        vstd::arithmetic::div_mod::lemma_fundamental_div_mod(x, c);
        vstd::arithmetic::div_mod::lemma_fundamental_div_mod(z, c);
        vstd::arithmetic::div_mod::lemma_mod_bound(x, c);
        vstd::arithmetic::div_mod::lemma_mod_bound(z, c);
        assert(k * x == (k * c) * xi + k * lx && 0 <= k * lx < k * c) by (nonlinear_arith)
            requires
                x == c * xi + lx,
                0 <= lx < c,
                k > 0,
        ;
        assert(k * z == (k * c) * zi + k * lz && 0 <= k * lz < k * c) by (nonlinear_arith)
            requires
                z == c * zi + lz,
                0 <= lz < c,
                k > 0,
        ;
        vstd::arithmetic::div_mod::lemma_fundamental_div_mod_converse(k * x, k * c, xi, k * lx);
        vstd::arithmetic::div_mod::lemma_fundamental_div_mod_converse(k * z, k * c, zi, k * lz);
        lemma_corner_term_scales(c, lx, lz, 0, 0, grid.gradient_at(xi, zi), k);
        lemma_corner_term_scales(c, lx, lz, 1, 0, grid.gradient_at(xi + 1, zi), k);
        lemma_corner_term_scales(c, lx, lz, 0, 1, grid.gradient_at(xi, zi + 1), k);
        lemma_corner_term_scales(c, lx, lz, 1, 1, grid.gradient_at(xi + 1, zi + 1), k);
        let t00 = corner_term(c, lx, lz, 0, 0, grid.gradient_at(xi, zi));
        let t10 = corner_term(c, lx, lz, 1, 0, grid.gradient_at(xi + 1, zi));
        let t01 = corner_term(c, lx, lz, 0, 1, grid.gradient_at(xi, zi + 1));
        let t11 = corner_term(c, lx, lz, 1, 1, grid.gradient_at(xi + 1, zi + 1));
        let sum = grid.weighted_sum(x, z);
        assert(sum == t00 + t10 + t01 + t11);
        let k3 = k * k * k;
        assert(k3 * t00 + k3 * t10 + k3 * t01 + k3 * t11 == k3 * (t00 + t10 + t01 + t11))
            by (nonlinear_arith);
        assert(big.weighted_sum(k * x, k * z) == k3 * sum);
        let v = c * c * c;
        assert(c * c * c > 0) by (nonlinear_arith)
            requires
                c > 0,
        ;
        vstd::arithmetic::div_mod::lemma_fundamental_div_mod(sum, v);
        vstd::arithmetic::div_mod::lemma_mod_bound(sum, v);
        let q = sum / v;
        let r = sum % v;
        assert(k3 * sum == (k3 * v) * q + k3 * r && 0 <= k3 * r < k3 * v
            && (k * c) * (k * c) * (k * c) == k3 * v) by (nonlinear_arith)
            requires
                sum == v * q + r,
                0 <= r < v,
                k3 == k * k * k,
                v == c * c * c,
                k > 0,
        ;
        vstd::arithmetic::div_mod::lemma_fundamental_div_mod_converse(k3 * sum, k3 * v, q, k3 * r);
    }
}

/// Two heightmaps built by `Heightmap::new` that differ only in cell size, the larger `k`
/// times the smaller, give the same noise value at positions scaled by `k`.
pub proof fn lemma_generated_scale_invariance(
    cell_size: int,
    k: int,
    num_x_cells: int,
    num_z_cells: int,
    x: int,
    z: int,
)
    requires
        cell_size > 0,
        k > 0,
    ensures
        generated_grid(k * cell_size, num_x_cells, num_z_cells).noise(k * x, k * z)
            == generated_grid(cell_size, num_x_cells, num_z_cells).noise(x, z),
{
    let small = generated_grid(cell_size, num_x_cells, num_z_cells);
    assert(generated_grid(k * cell_size, num_x_cells, num_z_cells) == (NoiseGrid {
        cell_size: k * cell_size,
        ..small
    }));
    lemma_scale_invariance(small, k, x, z);
}

} // verus!
