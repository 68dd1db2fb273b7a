use vstd::prelude::*;

use crate::math::{UNIT, Vec3};
use crate::noise::{Heightmap, NOISE_ONE, NoiseGrid, Vec2};
use crate::traversal::GlobalIndex;

verus! {

/// One solid voxel, met while looking for collisions.
#[derive(Debug, Clone, Copy, PartialEq, Eq, Structural)]
pub struct Block {
    pub index: GlobalIndex,
}

impl Block {
    pub fn new(index: GlobalIndex) -> (r: Block)
        ensures
            r.index == index,
    {
        Block { index }
    }

    /// The face at the lowest x, in thousandths.
    pub fn left(&self) -> (r: i64)
        ensures
            r == self.index.0 * UNIT,
    {
        self.index.0 as i64 * UNIT
    }

    /// The face at the highest x, in thousandths.
    pub fn right(&self) -> (r: i64)
        ensures
            r == (self.index.0 + 1) * UNIT,
    {
        (self.index.0 as i64 + 1) * UNIT
    }

    /// The face at the highest y, in thousandths.
    pub fn top(&self) -> (r: i64)
        ensures
            r == (self.index.1 + 1) * UNIT,
    {
        (self.index.1 as i64 + 1) * UNIT
    }

    /// The face at the lowest y, in thousandths.
    pub fn bottom(&self) -> (r: i64)
        ensures
            r == self.index.1 * UNIT,
    {
        self.index.1 as i64 * UNIT
    }

    /// The face at the lowest z, in thousandths.
    pub fn near(&self) -> (r: i64)
        ensures
            r == self.index.2 * UNIT,
    {
        self.index.2 as i64 * UNIT
    }

    /// The face at the highest z, in thousandths.
    pub fn far(&self) -> (r: i64)
        ensures
            r == (self.index.2 + 1) * UNIT,
    {
        (self.index.2 as i64 + 1) * UNIT
    }
}

/// The integer coordinates of a voxel cell inside the grid.
#[derive(Debug, Clone, Copy, PartialEq, Eq, Structural)]
pub struct Coordinates(pub u32, pub u32, pub u32);

impl Coordinates {
    /// The centre of the cell, in thousandths of a unit.
    pub fn center(&self) -> (r: Vec3)
        ensures
            r == Vec3(
                (self.0 * UNIT + UNIT / 2) as i64,
                (self.1 * UNIT + UNIT / 2) as i64,
                (self.2 * UNIT + UNIT / 2) as i64,
            ),
    {
        let Coordinates(x, y, z) = *self;
        Vec3(x as i64 * UNIT + UNIT / 2, y as i64 * UNIT + UNIT / 2, z as i64 * UNIT + UNIT / 2)
    }
}

/// `v` limited to `[lo, hi]`.
pub open spec fn clamp_int(v: int, lo: int, hi: int) -> int {
    if v < lo {
        lo
    } else if v > hi {
        hi
    } else {
        v
    }
}

/// The column height for a noise value: the value, limited to [-1, 1], is mapped onto
/// [0, 1], scaled by `y_height - 1` and rounded down, and then raised by one.
pub open spec fn scaled_height(noise: int, y_height: int) -> int {
    let h = clamp_int(noise, -NOISE_ONE, NOISE_ONE as int);
    (h + NOISE_ONE) * (y_height - 1) / (2 * NOISE_ONE) + 1
}

/// The centre of column `x` along one axis, in thousandths of a unit.
pub open spec fn column_center(x: int) -> int {
    x * UNIT + UNIT / 2
}

/// The height that column (x, z) takes from `heightmap` in a world `y_height` high.
pub open spec fn sampled_column(heightmap: NoiseGrid, x: int, z: int, y_height: int) -> int {
    scaled_height(heightmap.noise(column_center(x), column_center(z)), y_height)
}

fn scale_height(noise: i64, y_height: u32) -> (r: i32)
    requires
        1 <= y_height <= i32::MAX,
    ensures
        r as int == scaled_height(noise as int, y_height as int),
        1 <= r <= y_height,
{
    let h = if noise < -NOISE_ONE {
        -NOISE_ONE
    } else if noise > NOISE_ONE {
        NOISE_ONE
    } else {
        noise
    };
    let range = (y_height - 1) as i64;
    let f = h + NOISE_ONE;
    proof {
        assert(0 <= f * range <= 2 * NOISE_ONE * range) by (nonlinear_arith)
            requires
                0 <= f <= 2 * NOISE_ONE,
                0 <= range,
        ;
        assert(f * range / (2 * NOISE_ONE) <= range) by (nonlinear_arith)
            requires
                0 <= f * range <= 2 * NOISE_ONE * range,
                0 <= range,
        ;
        assert(f * range <= 0x2_0000_0000_0000) by (nonlinear_arith)
            requires
                0 <= f <= 2 * NOISE_ONE,
                0 <= range <= 0x8000_0000,
        ;
    }
    (f * range / (2 * NOISE_ONE) + 1) as i32
}

/// A grid of columns, each solid from y = 0 up to its height inclusive.
///
/// Column (x, z) is stored at `z * x_width + x`.
pub struct Terrain {
    pub x_width: u32,
    pub z_depth: u32,
    pub heights: Vec<i32>,
}

/// The coordinates of each cell, in order.
pub open spec fn cells_of(s: Seq<GlobalIndex>) -> Seq<(int, int, int)> {
    s.map_values(|g: GlobalIndex| g@)
}

/// The least of two integers.
pub open spec fn min_int(a: int, b: int) -> int {
    if a <= b {
        a
    } else {
        b
    }
}

fn min_i32(a: i32, b: i32) -> (r: i32)
    ensures
        r as int == min_int(a as int, b as int),
{
    if a <= b {
        a
    } else {
        b
    }
}

impl Terrain {
    pub open spec fn wf(&self) -> bool {
        &&& self.x_width <= i32::MAX
        &&& self.z_depth <= i32::MAX
        &&& self.heights@.len() == self.x_width * self.z_depth
        &&& forall|i: int| 0 <= i < self.heights@.len() ==> self.heights@[i] >= 0
    }

    pub open spec fn in_range(&self, x: int, z: int) -> bool {
        0 <= x < self.x_width && 0 <= z < self.z_depth
    }

    /// The height of column (x, z); zero outside the grid.
    pub open spec fn column(&self, x: int, z: int) -> int {
        if self.in_range(x, z) {
            self.heights@[z * self.x_width + x] as int
        } else {
            0
        }
    }

    /// Whether this grid is `before` with column (x, z) lowered by one, unless that column lies
    /// outside the grid or is already at zero.
    pub open spec fn lowered(&self, before: Terrain, x: int, z: int) -> bool {
        &&& self.x_width == before.x_width
        &&& self.z_depth == before.z_depth
        &&& self.column(x, z) == (if before.column(x, z) > 0 {
            before.column(x, z) - 1
        } else {
            before.column(x, z)
        })
        &&& forall|a: int, b: int|
            (a, b) != (x, z) ==> #[trigger] self.column(a, b) == before.column(a, b)
    }

    /// Whether the voxel at (x, y, z) is solid.
    pub open spec fn solid(&self, cell: (int, int, int)) -> bool {
        cell.1 <= self.column(cell.0, cell.2)
    }

    /// The lowest layer of column (x, z) that is shown: no lower than its shortest neighbour.
    pub open spec fn lowest_visible(&self, x: int, z: int) -> int {
        min_int(
            self.column(x, z),
            min_int(
                min_int(self.column(x + 1, z), self.column(x - 1, z)),
                min_int(self.column(x, z + 1), self.column(x, z - 1)),
            ),
        )
    }

    /// Whether the voxel at (x, y, z) lies in the grid and may have an exposed face.
    pub open spec fn visible(&self, cell: (int, int, int)) -> bool {
        &&& self.in_range(cell.0, cell.2)
        &&& self.lowest_visible(cell.0, cell.2) <= cell.1 <= self.column(cell.0, cell.2)
    }

    /// The shown layers of column (x, z), lowest first.
    pub open spec fn column_run(&self, x: int, z: int) -> Seq<(int, int, int)> {
        let lo = self.lowest_visible(x, z);
        Seq::new((self.column(x, z) - lo + 1) as nat, |i: int| (x, lo + i, z))
    }

    /// The shown layers of the first `n` columns, taken row by row of z, each row by x.
    pub open spec fn visible_prefix(&self, n: nat) -> Seq<(int, int, int)>
        decreases n,
    {
        if n == 0 {
            Seq::empty()
        } else {
            let k = n - 1;
            self.visible_prefix(k as nat) + self.column_run(
                k % (self.x_width as int),
                k / (self.x_width as int),
            )
        }
    }

    /// Every shown layer of every column: z outermost, then x, then y rising.
    pub open spec fn visible_sequence(&self) -> Seq<(int, int, int)> {
        self.visible_prefix((self.x_width * self.z_depth) as nat)
    }

    proof fn lemma_index_in_bounds(&self, x: int, z: int)
        requires
            self.wf(),
            self.in_range(x, z),
        ensures
            0 <= z * self.x_width + x < self.heights@.len(),
    {
        let w = self.x_width as int;
        let d = self.z_depth as int;
        assert(0 <= z * w + x < w * d) by (nonlinear_arith)
            requires
                0 <= x < w,
                0 <= z < d,
        ;
    }

    /// A grid of `x_width × z_depth` columns, each as high as the heightmap, sampled at the
    /// column's centre and scaled by `scaled_height`, makes it: from 1 to `y_height`.
    pub fn from_heightmap(
        heightmap: Heightmap,
        x_width: u32,
        y_height: u32,
        z_depth: u32,
    ) -> (r: Self)
        requires
            heightmap.wf(),
            1 <= y_height <= i32::MAX,
            x_width <= i32::MAX,
            z_depth <= i32::MAX,
        ensures
            r.wf(),
            r.x_width == x_width,
            r.z_depth == z_depth,
            forall|x: int, z: int|
                r.in_range(x, z) ==> #[trigger] r.column(x, z) == sampled_column(
                    heightmap@,
                    x,
                    z,
                    y_height as int,
                ),
            forall|x: int, z: int| r.in_range(x, z) ==> 1 <= #[trigger] r.column(x, z) <= y_height,
    {
        let ghost w = x_width as int;
        let mut heights: Vec<i32> = Vec::new();
        let mut z: u32 = 0;
        while z < z_depth
            invariant
                heightmap.wf(),
                w == x_width,
                1 <= y_height <= i32::MAX,
                0 <= z <= z_depth,
                heights@.len() == z * w,
                forall|i: int|
                    0 <= i < heights@.len() ==> #[trigger] heights@[i] == sampled_column(
                        heightmap@,
                        i % w,
                        i / w,
                        y_height as int,
                    ) && 1 <= heights@[i] <= y_height,
            decreases z_depth - z,
        {
            let mut x: u32 = 0;
            while x < x_width
                invariant
                    heightmap.wf(),
                    w == x_width,
                    1 <= y_height <= i32::MAX,
                    0 <= z < z_depth,
                    0 <= x <= x_width,
                    heights@.len() == z * w + x,
                    forall|i: int|
                        0 <= i < heights@.len() ==> #[trigger] heights@[i] == sampled_column(
                            heightmap@,
                            i % w,
                            i / w,
                            y_height as int,
                        ) && 1 <= heights@[i] <= y_height,
                decreases x_width - x,
            {
                let center = Coordinates(x, 0, z).center();
                let height = heightmap.height_at(&Vec2(center.0, center.2));
                let scaled = scale_height(height, y_height);
                proof {
                    vstd::arithmetic::div_mod::lemma_fundamental_div_mod_converse(
                        z * w + x,
                        w,
                        z as int,
                        x as int,
                    );
                }
                let ghost before = heights@;
                heights.push(scaled);
                proof {
                    assert(center.0 as int == column_center(x as int));
                    assert(center.2 as int == column_center(z as int));
                    assert(scaled == sampled_column(
                        heightmap@,
                        x as int,
                        z as int,
                        y_height as int,
                    ));
                    assert forall|i: int| 0 <= i < heights@.len() implies #[trigger] heights@[i]
                        == sampled_column(heightmap@, i % w, i / w, y_height as int) && 1
                        <= heights@[i] <= y_height by {
                        if i < before.len() {
                            assert(heights@[i] == before[i]);
                        }
                    }
                }
                x = x + 1;
            }
            assert(z * w + w == (z + 1) * w) by (nonlinear_arith);
            z = z + 1;
        }
        assert(z_depth * w == x_width * z_depth) by (nonlinear_arith)
            requires
                w == x_width,
        ;
        let r = Self { x_width, z_depth, heights };
        assert forall|a: int, b: int| r.in_range(a, b) implies #[trigger] r.column(a, b)
            == sampled_column(heightmap@, a, b, y_height as int) && 1 <= r.column(a, b)
            <= y_height by {
            r.lemma_index_in_bounds(a, b);
            vstd::arithmetic::div_mod::lemma_fundamental_div_mod_converse(b * w + a, w, b, a);
        }
        r
    }

    /// The height of column (x, z), or 0 outside `[0, x_width) × [0, z_depth)`.
    pub fn height_at(&self, x: i32, z: i32) -> (r: i32)
        requires
            self.wf(),
        ensures
            r as int == self.column(x as int, z as int),
            !self.in_range(x as int, z as int) ==> r == 0,
            r >= 0,
    {
        if x < 0 || x >= self.x_width as i32 || z < 0 || z >= self.z_depth as i32 {
            0
        } else {
            proof {
                self.lemma_index_in_bounds(x as int, z as int);
            }
            let n = self.heights.len();
            assert(z * self.x_width <= z * self.x_width + x < n);
            let index = (z as usize) * (self.x_width as usize) + (x as usize);
            self.heights[index]
        }
    }

    /// The block at `index` if that voxel is solid.
    pub fn block_at(&self, index: GlobalIndex) -> (r: Option<Block>)
        requires
            self.wf(),
        ensures
            r.is_some() == self.solid(index@),
            r.is_some() ==> r.unwrap().index == index,
    {
        if self.height_at(index.x(), index.z()) >= index.y() {
            Some(Block::new(index))
        } else {
            None
        }
    }

    /// Lowers column (x, z) by one, unless it lies outside the grid or is already at zero.
    pub fn decrement_height_at(&mut self, x: i32, z: i32)
        requires
            old(self).wf(),
        ensures
            final(self).wf(),
            final(self).lowered(*old(self), x as int, z as int),
            final(self).column(x as int, z as int) >= 0,
    {
        if x >= 0 && x < self.x_width as i32 && z >= 0 && z < self.z_depth as i32 {
            proof {
                self.lemma_index_in_bounds(x as int, z as int);
            }
            let n = self.heights.len();
            assert(z * self.x_width <= z * self.x_width + x < n);
            let index = (z as usize) * (self.x_width as usize) + (x as usize);
            if self.heights[index] > 0 {
                let h = self.heights[index];
                self.heights.set(index, h - 1);
                proof {
                    assert forall|a: int, b: int|
                        (a, b) != (x as int, z as int) implies #[trigger] self.column(a, b)
                        == old(self).column(a, b) by {
                        if self.in_range(a, b) {
                            self.lemma_index_in_bounds(a, b);
                            let w = self.x_width as int;
                            assert(b * w + a != z * w + x) by (nonlinear_arith)
                                requires
                                    (a, b) != (x as int, z as int),
                                    0 <= a < w,
                                    0 <= x < w,
                            ;
                        }
                    }
                }
            }
        }
    }

    /// Every voxel that may have an exposed face, once each: for each column, the layers from
    /// the lowest neighbouring height (or its own, if lower) up to its own height; columns
    /// row by row of z, each row by x.
    pub fn visible_block_positions(&self) -> (r: Vec<GlobalIndex>)
        requires
            self.wf(),
        ensures
            cells_of(r@) == self.visible_sequence(),
            cells_of(r@).no_duplicates(),
            forall|c: (int, int, int)|
                #[trigger] cells_of(r@).contains(c) <==> self.visible(c),
    {
        let ghost w = self.x_width as int;
        let x_width = self.x_width as i32;
        let z_depth = self.z_depth as i32;
        let mut out: Vec<GlobalIndex> = Vec::new();
        let mut z: i32 = 0;
        while z < z_depth
            invariant
                self.wf(),
                x_width == self.x_width,
                z_depth == self.z_depth,
                0 <= z <= z_depth,
                w == self.x_width,
                cells_of(out@) == self.visible_prefix((z * w) as nat),
                cells_of(out@).no_duplicates(),
                forall|c: (int, int, int)|
                    #[trigger] cells_of(out@).contains(c) <==> (
                    self.visible(c) && c.2 < z),
            decreases z_depth - z,
        {
            let mut x: i32 = 0;
            while x < x_width
                invariant
                    self.wf(),
                    x_width == self.x_width,
                    z_depth == self.z_depth,
                    0 <= z < z_depth,
                    0 <= x <= x_width,
                    w == self.x_width,
                    cells_of(out@) == self.visible_prefix((z * w + x) as nat),
                    cells_of(out@).no_duplicates(),
                    forall|c: (int, int, int)|
                        #[trigger] cells_of(out@).contains(c) <==> (
                        self.visible(c) && (c.2 < z || (c.2 == z && c.0 < x))),
                decreases x_width - x,
            {
                let y_max = self.height_at(x, z);
                let right = self.height_at(x + 1, z);
                let left = if x > 0 { self.height_at(x - 1, z) } else { 0 };
                let far = if z < i32::MAX { self.height_at(x, z + 1) } else { 0 };
                let near = if z > 0 { self.height_at(x, z - 1) } else { 0 };
                let min_neighbor_height = min_i32(min_i32(right, left), min_i32(far, near));
                let y_min = min_i32(y_max, min_neighbor_height);
                assert(y_min == self.lowest_visible(x as int, z as int));
                let mut y: i64 = y_min as i64;
                while y <= y_max as i64
                    invariant
                        self.wf(),
                        x_width == self.x_width,
                        z_depth == self.z_depth,
                        0 <= z < z_depth,
                        0 <= x < x_width,
                        y_min == self.lowest_visible(x as int, z as int),
                        y_max == self.column(x as int, z as int),
                        y_min <= y <= y_max + 1,
                        w == self.x_width,
                        cells_of(out@) == self.visible_prefix((z * w + x) as nat) + self.column_run(
                            x as int,
                            z as int,
                        ).take(y - y_min),
                        cells_of(out@).no_duplicates(),
                        forall|c: (int, int, int)|
                            #[trigger] cells_of(out@).contains(c) <==> (
                            self.visible(c) && (c.2 < z || (c.2 == z && c.0 < x) || (c.2 == z
                                && c.0 == x && c.1 < y))),
                    decreases y_max + 1 - y,
                {
                    let ghost before = cells_of(out@);
                    out.push(GlobalIndex(x, y as i32, z));
                    proof {
                        let after = cells_of(out@);
                        let c_new = (x as int, y as int, z as int);
                        assert(after =~= before.push(c_new));
                        let run = self.column_run(x as int, z as int);
                        assert(run[y - y_min] == c_new);
                        assert(run.take(y - y_min + 1) =~= run.take(y - y_min).push(c_new));
                        assert(after =~= self.visible_prefix((z * w + x) as nat) + run.take(
                            y - y_min + 1,
                        ));
                        assert(!before.contains(c_new));
                        assert forall|i: int, j: int|
                            0 <= i < after.len() && 0 <= j < after.len() && i != j implies after[i]
                            != after[j] by {
                            if i < before.len() && j < before.len() {
                                assert(after[i] == before[i] && after[j] == before[j]);
                            } else if i < before.len() {
                                assert(after[i] == before[i]);
                            } else if j < before.len() {
                                assert(after[j] == before[j]);
                            }
                        }
                        assert forall|c: (int, int, int)|
                            #[trigger] after.contains(c) <==> (self.visible(c) && (c.2 < z || (
                            c.2 == z && c.0 < x) || (c.2 == z && c.0 == x && c.1 < y + 1))) by {
                            if c == (x as int, y as int, z as int) {
                                assert(after[before.len() as int] == c);
                            } else if before.contains(c) {
                                let i = choose|i: int| 0 <= i < before.len() && before[i] == c;
                                assert(after[i] == c);
                            } else if after.contains(c) {
                                let i = choose|i: int| 0 <= i < after.len() && after[i] == c;
                                assert(i < before.len());
                                assert(before[i] == c);
                            }
                        }
                    }
                    y = y + 1;
                }
                proof {
                    let k = z * w + x;
                    vstd::arithmetic::div_mod::lemma_fundamental_div_mod_converse(
                        k,
                        w,
                        z as int,
                        x as int,
                    );
                    let run = self.column_run(x as int, z as int);
                    assert(run.take(y - y_min) =~= run);
                    assert(self.visible_prefix((k + 1) as nat) == self.visible_prefix(k as nat)
                        + run);
                }
                x = x + 1;
            }
            assert(z * w + w == (z + 1) * w) by (nonlinear_arith);
            z = z + 1;
        }
        assert(z_depth * w == self.x_width * self.z_depth) by (nonlinear_arith)
            requires
                w == self.x_width,
                z_depth == self.z_depth,
        ;
        out
    }
}

} // verus!
