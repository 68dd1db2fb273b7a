use vstd::prelude::*;

use crate::math::{Vec3, cell_of, floor_cell, within_reach};

verus! {

/// One voxel cell, by the integer coordinates of its lowest corner.
#[derive(Debug, Clone, Copy, PartialEq, Eq, Structural)]
pub struct GlobalIndex(pub i32, pub i32, pub i32);

impl GlobalIndex {
    pub open spec fn view(&self) -> (int, int, int) {
        (self.0 as int, self.1 as int, self.2 as int)
    }

    pub fn x(&self) -> (r: i32)
        ensures
            r == self.0,
    {
        self.0
    }

    pub fn y(&self) -> (r: i32)
        ensures
            r == self.1,
    {
        self.1
    }

    pub fn z(&self) -> (r: i32)
        ensures
            r == self.2,
    {
        self.2
    }

    /// The cell that contains `value`, each coordinate rounded down.
    pub fn from(value: Vec3) -> (r: GlobalIndex)
        requires
            value.in_reach(),
        ensures
            r@ == (cell_of(value.0 as int), cell_of(value.1 as int), cell_of(value.2 as int)),
    {
        GlobalIndex(floor_cell(value.0), floor_cell(value.1), floor_cell(value.2))
    }
}

/// The integers from `a` to `b` inclusive, in the order that leads from `a` to `b`.
pub open spec fn span(a: int, b: int) -> Seq<int> {
    if a <= b {
        Seq::new((b - a + 1) as nat, |i: int| a + i)
    } else {
        Seq::new((a - b + 1) as nat, |i: int| a - i)
    }
}

#[derive(Debug, Clone, Copy, PartialEq, Eq, Structural)]
pub enum Direction {
    Ascending,
    Descending,
}

impl Direction {
    pub open spec fn spec_step(&self) -> int {
        match self {
            Direction::Ascending => 1,
            Direction::Descending => -1,
        }
    }

    pub fn step(&self) -> (r: i32)
        ensures
            r as int == self.spec_step(),
    {
        match self {
            Direction::Ascending => 1,
            Direction::Descending => -1,
        }
    }
}

/// The integers from a start to an end, both included, counting up or down.
pub struct BidirectionalRange {
    pub next: i64,
    pub end: i64,
    pub direction: Direction,
}

impl BidirectionalRange {
    pub open spec fn wf(&self) -> bool {
        &&& i32::MIN <= self.end <= i32::MAX
        &&& match self.direction {
            Direction::Ascending => i32::MIN <= self.next <= self.end + 1,
            Direction::Descending => self.end - 1 <= self.next <= i32::MAX,
        }
    }

    /// How many values are still to come.
    pub open spec fn remaining(&self) -> int {
        match self.direction {
            Direction::Ascending => self.end - self.next + 1,
            Direction::Descending => self.next - self.end + 1,
        }
    }

    /// The values still to come, in order.
    pub open spec fn view(&self) -> Seq<int> {
        Seq::new(self.remaining() as nat, |i: int| self.next + i * self.direction.spec_step())
    }

    pub fn new(start: i32, end: i32) -> (r: Self)
        ensures
            r.wf(),
            r@ == span(start as int, end as int),
            r.direction == (if start > end {
                Direction::Descending
            } else {
                Direction::Ascending
            }),
    {
        let direction = if start > end {
            Direction::Descending
        } else {
            Direction::Ascending
        };
        let r = Self { next: start as i64, end: end as i64, direction };
        assert(r@ =~= span(start as int, end as int));
        r
    }

    /// Yields the next value, or `None` once the end has been passed.
    pub fn next(&mut self) -> (r: Option<i32>)
        requires
            old(self).wf(),
        ensures
            final(self).wf(),
            final(self).end == old(self).end,
            final(self).direction == old(self).direction,
            old(self)@.len() > 0 ==> r == Some(old(self)@[0] as i32) && final(self)@ == old(
                self,
            )@.drop_first(),
            old(self)@.len() == 0 ==> r.is_none() && final(self)@ == old(self)@,
    {
        let value = self.next;
        match self.direction {
            Direction::Ascending => {
                if value <= self.end {
                    self.next = value + 1;
                    assert(self@ =~= old(self)@.drop_first());
                    Some(value as i32)
                } else {
                    None
                }
            },
            Direction::Descending => {
                if value >= self.end {
                    self.next = value - 1;
                    assert(self@ =~= old(self)@.drop_first());
                    Some(value as i32)
                } else {
                    None
                }
            },
        }
    }
}

/// The cells along one axis between two cells that share the other two coordinates.
pub enum GlobalIndexRange {
    X { x_range: BidirectionalRange, y: i32, z: i32 },
    Y { y_range: BidirectionalRange, x: i32, z: i32 },
    Z { x: i32, y: i32, z_range: BidirectionalRange },
}

impl GlobalIndexRange {
    pub open spec fn wf(&self) -> bool {
        match self {
            GlobalIndexRange::X { x_range, .. } => x_range.wf(),
            GlobalIndexRange::Y { y_range, .. } => y_range.wf(),
            GlobalIndexRange::Z { z_range, .. } => z_range.wf(),
        }
    }

    /// The cells still to come, in order.
    pub open spec fn view(&self) -> Seq<(int, int, int)> {
        match self {
            GlobalIndexRange::X { x_range, y, z } => x_range@.map_values(
                |v: int| (v, *y as int, *z as int),
            ),
            GlobalIndexRange::Y { y_range, x, z } => y_range@.map_values(
                |v: int| (*x as int, v, *z as int),
            ),
            GlobalIndexRange::Z { x, y, z_range } => z_range@.map_values(
                |v: int| (*x as int, *y as int, v),
            ),
        }
    }

    /// The cells crossed by moving from `start` by `distance` along the x axis.
    pub fn along_x_axis(start: Vec3, distance: i64) -> (r: Self)
        requires
            start.in_reach(),
            within_reach(start.0 + distance),
        ensures
            r.wf(),
            r@ == span(cell_of(start.0 as int), cell_of(start.0 + distance)).map_values(
                |v: int| (v, cell_of(start.1 as int), cell_of(start.2 as int)),
            ),
    {
        let start_index = GlobalIndex::from(start);
        let end_index = GlobalIndex::from(start.set_x(start.0 + distance));
        let x_range = BidirectionalRange::new(start_index.x(), end_index.x());
        GlobalIndexRange::X { x_range, y: start_index.y(), z: start_index.z() }
    }

    /// The cells crossed by moving from `start` by `distance` along the y axis.
    pub fn along_y_axis(start: Vec3, distance: i64) -> (r: Self)
        requires
            start.in_reach(),
            within_reach(start.1 + distance),
        ensures
            r.wf(),
            r@ == span(cell_of(start.1 as int), cell_of(start.1 + distance)).map_values(
                |v: int| (cell_of(start.0 as int), v, cell_of(start.2 as int)),
            ),
    {
        let start_index = GlobalIndex::from(start);
        let end_index = GlobalIndex::from(start.set_y(start.1 + distance));
        let y_range = BidirectionalRange::new(start_index.y(), end_index.y());
        GlobalIndexRange::Y { y_range, x: start_index.x(), z: start_index.z() }
    }

    /// The cells crossed by moving from `start` by `distance` along the z axis.
    pub fn along_z_axis(start: Vec3, distance: i64) -> (r: Self)
        requires
            start.in_reach(),
            within_reach(start.2 + distance),
        ensures
            r.wf(),
            r@ == span(cell_of(start.2 as int), cell_of(start.2 + distance)).map_values(
                |v: int| (cell_of(start.0 as int), cell_of(start.1 as int), v),
            ),
    {
        let start_index = GlobalIndex::from(start);
        let end_index = GlobalIndex::from(start.set_z(start.2 + distance));
        let z_range = BidirectionalRange::new(start_index.z(), end_index.z());
        GlobalIndexRange::Z { x: start_index.x(), y: start_index.y(), z_range }
    }

    /// Yields the next cell, or `None` once the range is spent.
    pub fn next(&mut self) -> (r: Option<GlobalIndex>)
        requires
            old(self).wf(),
        ensures
            final(self).wf(),
            old(self)@.len() > 0 ==> r.is_some() && r.unwrap()@ == old(self)@[0] && final(self)@
                == old(self)@.drop_first(),
            old(self)@.len() == 0 ==> r.is_none() && final(self)@ == old(self)@,
    {
        match self {
            GlobalIndexRange::X { x_range, y, z } => {
                let r = match x_range.next() {
                    Some(x) => Some(GlobalIndex(x, *y, *z)),
                    None => None,
                };
                proof {
                    assert(self@ =~= old(self)@.drop_first() || old(self)@.len() == 0);
                }
                r
            },
            GlobalIndexRange::Y { y_range, x, z } => {
                let r = match y_range.next() {
                    Some(y) => Some(GlobalIndex(*x, y, *z)),
                    None => None,
                };
                proof {
                    assert(self@ =~= old(self)@.drop_first() || old(self)@.len() == 0);
                }
                r
            },
            GlobalIndexRange::Z { x, y, z_range } => {
                let r = match z_range.next() {
                    Some(z) => Some(GlobalIndex(*x, *y, z)),
                    None => None,
                };
                proof {
                    assert(self@ =~= old(self)@.drop_first() || old(self)@.len() == 0);
                }
                r
            },
        }
    }
}

} // verus!
