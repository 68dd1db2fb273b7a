use vstd::prelude::*;

use crate::math::{POSITION_LIMIT, UNIT, Vec3, cell_of, within_reach};
use crate::noise::{Heightmap, generated_grid};
use crate::terrain::{Block, Terrain, cells_of, clamp_int, sampled_column};
use crate::traversal::{GlobalIndex, GlobalIndexRange, span};

verus! {

/// How far from a block's face the camera stops, in thousandths of a unit.
pub const BUFFER_DISTANCE: i64 = 20;

/// The first solid cell of `cells`, if any.
pub open spec fn first_solid(
    terrain: Terrain,
    cells: Seq<(int, int, int)>,
) -> Option<(int, int, int)>
    decreases cells.len(),
{
    if cells.len() == 0 {
        None
    } else if terrain.solid(cells[0]) {
        Some(cells[0])
    } else {
        first_solid(terrain, cells.drop_first())
    }
}

/// Where a move of `d` from coordinate `p` ends when nothing is in the way: `p + d`, kept
/// within reach.
pub open spec fn target(p: int, d: int) -> int {
    clamp_int(p + d, -POSITION_LIMIT, POSITION_LIMIT as int)
}

/// Coordinate `axis` (0 for x, 1 for y, 2 for z) of `v`.
pub open spec fn coord(v: Vec3, axis: int) -> int {
    if axis == 0 {
        v.0 as int
    } else if axis == 1 {
        v.1 as int
    } else {
        v.2 as int
    }
}

/// Coordinate `axis` of a cell.
pub open spec fn cell_coord(c: (int, int, int), axis: int) -> int {
    if axis == 0 {
        c.0
    } else if axis == 1 {
        c.1
    } else {
        c.2
    }
}

/// The cells met when moving from `pos` by `d` along `axis`, the starting cell first.
pub open spec fn path_cells(pos: Vec3, axis: int, d: int) -> Seq<(int, int, int)> {
    let cx = cell_of(pos.0 as int);
    let cy = cell_of(pos.1 as int);
    let cz = cell_of(pos.2 as int);
    let s = span(cell_of(coord(pos, axis)), cell_of(target(coord(pos, axis), d)));
    if axis == 0 {
        s.map_values(|v: int| (v, cy, cz))
    } else if axis == 1 {
        s.map_values(|v: int| (cx, v, cz))
    } else {
        s.map_values(|v: int| (cx, cy, v))
    }
}

/// The coordinate along `axis` after moving from `pos` by `d`: just short of the first
/// solid cell past the starting one, by `BUFFER_DISTANCE`, or the full move if there is none.
pub open spec fn resolved(terrain: Terrain, pos: Vec3, axis: int, d: int) -> int {
    match first_solid(terrain, path_cells(pos, axis, d).drop_first()) {
        Some(c) => if d > 0 {
            cell_coord(c, axis) * UNIT - BUFFER_DISTANCE
        } else {
            (cell_coord(c, axis) + 1) * UNIT + BUFFER_DISTANCE
        },
        None => target(coord(pos, axis), d),
    }
}

/// `v` with coordinate `axis` replaced by `value`.
pub open spec fn with_coord(v: Vec3, axis: int, value: int) -> Vec3 {
    if axis == 0 {
        Vec3(value as i64, v.1, v.2)
    } else if axis == 1 {
        Vec3(v.0, value as i64, v.2)
    } else {
        Vec3(v.0, v.1, value as i64)
    }
}

/// The position after moving by `velocity`, resolved along x, then y, then z, each axis
/// starting where the one before stopped.
pub open spec fn moved(terrain: Terrain, pos: Vec3, velocity: Vec3) -> Vec3 {
    let p1 = with_coord(pos, 0, resolved(terrain, pos, 0, velocity.0 as int));
    let p2 = with_coord(p1, 1, resolved(terrain, p1, 1, velocity.1 as int));
    with_coord(p2, 2, resolved(terrain, p2, 2, velocity.2 as int))
}

/// A solid cell that `first_solid` returns stands at some place in `cells`, and every cell
/// before it is clear.
pub proof fn lemma_first_solid_found(terrain: Terrain, cells: Seq<(int, int, int)>)
    requires
        first_solid(terrain, cells).is_some(),
    ensures
        exists|i: int|
            {
                &&& 0 <= i < cells.len()
                &&& cells[i] == first_solid(terrain, cells).unwrap()
                &&& terrain.solid(cells[i])
                &&& forall|j: int| 0 <= j < i ==> !terrain.solid(#[trigger] cells[j])
            },
    decreases cells.len(),
{
    if terrain.solid(cells[0]) {
        assert(cells[0] == first_solid(terrain, cells).unwrap());
    } else {
        let rest = cells.drop_first();
        lemma_first_solid_found(terrain, rest);
        let i = choose|i: int|
            {
                &&& 0 <= i < rest.len()
                &&& rest[i] == first_solid(terrain, rest).unwrap()
                &&& terrain.solid(rest[i])
                &&& forall|j: int| 0 <= j < i ==> !terrain.solid(#[trigger] rest[j])
            };
        assert(cells[i + 1] == rest[i]);
        assert forall|j: int| 0 <= j < i + 1 implies !terrain.solid(#[trigger] cells[j]) by {
            if j > 0 {
                assert(cells[j] == rest[j - 1]);
            }
        }
    }
}

/// Where no cell of `cells` is solid, `first_solid` finds none.
pub proof fn lemma_first_solid_none(terrain: Terrain, cells: Seq<(int, int, int)>)
    requires
        forall|i: int| 0 <= i < cells.len() ==> !terrain.solid(#[trigger] cells[i]),
    ensures
        first_solid(terrain, cells).is_none(),
    decreases cells.len(),
{
    if cells.len() > 0 {
        let rest = cells.drop_first();
        assert forall|i: int| 0 <= i < rest.len() implies !terrain.solid(#[trigger] rest[i]) by {
            assert(rest[i] == cells[i + 1]);
        }
        lemma_first_solid_none(terrain, rest);
    }
}

/// When no cell past the starting one is solid along the path, the move goes through in
/// full: the coordinate becomes `p + d` whenever that is within reach.
pub proof fn lemma_no_collision_passthrough(terrain: Terrain, pos: Vec3, axis: int, d: int)
    requires
        forall|i: int|
            0 <= i < path_cells(pos, axis, d).drop_first().len() ==> !terrain.solid(
                #[trigger] path_cells(pos, axis, d).drop_first()[i],
            ),
    ensures
        resolved(terrain, pos, axis, d) == target(coord(pos, axis), d),
        within_reach(coord(pos, axis) + d) ==> resolved(terrain, pos, axis, d) == coord(pos, axis)
            + d,
{
    lemma_first_solid_none(terrain, path_cells(pos, axis, d).drop_first());
}

/// When a solid cell lies along the path past the starting one, the move stops at the first
/// such cell, `BUFFER_DISTANCE` short of the face it meets, and does not enter it.
pub proof fn lemma_collision_clamp(terrain: Terrain, pos: Vec3, axis: int, d: int)
    requires
        exists|i: int|
            0 <= i < path_cells(pos, axis, d).drop_first().len() && terrain.solid(
                #[trigger] path_cells(pos, axis, d).drop_first()[i],
            ),
    ensures
        first_solid(terrain, path_cells(pos, axis, d).drop_first()).is_some(),
        ({
            let c = first_solid(terrain, path_cells(pos, axis, d).drop_first()).unwrap();
            &&& path_cells(pos, axis, d).drop_first().contains(c)
            &&& terrain.solid(c)
            &&& d > 0 ==> resolved(terrain, pos, axis, d) == cell_coord(c, axis) * UNIT
                - BUFFER_DISTANCE && resolved(terrain, pos, axis, d) < cell_coord(c, axis) * UNIT
            &&& d <= 0 ==> resolved(terrain, pos, axis, d) == (cell_coord(c, axis) + 1) * UNIT
                + BUFFER_DISTANCE && resolved(terrain, pos, axis, d) > (cell_coord(c, axis) + 1)
                * UNIT
        }),
{
    let s = path_cells(pos, axis, d).drop_first();
    if first_solid(terrain, s).is_none() {
        assert forall|j: int| 0 <= j < s.len() implies !terrain.solid(#[trigger] s[j]) by {
            if terrain.solid(s[j]) {
                lemma_first_solid_exists(terrain, s, j);
            }
        }
        assert(false);
    }
    lemma_first_solid_found(terrain, s);
}

/// If `cells[j]` is solid, `first_solid` finds some cell.
proof fn lemma_first_solid_exists(terrain: Terrain, cells: Seq<(int, int, int)>, j: int)
    requires
        0 <= j < cells.len(),
        terrain.solid(cells[j]),
    ensures
        first_solid(terrain, cells).is_some(),
    decreases j,
{
    if !terrain.solid(cells[0]) {
        assert(cells.drop_first()[j - 1] == cells[j]);
        lemma_first_solid_exists(terrain, cells.drop_first(), j - 1);
    }
}

/// The resolved coordinate stays within reach.
proof fn lemma_resolved_in_reach(terrain: Terrain, pos: Vec3, axis: int, d: int)
    requires
        pos.in_reach(),
        0 <= axis <= 2,
        -POSITION_LIMIT <= d <= POSITION_LIMIT,
    ensures
        within_reach(resolved(terrain, pos, axis, d)),
{
    let s = path_cells(pos, axis, d).drop_first();
    let p = coord(pos, axis);
    let a = cell_of(p);
    let b = cell_of(target(p, d));
    if first_solid(terrain, s).is_some() {
        lemma_first_solid_found(terrain, s);
        let i = choose|i: int|
            0 <= i < s.len() && s[i] == first_solid(terrain, s).unwrap() && terrain.solid(s[i])
                && forall|j: int| 0 <= j < i ==> !terrain.solid(#[trigger] s[j]);
        let c = cell_coord(s[i], axis);
        assert(c == span(a, b)[i + 1]);
        if a <= b {
            assert(a < c <= b);
        } else {
            assert(b <= c < a);
        }
    }
}

/// Fixed-point steps of one radian: angles are held in millionths of a radian.
pub const RADIAN: i64 = 1_000_000;

/// Turn per unit of mouse movement, in millionths of a radian.
pub const MOUSE_SENSITIVITY: i64 = 10_000;

/// Speed along each axis while a direction is held, in thousandths of a unit per tick.
pub const MOVE_SPEED: i64 = 500;

/// The steepest pitch up or down: a quarter turn, in millionths of a radian.
pub const MAX_PITCH: i64 = 1_570_796;

/// The viewer: where it is, how it moves, and where it looks.
///
/// `velocity` is relative to the heading: its z component points forward. `heading` and
/// `pitch` are in millionths of a radian.
#[derive(Debug, Clone, Copy, PartialEq, Eq, Structural)]
pub struct Camera {
    pub position: Vec3,
    pub velocity: Vec3,
    pub heading: i64,
    pub pitch: i64,
}

impl Camera {
    pub open spec fn wf(&self) -> bool {
        &&& self.position.in_reach()
        &&& -MAX_PITCH <= self.pitch <= MAX_PITCH
        &&& -MOVE_SPEED <= self.velocity.0 <= MOVE_SPEED
        &&& -MOVE_SPEED <= self.velocity.1 <= MOVE_SPEED
        &&& -MOVE_SPEED <= self.velocity.2 <= MOVE_SPEED
    }

    pub fn position(&self) -> (r: &Vec3)
        ensures
            *r == self.position,
    {
        &self.position
    }

    pub fn velocity(&self) -> (r: &Vec3)
        ensures
            *r == self.velocity,
    {
        &self.velocity
    }

    pub fn heading(&self) -> (r: i64)
        ensures
            r == self.heading,
    {
        self.heading
    }

    pub fn pitch(&self) -> (r: i64)
        ensures
            r == self.pitch,
    {
        self.pitch
    }
}

/// The terrain and the camera that moves through it.
pub struct World {
    pub camera: Camera,
    pub terrain: Terrain,
}

impl World {
    pub open spec fn wf(&self) -> bool {
        self.camera.wf() && self.terrain.wf()
    }

    /// The first solid block in `range` after its first cell.
    fn find_collision(&self, cells: GlobalIndexRange) -> (r: Option<Block>)
        requires
            self.terrain.wf(),
            cells.wf(),
            cells@.len() > 0,
        ensures
            r.is_some() == first_solid(self.terrain, cells@.drop_first()).is_some(),
            r.is_some() ==> r.unwrap().index@ == first_solid(
                self.terrain,
                cells@.drop_first(),
            ).unwrap(),
    {
        let mut range = cells;
        let ghost rest = cells@.drop_first();
        let _ = range.next();
        assert(range@ == rest);
        loop
            invariant
                self.terrain.wf(),
                range.wf(),
                rest == cells@.drop_first(),
                first_solid(self.terrain, range@) == first_solid(self.terrain, rest),
            decreases range@.len(),
        {
            let ghost before = range@;
            match range.next() {
                Some(index) => {
                    if let Some(block) = self.terrain.block_at(index) {
                        assert(first_solid(self.terrain, before) == Some(index@));
                        return Some(block);
                    }
                },
                None => {
                    return None;
                },
            }
        }
    }

    /// Moves `position` by `move_distance` along x, stopping short of the first solid block.
    pub fn check_for_collisions_in_x_axis(&self, position: Vec3, move_distance: i64) -> (r: Vec3)
        requires
            self.terrain.wf(),
            position.in_reach(),
            -POSITION_LIMIT <= move_distance <= POSITION_LIMIT,
        ensures
            r == with_coord(position, 0, resolved(self.terrain, position, 0, move_distance as int)),
            r.in_reach(),
    {
        proof {
            lemma_resolved_in_reach(self.terrain, position, 0, move_distance as int);
        }
        let end = clamp_coordinate(position.x() + move_distance);
        let range = GlobalIndexRange::along_x_axis(position, end - position.x());
        assert(range@ == path_cells(position, 0, move_distance as int));
        if let Some(block) = self.find_collision(range) {
            if move_distance > 0 {
                position.set_x(block.left() - BUFFER_DISTANCE)
            } else {
                position.set_x(block.right() + BUFFER_DISTANCE)
            }
        } else {
            position.set_x(end)
        }
    }

    /// Moves `position` by `move_distance` along y, stopping short of the first solid block.
    pub fn check_for_collisions_in_y_axis(&self, position: Vec3, move_distance: i64) -> (r: Vec3)
        requires
            self.terrain.wf(),
            position.in_reach(),
            -POSITION_LIMIT <= move_distance <= POSITION_LIMIT,
        ensures
            r == with_coord(position, 1, resolved(self.terrain, position, 1, move_distance as int)),
            r.in_reach(),
    {
        proof {
            lemma_resolved_in_reach(self.terrain, position, 1, move_distance as int);
        }
        let end = clamp_coordinate(position.y() + move_distance);
        let range = GlobalIndexRange::along_y_axis(position, end - position.y());
        assert(range@ == path_cells(position, 1, move_distance as int));
        if let Some(block) = self.find_collision(range) {
            if move_distance > 0 {
                position.set_y(block.bottom() - BUFFER_DISTANCE)
            } else {
                position.set_y(block.top() + BUFFER_DISTANCE)
            }
        } else {
            position.set_y(end)
        }
    }

    /// Moves `position` by `move_distance` along z, stopping short of the first solid block.
    pub fn check_for_collisions_in_z_axis(&self, position: Vec3, move_distance: i64) -> (r: Vec3)
        requires
            self.terrain.wf(),
            position.in_reach(),
            -POSITION_LIMIT <= move_distance <= POSITION_LIMIT,
        ensures
            r == with_coord(position, 2, resolved(self.terrain, position, 2, move_distance as int)),
            r.in_reach(),
    {
        proof {
            lemma_resolved_in_reach(self.terrain, position, 2, move_distance as int);
        }
        let end = clamp_coordinate(position.z() + move_distance);
        let range = GlobalIndexRange::along_z_axis(position, end - position.z());
        assert(range@ == path_cells(position, 2, move_distance as int));
        if let Some(block) = self.find_collision(range) {
            if move_distance > 0 {
                position.set_z(block.near() - BUFFER_DISTANCE)
            } else {
                position.set_z(block.far() + BUFFER_DISTANCE)
            }
        } else {
            position.set_z(end)
        }
    }

    /// Moves `position` by `velocity` along x, then y, then z, each axis starting where the
    /// one before stopped.
    pub fn check_for_collisions(&self, position: Vec3, velocity: Vec3) -> (r: Vec3)
        requires
            self.terrain.wf(),
            position.in_reach(),
            -POSITION_LIMIT <= velocity.0 <= POSITION_LIMIT,
            -POSITION_LIMIT <= velocity.1 <= POSITION_LIMIT,
            -POSITION_LIMIT <= velocity.2 <= POSITION_LIMIT,
        ensures
            r == moved(self.terrain, position, velocity),
            r.in_reach(),
    {
        let position = self.check_for_collisions_in_x_axis(position, velocity.x());
        let position = self.check_for_collisions_in_y_axis(position, velocity.y());
        self.check_for_collisions_in_z_axis(position, velocity.z())
    }

    /// A world of `x_width × z_depth` columns up to `y_height` high, shaped by a heightmap of
    /// 16 × 16 cells of 16 units, with the camera at rest above the middle of its near edge.
    pub fn new(x_width: u32, y_height: u32, z_depth: u32) -> (r: Self)
        requires
            1 <= y_height,
            within_reach((y_height + 1) * UNIT),
            x_width <= i32::MAX,
            z_depth <= i32::MAX,
        ensures
            r.wf(),
            r.camera == (Camera {
                position: Vec3(((x_width / 2) * UNIT) as i64, ((y_height + 1) * UNIT) as i64, 0),
                velocity: Vec3(0, 0, 0),
                heading: 0,
                pitch: 0,
            }),
            r.terrain.x_width == x_width,
            r.terrain.z_depth == z_depth,
            forall|x: int, z: int|
                r.terrain.in_range(x, z) ==> #[trigger] r.terrain.column(x, z) == sampled_column(
                    generated_grid(16 * UNIT, 16, 16),
                    x,
                    z,
                    y_height as int,
                ),
    {
        let starting_position = Vec3((x_width / 2) as i64 * UNIT, (y_height as i64 + 1) * UNIT, 0);
        let camera = Camera {
            position: starting_position,
            velocity: Vec3(0, 0, 0),
            heading: 0,
            pitch: 0,
        };
        let heightmap = Heightmap::new(16 * UNIT, 16, 16);
        let terrain = Terrain::from_heightmap(heightmap, x_width, y_height, z_depth);
        World { camera, terrain }
    }

    /// Moves the camera by `heading_velocity`, its velocity already turned by the heading,
    /// through the collision resolver.
    pub fn advance(&mut self, heading_velocity: Vec3)
        requires
            old(self).wf(),
            -POSITION_LIMIT <= heading_velocity.0 <= POSITION_LIMIT,
            -POSITION_LIMIT <= heading_velocity.1 <= POSITION_LIMIT,
            -POSITION_LIMIT <= heading_velocity.2 <= POSITION_LIMIT,
        ensures
            final(self).wf(),
            final(self).terrain == old(self).terrain,
            final(self).camera == (Camera {
                position: moved(old(self).terrain, old(self).camera.position, heading_velocity),
                ..old(self).camera
            }),
    {
        self.camera.position = self.check_for_collisions(self.camera.position, heading_velocity);
    }

    /// Every voxel that may have an exposed face, once each, row by row of z, each row by
    /// x, each column from its lowest shown layer up.
    pub fn visible_block_positions(&self) -> (r: Vec<GlobalIndex>)
        requires
            self.wf(),
        ensures
            cells_of(r@) == self.terrain.visible_sequence(),
            cells_of(r@).no_duplicates(),
            forall|c: (int, int, int)|
                #[trigger] cells_of(r@).contains(c) <==> self.terrain.visible(c),
    {
        self.terrain.visible_block_positions()
    }

    /// Starts moving forward, along the heading.
    pub fn start_moving_forward(&mut self)
        requires
            old(self).wf(),
        ensures
            final(self).wf(),
            final(self).terrain == old(self).terrain,
            ({
                let v = old(self).camera.velocity;
                final(self).camera == Camera {
                    velocity: Vec3(v.0, v.1, MOVE_SPEED),
                    ..old(self).camera
                }
            }),
    {
        self.camera.velocity = self.camera.velocity.set_z(MOVE_SPEED);
    }

    /// Stops moving forward: the z component of the velocity becomes zero.
    pub fn stop_moving_forward(&mut self)
        requires
            old(self).wf(),
        ensures
            final(self).wf(),
            final(self).terrain == old(self).terrain,
            ({
                let v = old(self).camera.velocity;
                final(self).camera == Camera {
                    velocity: Vec3(v.0, v.1, 0),
                    ..old(self).camera
                }
            }),
    {
        self.camera.velocity = self.camera.velocity.set_z(0);
    }

    /// Starts moving backward, against the heading.
    pub fn start_moving_backward(&mut self)
        requires
            old(self).wf(),
        ensures
            final(self).wf(),
            final(self).terrain == old(self).terrain,
            ({
                let v = old(self).camera.velocity;
                final(self).camera == Camera {
                    velocity: Vec3(v.0, v.1, (-MOVE_SPEED) as i64),
                    ..old(self).camera
                }
            }),
    {
        self.camera.velocity = self.camera.velocity.set_z(-MOVE_SPEED);
    }

    /// Stops moving backward: the z component of the velocity becomes zero.
    pub fn stop_moving_backward(&mut self)
        requires
            old(self).wf(),
        ensures
            final(self).wf(),
            final(self).terrain == old(self).terrain,
            ({
                let v = old(self).camera.velocity;
                final(self).camera == Camera {
                    velocity: Vec3(v.0, v.1, 0),
                    ..old(self).camera
                }
            }),
    {
        self.camera.velocity = self.camera.velocity.set_z(0);
    }

    /// Starts moving left of the heading.
    pub fn start_moving_left(&mut self)
        requires
            old(self).wf(),
        ensures
            final(self).wf(),
            final(self).terrain == old(self).terrain,
            ({
                let v = old(self).camera.velocity;
                final(self).camera == Camera {
                    velocity: Vec3((-MOVE_SPEED) as i64, v.1, v.2),
                    ..old(self).camera
                }
            }),
    {
        self.camera.velocity = self.camera.velocity.set_x(-MOVE_SPEED);
    }

    /// Stops moving left: the x component of the velocity becomes zero.
    pub fn stop_moving_left(&mut self)
        requires
            old(self).wf(),
        ensures
            final(self).wf(),
            final(self).terrain == old(self).terrain,
            ({
                let v = old(self).camera.velocity;
                final(self).camera == Camera {
                    velocity: Vec3(0, v.1, v.2),
                    ..old(self).camera
                }
            }),
    {
        self.camera.velocity = self.camera.velocity.set_x(0);
    }

    /// Starts moving right of the heading.
    pub fn start_moving_right(&mut self)
        requires
            old(self).wf(),
        ensures
            final(self).wf(),
            final(self).terrain == old(self).terrain,
            ({
                let v = old(self).camera.velocity;
                final(self).camera == Camera {
                    velocity: Vec3(MOVE_SPEED, v.1, v.2),
                    ..old(self).camera
                }
            }),
    {
        self.camera.velocity = self.camera.velocity.set_x(MOVE_SPEED);
    }

    /// Stops moving right: the x component of the velocity becomes zero.
    pub fn stop_moving_right(&mut self)
        requires
            old(self).wf(),
        ensures
            final(self).wf(),
            final(self).terrain == old(self).terrain,
            ({
                let v = old(self).camera.velocity;
                final(self).camera == Camera {
                    velocity: Vec3(0, v.1, v.2),
                    ..old(self).camera
                }
            }),
    {
        self.camera.velocity = self.camera.velocity.set_x(0);
    }

    /// Starts moving up.
    pub fn start_moving_up(&mut self)
        requires
            old(self).wf(),
        ensures
            final(self).wf(),
            final(self).terrain == old(self).terrain,
            ({
                let v = old(self).camera.velocity;
                final(self).camera == Camera {
                    velocity: Vec3(v.0, MOVE_SPEED, v.2),
                    ..old(self).camera
                }
            }),
    {
        self.camera.velocity = self.camera.velocity.set_y(MOVE_SPEED);
    }

    /// Stops moving up: the y component of the velocity becomes zero.
    pub fn stop_moving_up(&mut self)
        requires
            old(self).wf(),
        ensures
            final(self).wf(),
            final(self).terrain == old(self).terrain,
            ({
                let v = old(self).camera.velocity;
                final(self).camera == Camera {
                    velocity: Vec3(v.0, 0, v.2),
                    ..old(self).camera
                }
            }),
    {
        self.camera.velocity = self.camera.velocity.set_y(0);
    }

    /// Starts moving down.
    pub fn start_moving_down(&mut self)
        requires
            old(self).wf(),
        ensures
            final(self).wf(),
            final(self).terrain == old(self).terrain,
            ({
                let v = old(self).camera.velocity;
                final(self).camera == Camera {
                    velocity: Vec3(v.0, (-MOVE_SPEED) as i64, v.2),
                    ..old(self).camera
                }
            }),
    {
        self.camera.velocity = self.camera.velocity.set_y(-MOVE_SPEED);
    }

    /// Stops moving down: the y component of the velocity becomes zero.
    pub fn stop_moving_down(&mut self)
        requires
            old(self).wf(),
        ensures
            final(self).wf(),
            final(self).terrain == old(self).terrain,
            ({
                let v = old(self).camera.velocity;
                final(self).camera == Camera {
                    velocity: Vec3(v.0, 0, v.2),
                    ..old(self).camera
                }
            }),
    {
        self.camera.velocity = self.camera.velocity.set_y(0);
    }

    /// Turns the camera by mouse movement (dx, dy): the heading accumulates without bound,
    /// the pitch stops at a quarter turn up or down.
    pub fn update_camera_direction(&mut self, dx: i32, dy: i32)
        requires
            old(self).wf(),
            i64::MIN <= old(self).camera.heading + dx * MOUSE_SENSITIVITY <= i64::MAX,
        ensures
            final(self).wf(),
            final(self).terrain == old(self).terrain,
            final(self).camera.position == old(self).camera.position,
            final(self).camera.velocity == old(self).camera.velocity,
            final(self).camera.heading == old(self).camera.heading + dx * MOUSE_SENSITIVITY,
            final(self).camera.pitch == clamp_int(
                old(self).camera.pitch + dy * MOUSE_SENSITIVITY,
                -MAX_PITCH,
                MAX_PITCH as int,
            ),
            -MAX_PITCH <= final(self).camera.pitch <= MAX_PITCH,
    {
        self.camera.heading = self.camera.heading + dx as i64 * MOUSE_SENSITIVITY;
        let pitch = self.camera.pitch + dy as i64 * MOUSE_SENSITIVITY;
        self.camera.pitch = if pitch < -MAX_PITCH {
            -MAX_PITCH
        } else if pitch > MAX_PITCH {
            MAX_PITCH
        } else {
            pitch
        };
    }

    pub fn camera(&self) -> (r: &Camera)
        ensures
            *r == self.camera,
    {
        &self.camera
    }

    pub fn terrain(&self) -> (r: &Terrain)
        ensures
            *r == self.terrain,
    {
        &self.terrain
    }

    /// Lowers the column under the camera by one block.
    pub fn destroy_block(&mut self)
        requires
            old(self).wf(),
        ensures
            final(self).wf(),
            final(self).camera == old(self).camera,
            final(self).terrain.lowered(
                old(self).terrain,
                cell_of(old(self).camera.position.0 as int),
                cell_of(old(self).camera.position.2 as int),
            ),
    {
        let here = GlobalIndex::from(self.camera.position);
        let below = GlobalIndex(here.x(), here.y() - 1, here.z());
        self.destroy_block_at(below);
    }

    /// Lowers the column that holds `position` by one block.
    pub fn destroy_block_at(&mut self, position: GlobalIndex)
        requires
            old(self).wf(),
        ensures
            final(self).wf(),
            final(self).camera == old(self).camera,
            final(self).terrain.lowered(old(self).terrain, position.0 as int, position.2 as int),
    {
        self.terrain.decrement_height_at(position.x(), position.z());
    }
}

/// `v` kept within reach.
fn clamp_coordinate(v: i64) -> (r: i64)
    ensures
        r as int == clamp_int(v as int, -POSITION_LIMIT, POSITION_LIMIT as int),
{
    if v < -POSITION_LIMIT {
        -POSITION_LIMIT
    } else if v > POSITION_LIMIT {
        POSITION_LIMIT
    } else {
        v
    }
}

} // verus!
