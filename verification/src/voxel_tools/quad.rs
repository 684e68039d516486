//! One square face of a voxel, as it is handed to the mesh.

use crate::color::Color;
use crate::voxel_tools::direction::Direction;
use crate::voxel_tools::position::WorldPosition;
use vstd::prelude::*;

verus! {

/// A corner of a face. Faces lie half a voxel away from voxel centres, so the
/// coordinates are kept doubled: the point `(x / 2, y / 2, z / 2)`.
#[derive(Clone, Copy, Debug, PartialEq, Eq, Structural)]
pub struct QuadCorner {
    pub x: i64,
    pub y: i64,
    pub z: i64,
}

/// A unit square between a voxel and one of its neighbours, with the
/// direction it looks in and a colour. The corners are in world space, in the
/// order in which the two triangles `(0, 1, 2)` and `(0, 2, 3)` wind.
pub struct Quad {
    pub color: Color,
    pub direction: Direction,
    pub corners: [QuadCorner; 4],
}

/// The lowest value of the red and blue channels of a face colour.
pub const TINT_LOW: u8 = 0;

/// One more than the highest value of the red and blue channels.
pub const TINT_HIGH: u8 = 26;

/// The lowest value of the green channel of a face colour.
pub const GREEN_LOW: u8 = 153;

/// One more than the highest value of the green channel.
pub const GREEN_HIGH: u8 = 255;

/// The corner half a voxel away from the centre `pos` on each axis, toward
/// the side that the sign of `sx`, `sy` and `sz` (each 1 or -1) names.
pub open spec fn corner_at(pos: WorldPosition, sx: int, sy: int, sz: int) -> QuadCorner {
    QuadCorner {
        x: (2 * pos.x + sx) as i64,
        y: (2 * pos.y + sy) as i64,
        z: (2 * pos.z + sz) as i64,
    }
}

/// The four corners of the face that a voxel centred at `pos` shows in
/// `direction`. The face always lies on the voxel's negative side along the
/// axis of `direction`: a face that looks in a positive direction belongs to
/// the empty voxel in front of a solid one, and closes its far side.
pub open spec fn quad_corners(direction: Direction, pos: WorldPosition) -> Seq<QuadCorner> {
    match direction {
        Direction::Left => seq![
            corner_at(pos, -1, -1, -1),
            corner_at(pos, -1, -1, 1),
            corner_at(pos, -1, 1, 1),
            corner_at(pos, -1, 1, -1),
        ],
        Direction::Right => seq![
            corner_at(pos, -1, 1, -1),
            corner_at(pos, -1, 1, 1),
            corner_at(pos, -1, -1, 1),
            corner_at(pos, -1, -1, -1),
        ],
        Direction::Down => seq![
            corner_at(pos, -1, -1, -1),
            corner_at(pos, 1, -1, -1),
            corner_at(pos, 1, -1, 1),
            corner_at(pos, -1, -1, 1),
        ],
        Direction::Up => seq![
            corner_at(pos, -1, -1, 1),
            corner_at(pos, 1, -1, 1),
            corner_at(pos, 1, -1, -1),
            corner_at(pos, -1, -1, -1),
        ],
        Direction::Back => seq![
            corner_at(pos, -1, -1, -1),
            corner_at(pos, -1, 1, -1),
            corner_at(pos, 1, 1, -1),
            corner_at(pos, 1, -1, -1),
        ],
        Direction::Forward => seq![
            corner_at(pos, 1, -1, -1),
            corner_at(pos, 1, 1, -1),
            corner_at(pos, -1, 1, -1),
            corner_at(pos, -1, -1, -1),
        ],
    }
}

/// Whether a colour is one that a face may get: a green with a slight tint,
/// fully opaque.
pub open spec fn is_face_color(color: Color) -> bool {
    &&& TINT_LOW <= color.0[0] < TINT_HIGH
    &&& GREEN_LOW <= color.0[1] < GREEN_HIGH
    &&& TINT_LOW <= color.0[2] < TINT_HIGH
    &&& color.0[3] == 255
}

/// `Rng::gen_range` on the generator of the running thread, over the range
/// from `low` up to, not including, `high`: some number of that range.
#[verifier::external_body]
fn random_in_range(low: u8, high: u8) -> (n: u8)
    requires
        low < high,
    ensures
        low <= n < high,
{
    rand::Rng::gen_range(&mut rand::thread_rng(), low..high)
}

impl WorldPosition {
    /// Whether the doubled coordinates of the corners around this point fit
    /// an `i64`.
    pub open spec fn has_corners(self) -> bool {
        &&& i64::MIN <= 2 * self.x - 1 && 2 * self.x + 1 <= i64::MAX
        &&& i64::MIN <= 2 * self.y - 1 && 2 * self.y + 1 <= i64::MAX
        &&& i64::MIN <= 2 * self.z - 1 && 2 * self.z + 1 <= i64::MAX
    }
}

impl Quad {
    /// The face of the voxel centred at `pos` that looks in `direction`, in a
    /// colour picked at random among the face colours.
    pub fn from_direction(direction: Direction, pos: WorldPosition) -> (quad: Self)
        requires
            pos.has_corners(),
        ensures
            quad.direction == direction,
            quad.corners@ == quad_corners(direction, pos),
            is_face_color(quad.color),
    {
        let red = random_in_range(TINT_LOW, TINT_HIGH);
        let green = random_in_range(GREEN_LOW, GREEN_HIGH);
        let blue = random_in_range(TINT_LOW, TINT_HIGH);
        Self::with_color(direction, pos, Color([red, green, blue, 255u8]))
    }

    /// The face of the voxel centred at `pos` that looks in `direction`, in
    /// the given colour.
    pub fn with_color(direction: Direction, pos: WorldPosition, color: Color) -> (quad: Self)
        requires
            pos.has_corners(),
        ensures
            quad.direction == direction,
            quad.corners@ == quad_corners(direction, pos),
            quad.color == color,
    {
        let lx: i64 = 2 * pos.x - 1;
        let hx: i64 = 2 * pos.x + 1;
        let ly: i64 = 2 * pos.y - 1;
        let hy: i64 = 2 * pos.y + 1;
        let lz: i64 = 2 * pos.z - 1;
        let hz: i64 = 2 * pos.z + 1;
        let corners = match direction {
            Direction::Left => [
                QuadCorner { x: lx, y: ly, z: lz },
                QuadCorner { x: lx, y: ly, z: hz },
                QuadCorner { x: lx, y: hy, z: hz },
                QuadCorner { x: lx, y: hy, z: lz },
            ],
            Direction::Right => [
                QuadCorner { x: lx, y: hy, z: lz },
                QuadCorner { x: lx, y: hy, z: hz },
                QuadCorner { x: lx, y: ly, z: hz },
                QuadCorner { x: lx, y: ly, z: lz },
            ],
            Direction::Down => [
                QuadCorner { x: lx, y: ly, z: lz },
                QuadCorner { x: hx, y: ly, z: lz },
                QuadCorner { x: hx, y: ly, z: hz },
                QuadCorner { x: lx, y: ly, z: hz },
            ],
            Direction::Up => [
                QuadCorner { x: lx, y: ly, z: hz },
                QuadCorner { x: hx, y: ly, z: hz },
                QuadCorner { x: hx, y: ly, z: lz },
                QuadCorner { x: lx, y: ly, z: lz },
            ],
            Direction::Back => [
                QuadCorner { x: lx, y: ly, z: lz },
                QuadCorner { x: lx, y: hy, z: lz },
                QuadCorner { x: hx, y: hy, z: lz },
                QuadCorner { x: hx, y: ly, z: lz },
            ],
            Direction::Forward => [
                QuadCorner { x: hx, y: ly, z: lz },
                QuadCorner { x: hx, y: hy, z: lz },
                QuadCorner { x: lx, y: hy, z: lz },
                QuadCorner { x: lx, y: ly, z: lz },
            ],
        };
        assert(corners@ =~= quad_corners(direction, pos));
        Self { corners, color, direction }
    }
}

/// The face lies in the plane half a voxel below the centre along the axis
/// of its direction, whichever way it looks, and spans the voxel's full
/// width on the two other axes.
pub proof fn lemma_quad_lies_on_negative_side(direction: Direction, pos: WorldPosition)
    requires
        pos.has_corners(),
    ensures
        quad_corners(direction, pos).len() == 4,
        forall|j: int|
            0 <= j < 4 ==> {
                let c = #[trigger] quad_corners(direction, pos)[j];
                &&& direction.axis() == crate::voxel_tools::direction::Axis::X ==> c.x == 2 * pos.x
                    - 1
                &&& direction.axis() == crate::voxel_tools::direction::Axis::Y ==> c.y == 2 * pos.y
                    - 1
                &&& direction.axis() == crate::voxel_tools::direction::Axis::Z ==> c.z == 2 * pos.z
                    - 1
                &&& c.x == 2 * pos.x - 1 || c.x == 2 * pos.x + 1
                &&& c.y == 2 * pos.y - 1 || c.y == 2 * pos.y + 1
                &&& c.z == 2 * pos.z - 1 || c.z == 2 * pos.z + 1
            },
{
}

/// Two faces with the same corners are one face: they belong to the same
/// voxel and lie along the same axis.
pub proof fn lemma_same_corners_same_face(
    one: Direction,
    here: WorldPosition,
    other: Direction,
    there: WorldPosition,
)
    requires
        here.has_corners(),
        there.has_corners(),
        forall|c: QuadCorner|
            quad_corners(one, here).contains(c) <==> quad_corners(other, there).contains(c),
    ensures
        here == there,
        one.axis() == other.axis(),
{
    let a = quad_corners(one, here);
    let b = quad_corners(other, there);
    assert(a.contains(a[0]) && a.contains(a[1]) && a.contains(a[2]) && a.contains(a[3]));
    assert(b.contains(b[0]) && b.contains(b[1]) && b.contains(b[2]) && b.contains(b[3]));
    lemma_quad_lies_on_negative_side(one, here);
    lemma_quad_lies_on_negative_side(other, there);
}

/// The cross product of the edges from corner `a` to `b` and from `a` to
/// `c`, in doubled coordinates.
pub open spec fn edge_cross(a: QuadCorner, b: QuadCorner, c: QuadCorner) -> (int, int, int) {
    let (ux, uy, uz) = (b.x - a.x, b.y - a.y, b.z - a.z);
    let (vx, vy, vz) = (c.x - a.x, c.y - a.y, c.z - a.z);
    (uy * vz - uz * vy, uz * vx - ux * vz, ux * vy - uy * vx)
}

/// The cross product of two edges, from the components of the edges.
proof fn lemma_cross_of_edges(
    a: QuadCorner,
    b: QuadCorner,
    c: QuadCorner,
    ux: int,
    uy: int,
    uz: int,
    vx: int,
    vy: int,
    vz: int,
)
    requires
        b.x - a.x == ux,
        b.y - a.y == uy,
        b.z - a.z == uz,
        c.x - a.x == vx,
        c.y - a.y == vy,
        c.z - a.z == vz,
    ensures
        edge_cross(a, b, c).0 == uy * vz - uz * vy,
        edge_cross(a, b, c).1 == uz * vx - ux * vz,
        edge_cross(a, b, c).2 == ux * vy - uy * vx,
{
    assert((b.y - a.y) * (c.z - a.z) == uy * vz) by (nonlinear_arith)
        requires
            b.y - a.y == uy,
            c.z - a.z == vz,
    ;
    assert((b.z - a.z) * (c.y - a.y) == uz * vy) by (nonlinear_arith)
        requires
            b.z - a.z == uz,
            c.y - a.y == vy,
    ;
    assert((b.z - a.z) * (c.x - a.x) == uz * vx) by (nonlinear_arith)
        requires
            b.z - a.z == uz,
            c.x - a.x == vx,
    ;
    assert((b.x - a.x) * (c.z - a.z) == ux * vz) by (nonlinear_arith)
        requires
            b.x - a.x == ux,
            c.z - a.z == vz,
    ;
    assert((b.x - a.x) * (c.y - a.y) == ux * vy) by (nonlinear_arith)
        requires
            b.x - a.x == ux,
            c.y - a.y == vy,
    ;
    assert((b.y - a.y) * (c.x - a.x) == uy * vx) by (nonlinear_arith)
        requires
            b.y - a.y == uy,
            c.x - a.x == vx,
    ;
}

/// Both triangles of a face, `(0, 1, 2)` and `(0, 2, 3)`, wind around the
/// direction the face looks in: the cross product of their edges is the
/// normal, scaled by the area of the doubled unit square.
pub proof fn lemma_winding_follows_normal(direction: Direction, pos: WorldPosition)
    requires
        pos.has_corners(),
    ensures
        ({
            let c = quad_corners(direction, pos);
            let n = direction.normal();
            let first = edge_cross(c[0], c[1], c[2]);
            let second = edge_cross(c[0], c[2], c[3]);
            &&& first.0 == 4 * n.x && first.1 == 4 * n.y && first.2 == 4 * n.z
            &&& second.0 == 4 * n.x && second.1 == 4 * n.y && second.2 == 4 * n.z
        }),
{
    let c = quad_corners(direction, pos);
    match direction {
        Direction::Left => {
            lemma_cross_of_edges(c[0], c[1], c[2], 0, 0, 2, 0, 2, 2);
            lemma_cross_of_edges(c[0], c[2], c[3], 0, 2, 2, 0, 2, 0);
        },
        Direction::Right => {
            lemma_cross_of_edges(c[0], c[1], c[2], 0, 0, 2, 0, -2, 2);
            lemma_cross_of_edges(c[0], c[2], c[3], 0, -2, 2, 0, -2, 0);
        },
        Direction::Down => {
            lemma_cross_of_edges(c[0], c[1], c[2], 2, 0, 0, 2, 0, 2);
            lemma_cross_of_edges(c[0], c[2], c[3], 2, 0, 2, 0, 0, 2);
        },
        Direction::Up => {
            lemma_cross_of_edges(c[0], c[1], c[2], 2, 0, 0, 2, 0, -2);
            lemma_cross_of_edges(c[0], c[2], c[3], 2, 0, -2, 0, 0, -2);
        },
        Direction::Back => {
            lemma_cross_of_edges(c[0], c[1], c[2], 0, 2, 0, 2, 2, 0);
            lemma_cross_of_edges(c[0], c[2], c[3], 2, 2, 0, 2, 0, 0);
        },
        Direction::Forward => {
            lemma_cross_of_edges(c[0], c[1], c[2], 0, 2, 0, -2, 2, 0);
            lemma_cross_of_edges(c[0], c[2], c[3], -2, 2, 0, -2, 0, 0);
        },
    }
}

} // verus!
