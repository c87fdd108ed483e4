//! Points, rotations and the simple shapes built on them.
use vstd::prelude::*;

use crate::number::Fixed;
use crate::path::{Path, PathCommand};

verus! {

/// A point of the drawing plane.
#[derive(Clone, Copy, Debug, PartialEq, Eq, Structural)]
pub struct Point {
    pub x: Fixed,
    pub y: Fixed,
}

impl Point {
    pub fn new(x: Fixed, y: Fixed) -> (r: Point)
        ensures
            r.x == x,
            r.y == y,
    {
        Point { x, y }
    }

    pub fn origin() -> (r: Point)
        ensures
            r.x.value() == 0,
            r.y.value() == 0,
    {
        Point { x: Fixed::zero(), y: Fixed::zero() }
    }

    pub fn x(&self) -> (r: Fixed)
        ensures
            r == self.x,
    {
        self.x
    }

    pub fn y(&self) -> (r: Fixed)
        ensures
            r == self.y,
    {
        self.y
    }
}

/// Whether a count of hundredths fits a [`Fixed`].
pub open spec fn fits_fixed(v: int) -> bool {
    i32::MIN <= v <= i32::MAX
}

/// The point moved by (dx, dy), in hundredths.
pub open spec fn translated(p: (int, int), dx: int, dy: int) -> (int, int) {
    (p.0 + dx, p.1 + dy)
}

/// The point rotated about the origin, in hundredths, each coordinate rounded down
/// to a hundredth.
pub open spec fn rotated(p: (int, int), r: Rotation) -> (int, int) {
    let c = r.cos.value();
    let s = r.sin.value();
    ((c * p.0 - s * p.1) / 100, (s * p.0 + c * p.1) / 100)
}

/// The point rotated about `pivot`: moved so that the pivot is at the origin,
/// rotated, and moved back.
pub open spec fn rotated_around(p: (int, int), r: Rotation, pivot: (int, int)) -> (int, int) {
    translated(rotated(translated(p, -pivot.0, -pivot.1), r), pivot.0, pivot.1)
}

/// The point scaled about the origin by `k`, rounded down to a hundredth.
pub open spec fn scaled(p: (int, int), k: Fixed) -> (int, int) {
    ((p.0 * k.value()) / 100, (p.1 * k.value()) / 100)
}

/// `n / 100` rounded down.
fn floor_div_100(n: i128) -> (q: i128)
    requires
        -0x1_0000_0000_0000_0000_0000 <= n <= 0x1_0000_0000_0000_0000_0000,
    ensures
        q == n / 100,
{
    if n >= 0 {
        ((n as u128) / 100) as i128
    } else {
        let m = (-n) as u128;
        let q = (m + 99) / 100;
        assert(-(((-n) + 99) / 100) == n / 100) by (nonlinear_arith)
            requires
                n < 0,
        ;
        -(q as i128)
    }
}

fn fixed_of(v: i128) -> (r: Option<Fixed>)
    ensures
        r is Some <==> fits_fixed(v as int),
        r matches Some(f) ==> f.value() == v,
{
    if v < i32::MIN as i128 || v > i32::MAX as i128 {
        None
    } else {
        Some(Fixed { hundredths: v as i32 })
    }
}

impl Point {
    pub open spec fn coords(self) -> (int, int) {
        (self.x.value(), self.y.value())
    }

    /// The point moved by (dx, dy); `None` when a coordinate leaves the range of
    /// [`Fixed`].
    pub fn translate(&self, dx: Fixed, dy: Fixed) -> (r: Option<Point>)
        ensures
            r is Some <==> fits_fixed(translated(self.coords(), dx.value(), dy.value()).0)
                && fits_fixed(translated(self.coords(), dx.value(), dy.value()).1),
            r matches Some(q) ==> q.coords() == translated(self.coords(), dx.value(), dy.value()),
    {
        let x = fixed_of(self.x.hundredths as i128 + dx.hundredths as i128);
        let y = fixed_of(self.y.hundredths as i128 + dy.hundredths as i128);
        match (x, y) {
            (Some(x), Some(y)) => Some(Point { x, y }),
            _ => None,
        }
    }

    /// The point rotated about the origin; `None` when a coordinate leaves the range
    /// of [`Fixed`].
    pub fn rotate(&self, rot: &Rotation) -> (r: Option<Point>)
        ensures
            r is Some <==> fits_fixed(rotated(self.coords(), *rot).0) && fits_fixed(
                rotated(self.coords(), *rot).1,
            ),
            r matches Some(q) ==> q.coords() == rotated(self.coords(), *rot),
    {
        rotate_coords(self.x.hundredths as i128, self.y.hundredths as i128, rot, 0, 0)
    }

    /// The point rotated about `pivot`; `None` when a coordinate leaves the range of
    /// [`Fixed`].
    pub fn rotate_around(&self, rot: &Rotation, pivot: &Point) -> (r: Option<Point>)
        ensures
            r is Some <==> fits_fixed(rotated_around(self.coords(), *rot, pivot.coords()).0)
                && fits_fixed(rotated_around(self.coords(), *rot, pivot.coords()).1),
            r matches Some(q) ==> q.coords() == rotated_around(
                self.coords(),
                *rot,
                pivot.coords(),
            ),
    {
        let dx = self.x.hundredths as i128 - pivot.x.hundredths as i128;
        let dy = self.y.hundredths as i128 - pivot.y.hundredths as i128;
        rotate_coords(dx, dy, rot, pivot.x.hundredths as i128, pivot.y.hundredths as i128)
    }

    /// The point scaled about the origin by `k`; `None` when a coordinate leaves the
    /// range of [`Fixed`].
    pub fn scale(&self, k: Fixed) -> (r: Option<Point>)
        ensures
            r is Some <==> fits_fixed(scaled(self.coords(), k).0) && fits_fixed(
                scaled(self.coords(), k).1,
            ),
            r matches Some(q) ==> q.coords() == scaled(self.coords(), k),
    {
        let x = self.x.hundredths as i128;
        let y = self.y.hundredths as i128;
        let kk = k.hundredths as i128;
        proof {
            lemma_product_bound(x as int, kk as int);
            lemma_product_bound(y as int, kk as int);
        }
        let sx = fixed_of(floor_div_100(x * kk));
        let sy = fixed_of(floor_div_100(y * kk));
        match (sx, sy) {
            (Some(x), Some(y)) => Some(Point { x, y }),
            _ => None,
        }
    }
}

proof fn lemma_product_bound(a: int, b: int)
    requires
        -0x2_0000_0000 <= a <= 0x2_0000_0000,
        -0x2_0000_0000 <= b <= 0x2_0000_0000,
    ensures
        -0x4_0000_0000_0000_0000 <= a * b <= 0x4_0000_0000_0000_0000,
{
    assert(-0x4_0000_0000_0000_0000 <= a * b <= 0x4_0000_0000_0000_0000) by (nonlinear_arith)
        requires
            -0x2_0000_0000 <= a <= 0x2_0000_0000,
            -0x2_0000_0000 <= b <= 0x2_0000_0000,
    ;
}

/// Rotates (dx, dy) about the origin and moves the result by (px, py).
fn rotate_coords(dx: i128, dy: i128, rot: &Rotation, px: i128, py: i128) -> (r: Option<Point>)
    requires
        -0x2_0000_0000 <= dx <= 0x2_0000_0000,
        -0x2_0000_0000 <= dy <= 0x2_0000_0000,
        -0x2_0000_0000 <= px <= 0x2_0000_0000,
        -0x2_0000_0000 <= py <= 0x2_0000_0000,
    ensures
        r is Some <==> fits_fixed(
            translated(rotated((dx as int, dy as int), *rot), px as int, py as int).0,
        ) && fits_fixed(translated(rotated((dx as int, dy as int), *rot), px as int, py as int).1),
        r matches Some(q) ==> q.coords() == translated(
            rotated((dx as int, dy as int), *rot),
            px as int,
            py as int,
        ),
{
    let c = rot.cos.hundredths as i128;
    let s = rot.sin.hundredths as i128;
    proof {
        lemma_product_bound(c as int, dx as int);
        lemma_product_bound(s as int, dy as int);
        lemma_product_bound(s as int, dx as int);
        lemma_product_bound(c as int, dy as int);
    }
    let rx = floor_div_100(c * dx - s * dy);
    let ry = floor_div_100(s * dx + c * dy);
    proof {
        assert(-0x1_0000_0000_0000_0000 <= rx <= 0x1_0000_0000_0000_0000);
        assert(-0x1_0000_0000_0000_0000 <= ry <= 0x1_0000_0000_0000_0000);
    }
    let x = fixed_of(rx + px);
    let y = fixed_of(ry + py);
    match (x, y) {
        (Some(x), Some(y)) => Some(Point { x, y }),
        _ => None,
    }
}

/// A rotation, held as the cosine and sine of its angle.
///
/// The identity rotation is `cos = 1, sin = 0`.
#[derive(Clone, Copy, Debug, PartialEq, Eq, Structural)]
pub struct Rotation {
    pub cos: Fixed,
    pub sin: Fixed,
}

impl Rotation {
    pub fn new(cos: Fixed, sin: Fixed) -> (r: Rotation)
        ensures
            r.cos == cos,
            r.sin == sin,
    {
        Rotation { cos, sin }
    }

    pub fn identity() -> (r: Rotation)
        ensures
            r.cos.value() == 100,
            r.sin.value() == 0,
    {
        Rotation { cos: Fixed::one(), sin: Fixed::zero() }
    }
}

/// A rectangle given by its corner closest to the origin, its corner farthest from
/// it, and a rotation about its own center that the corner accessors apply.
#[derive(Clone, Copy, Debug, PartialEq, Eq, Structural)]
pub struct Rectangle {
    pub top_left: Point,
    pub bottom_right: Point,
    pub rot: Rotation,
}

/// Whether the rotation leaves every point where it is.
pub open spec fn is_identity(r: Rotation) -> bool {
    r.cos.value() == 100 && r.sin.value() == 0
}

/// The point at the given hundredths.
pub open spec fn point_at(c: (int, int)) -> Point {
    Point { x: Fixed { hundredths: c.0 as i32 }, y: Fixed { hundredths: c.1 as i32 } }
}

/// The closed outline through four corners, clockwise from the first, and back to it.
pub open spec fn outline_of(a: Point, b: Point, c: Point, d: Point) -> Seq<PathCommand> {
    seq![
        PathCommand::MoveTo(a),
        PathCommand::LineTo(b),
        PathCommand::LineTo(c),
        PathCommand::LineTo(d),
        PathCommand::LineTo(a),
    ]
}

impl Rectangle {
    /// An unrotated rectangle.
    pub fn new(closest: Point, farthest: Point) -> (r: Rectangle)
        ensures
            r.top_left == closest,
            r.bottom_right == farthest,
            is_identity(r.rot),
    {
        Rectangle { top_left: closest, bottom_right: farthest, rot: Rotation::identity() }
    }

    pub fn new_from_raw(closest: Point, farthest: Point, rot: Rotation) -> (r: Rectangle)
        ensures
            r == (Rectangle { top_left: closest, bottom_right: farthest, rot }),
    {
        Rectangle { top_left: closest, bottom_right: farthest, rot }
    }

    pub fn zero() -> (r: Rectangle)
        ensures
            r.top_left.x.value() == 0,
            r.top_left.y.value() == 0,
            r.bottom_right.x.value() == 0,
            r.bottom_right.y.value() == 0,
            is_identity(r.rot),
    {
        Rectangle {
            top_left: Point::origin(),
            bottom_right: Point::origin(),
            rot: Rotation::identity(),
        }
    }

    pub fn with_rotation(self, rot: Rotation) -> (r: Rectangle)
        ensures
            r == (Rectangle { rot, ..self }),
    {
        Rectangle { rot, ..self }
    }

    /// Sets the rotation about the rectangle's center.
    pub fn rotate(&mut self, rot: Rotation)
        ensures
            *final(self) == (Rectangle { rot, ..*old(self) }),
    {
        self.rot = rot;
    }

    pub fn rotation(&self) -> (r: Rotation)
        ensures
            r == self.rot,
    {
        self.rot
    }

    pub open spec fn spec_top_right(self) -> Point {
        Point { x: self.bottom_right.x, y: self.top_left.y }
    }

    pub open spec fn spec_bottom_left(self) -> Point {
        Point { x: self.top_left.x, y: self.bottom_right.y }
    }

    /// The center of the unrotated rectangle, rounded down to a hundredth.
    pub open spec fn center(self) -> (int, int) {
        (
            (self.top_left.x.value() + self.bottom_right.x.value()) / 2,
            (self.top_left.y.value() + self.bottom_right.y.value()) / 2,
        )
    }

    /// Where the unrotated point `p` lies once the rotation is applied about the
    /// center.
    pub open spec fn corner(self, p: Point) -> (int, int) {
        if is_identity(self.rot) {
            p.coords()
        } else {
            rotated_around(p.coords(), self.rot, self.center())
        }
    }

    /// Whether the rotated point lies within the range of [`Fixed`].
    pub open spec fn corner_fits(self, p: Point) -> bool {
        fits_fixed(self.corner(p).0) && fits_fixed(self.corner(p).1)
    }

    /// Whether all four rotated corners lie within the range of [`Fixed`].
    pub open spec fn corners_fit(self) -> bool {
        &&& self.corner_fits(self.top_left)
        &&& self.corner_fits(self.spec_top_right())
        &&& self.corner_fits(self.bottom_right)
        &&& self.corner_fits(self.spec_bottom_left())
    }

    /// The closed outline of the rotated rectangle: its four corners clockwise from
    /// the top left, and back to the start.
    pub open spec fn outline(self) -> Seq<PathCommand> {
        outline_of(
            point_at(self.corner(self.top_left)),
            point_at(self.corner(self.spec_top_right())),
            point_at(self.corner(self.bottom_right)),
            point_at(self.corner(self.spec_bottom_left())),
        )
    }

    /// The center of the unrotated rectangle.
    pub fn absolute_center(&self) -> (r: Point)
        ensures
            r.coords() == self.center(),
    {
        let cx = floor_div_100(
            (self.top_left.x.hundredths as i128 + self.bottom_right.x.hundredths as i128) * 50,
        );
        let cy = floor_div_100(
            (self.top_left.y.hundredths as i128 + self.bottom_right.y.hundredths as i128) * 50,
        );
        proof {
            let sx = self.top_left.x.value() + self.bottom_right.x.value();
            let sy = self.top_left.y.value() + self.bottom_right.y.value();
            assert((sx * 50) / 100 == sx / 2) by (nonlinear_arith);
            assert((sy * 50) / 100 == sy / 2) by (nonlinear_arith);
        }
        Point { x: Fixed { hundredths: cx as i32 }, y: Fixed { hundredths: cy as i32 } }
    }

    /// The point `p` of the unrotated rectangle once rotated about the center; `None`
    /// when it leaves the range of [`Fixed`].
    fn rotated_corner(&self, p: Point) -> (r: Option<Point>)
        ensures
            r is Some <==> self.corner_fits(p),
            r matches Some(q) ==> q.coords() == self.corner(p),
    {
        if self.rot.cos.hundredths == 100 && self.rot.sin.hundredths == 0 {
            Some(p)
        } else {
            let c = self.absolute_center();
            p.rotate_around(&self.rot, &c)
        }
    }

    /// The top left corner, rotated; `None` when it leaves the range of [`Fixed`].
    pub fn top_left(&self) -> (r: Option<Point>)
        ensures
            r is Some <==> self.corner_fits(self.top_left),
            r matches Some(q) ==> q.coords() == self.corner(self.top_left),
    {
        self.rotated_corner(self.top_left)
    }

    /// The top right corner, rotated; `None` when it leaves the range of [`Fixed`].
    pub fn top_right(&self) -> (r: Option<Point>)
        ensures
            r is Some <==> self.corner_fits(self.spec_top_right()),
            r matches Some(q) ==> q.coords() == self.corner(self.spec_top_right()),
    {
        self.rotated_corner(Point { x: self.bottom_right.x, y: self.top_left.y })
    }

    /// The bottom left corner, rotated; `None` when it leaves the range of [`Fixed`].
    pub fn bottom_left(&self) -> (r: Option<Point>)
        ensures
            r is Some <==> self.corner_fits(self.spec_bottom_left()),
            r matches Some(q) ==> q.coords() == self.corner(self.spec_bottom_left()),
    {
        self.rotated_corner(Point { x: self.top_left.x, y: self.bottom_right.y })
    }

    /// The bottom right corner, rotated; `None` when it leaves the range of [`Fixed`].
    pub fn bottom_right(&self) -> (r: Option<Point>)
        ensures
            r is Some <==> self.corner_fits(self.bottom_right),
            r matches Some(q) ==> q.coords() == self.corner(self.bottom_right),
    {
        self.rotated_corner(self.bottom_right)
    }

    /// The top left corner, without rotation.
    pub fn top_left_raw(&self) -> (r: Point)
        ensures
            r == self.top_left,
    {
        self.top_left
    }

    /// The top right corner, without rotation.
    pub fn top_right_raw(&self) -> (r: Point)
        ensures
            r == self.spec_top_right(),
    {
        Point { x: self.bottom_right.x, y: self.top_left.y }
    }

    /// The bottom left corner, without rotation.
    pub fn bottom_left_raw(&self) -> (r: Point)
        ensures
            r == self.spec_bottom_left(),
    {
        Point { x: self.top_left.x, y: self.bottom_right.y }
    }

    /// The bottom right corner, without rotation.
    pub fn bottom_right_raw(&self) -> (r: Point)
        ensures
            r == self.bottom_right,
    {
        self.bottom_right
    }

    pub fn set_top_left_x(&mut self, x: Fixed)
        ensures
            *final(self) == (Rectangle { top_left: Point { x, ..old(self).top_left }, ..*old(self) }),
    {
        self.top_left.x = x;
    }

    pub fn set_top_left_y(&mut self, y: Fixed)
        ensures
            *final(self) == (Rectangle { top_left: Point { y, ..old(self).top_left }, ..*old(self) }),
    {
        self.top_left.y = y;
    }

    pub fn set_bottom_right_x(&mut self, x: Fixed)
        ensures
            *final(self) == (Rectangle {
                bottom_right: Point { x, ..old(self).bottom_right },
                ..*old(self)
            }),
    {
        self.bottom_right.x = x;
    }

    pub fn set_bottom_right_y(&mut self, y: Fixed)
        ensures
            *final(self) == (Rectangle {
                bottom_right: Point { y, ..old(self).bottom_right },
                ..*old(self)
            }),
    {
        self.bottom_right.y = y;
    }

    /// The five-command closed path through the rotated corners that draws this
    /// rectangle on a canvas without a rectangle of its own; `None` when a corner
    /// leaves the range of [`Fixed`]. An unrotated rectangle always has its path.
    pub fn to_path(&self) -> (r: Option<Path>)
        ensures
            r is Some <==> self.corners_fit(),
            r matches Some(p) ==> p@ == self.outline(),
            is_identity(self.rot) ==> self.outline() == outline_of(
                self.top_left,
                self.spec_top_right(),
                self.bottom_right,
                self.spec_bottom_left(),
            ),
    {
        let a = self.top_left();
        let b = self.top_right();
        let c = self.bottom_right();
        let d = self.bottom_left();
        proof {
            if is_identity(self.rot) {
                assert(point_at(self.top_left.coords()) == self.top_left);
                assert(point_at(self.spec_top_right().coords()) == self.spec_top_right());
                assert(point_at(self.bottom_right.coords()) == self.bottom_right);
                assert(point_at(self.spec_bottom_left().coords()) == self.spec_bottom_left());
            }
        }
        match (a, b, c, d) {
            (Some(a), Some(b), Some(c), Some(d)) => {
                let mut path = Path::new();
                path.move_to(a);
                path.line_to(b);
                path.line_to(c);
                path.line_to(d);
                path.line_to(a);
                proof {
                    assert(point_at(a.coords()) == a);
                    assert(point_at(b.coords()) == b);
                    assert(point_at(c.coords()) == c);
                    assert(point_at(d.coords()) == d);
                    assert(path@ =~= self.outline());
                }
                Some(path)
            },
            _ => None,
        }
    }
}

/// A circle given by its center and radius.
#[derive(Clone, Copy, Debug, PartialEq, Eq, Structural)]
pub struct Circle {
    pub position: Point,
    pub radius: Fixed,
}

impl Circle {
    pub fn new(position: Point, radius: Fixed) -> (r: Circle)
        ensures
            r.position == position,
            r.radius == radius,
    {
        Circle { position, radius }
    }
}

} // verus!
