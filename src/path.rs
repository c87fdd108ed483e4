//! Paths: ordered sequences of move, line, quadratic and cubic commands.
use vstd::prelude::*;

use crate::geometry::{Point, Rectangle, Rotation};
use crate::number::{max_int, min_int, Fixed};

verus! {

/// One step of a path.
#[derive(Clone, Copy, Debug, PartialEq, Eq, Structural)]
pub enum PathCommand {
    MoveTo(Point),
    LineTo(Point),
    QuadTo { control: Point, end: Point },
    CurveTo { control_one: Point, control_two: Point, end: Point },
}

impl PathCommand {
    /// The points that define the command, in the order they are written.
    pub open spec fn points(self) -> Seq<Point> {
        match self {
            PathCommand::MoveTo(p) => seq![p],
            PathCommand::LineTo(p) => seq![p],
            PathCommand::QuadTo { control, end } => seq![control, end],
            PathCommand::CurveTo { control_one, control_two, end } => seq![
                control_one,
                control_two,
                end,
            ],
        }
    }

    /// The least x over the defining points. The bend of a curve beyond its defining
    /// points is not accounted for.
    pub open spec fn min_x(self) -> int {
        match self {
            PathCommand::MoveTo(p) => p.x.value(),
            PathCommand::LineTo(p) => p.x.value(),
            PathCommand::QuadTo { control, end } => min_int(control.x.value(), end.x.value()),
            PathCommand::CurveTo { control_one, control_two, end } => min_int(
                min_int(control_one.x.value(), control_two.x.value()),
                end.x.value(),
            ),
        }
    }

    pub open spec fn min_y(self) -> int {
        match self {
            PathCommand::MoveTo(p) => p.y.value(),
            PathCommand::LineTo(p) => p.y.value(),
            PathCommand::QuadTo { control, end } => min_int(control.y.value(), end.y.value()),
            PathCommand::CurveTo { control_one, control_two, end } => min_int(
                min_int(control_one.y.value(), control_two.y.value()),
                end.y.value(),
            ),
        }
    }

    pub open spec fn max_x(self) -> int {
        match self {
            PathCommand::MoveTo(p) => p.x.value(),
            PathCommand::LineTo(p) => p.x.value(),
            PathCommand::QuadTo { control, end } => max_int(control.x.value(), end.x.value()),
            PathCommand::CurveTo { control_one, control_two, end } => max_int(
                max_int(control_one.x.value(), control_two.x.value()),
                end.x.value(),
            ),
        }
    }

    pub open spec fn max_y(self) -> int {
        match self {
            PathCommand::MoveTo(p) => p.y.value(),
            PathCommand::LineTo(p) => p.y.value(),
            PathCommand::QuadTo { control, end } => max_int(control.y.value(), end.y.value()),
            PathCommand::CurveTo { control_one, control_two, end } => max_int(
                max_int(control_one.y.value(), control_two.y.value()),
                end.y.value(),
            ),
        }
    }

    pub fn move_to(p: Point) -> (r: PathCommand)
        ensures
            r == PathCommand::MoveTo(p),
    {
        PathCommand::MoveTo(p)
    }

    pub fn line_to(p: Point) -> (r: PathCommand)
        ensures
            r == PathCommand::LineTo(p),
    {
        PathCommand::LineTo(p)
    }

    pub fn quad_to(control: Point, end: Point) -> (r: PathCommand)
        ensures
            r == (PathCommand::QuadTo { control, end }),
    {
        PathCommand::QuadTo { control, end }
    }

    pub fn curve_to(control_one: Point, control_two: Point, end: Point) -> (r: PathCommand)
        ensures
            r == (PathCommand::CurveTo { control_one, control_two, end }),
    {
        PathCommand::CurveTo { control_one, control_two, end }
    }

    /// The defining points of the command.
    pub fn locations(&self) -> (r: Vec<Point>)
        ensures
            r@ == self.points(),
    {
        let mut v = Vec::new();
        match *self {
            PathCommand::MoveTo(p) => v.push(p),
            PathCommand::LineTo(p) => v.push(p),
            PathCommand::QuadTo { control, end } => {
                v.push(control);
                v.push(end);
            },
            PathCommand::CurveTo { control_one, control_two, end } => {
                v.push(control_one);
                v.push(control_two);
                v.push(end);
            },
        }
        assert(v@ =~= self.points());
        v
    }

    /// Mutable references to the defining points, in order.
    pub fn locations_mut(&mut self) -> (r: Vec<&mut Point>)
        ensures
            r@.len() == old(self).points().len(),
            forall|i: int| 0 <= i < r@.len() ==> *r@[i] == old(self).points()[i],
            final(self).points().len() == r@.len(),
            forall|i: int| 0 <= i < r@.len() ==> final(self).points()[i] == *final(r@[i]),
            final(self).same_kind(*old(self)),
    {
        let mut v = Vec::new();
        match self {
            PathCommand::MoveTo(p) => v.push(p),
            PathCommand::LineTo(p) => v.push(p),
            PathCommand::QuadTo { control, end } => {
                v.push(control);
                v.push(end);
            },
            PathCommand::CurveTo { control_one, control_two, end } => {
                v.push(control_one);
                v.push(control_two);
                v.push(end);
            },
        }
        v
    }

    /// The defining point closest to the origin: the first of the points such that
    /// no later one lies strictly below and left of it, compared pairwise from the
    /// front. The bend of a curve beyond its defining points is not accounted for.
    pub open spec fn closest(self) -> Point {
        match self {
            PathCommand::MoveTo(p) => p,
            PathCommand::LineTo(p) => p,
            PathCommand::QuadTo { control, end } => if point_lt(control, end) {
                control
            } else {
                end
            },
            PathCommand::CurveTo { control_one, control_two, end } => {
                let m = if point_lt(control_one, control_two) {
                    control_one
                } else {
                    control_two
                };
                if point_lt(m, end) {
                    m
                } else {
                    end
                }
            },
        }
    }

    /// The defining point farthest from the origin, chosen as [`PathCommand::closest`]
    /// with the comparison reversed.
    pub open spec fn farthest(self) -> Point {
        match self {
            PathCommand::MoveTo(p) => p,
            PathCommand::LineTo(p) => p,
            PathCommand::QuadTo { control, end } => if point_lt(end, control) {
                control
            } else {
                end
            },
            PathCommand::CurveTo { control_one, control_two, end } => {
                let m = if point_lt(control_two, control_one) {
                    control_one
                } else {
                    control_two
                };
                if point_lt(end, m) {
                    m
                } else {
                    end
                }
            },
        }
    }

    /// Whether two commands are of the same kind.
    pub open spec fn same_kind(self, other: PathCommand) -> bool {
        match (self, other) {
            (PathCommand::MoveTo(_), PathCommand::MoveTo(_)) => true,
            (PathCommand::LineTo(_), PathCommand::LineTo(_)) => true,
            (PathCommand::QuadTo { .. }, PathCommand::QuadTo { .. }) => true,
            (PathCommand::CurveTo { .. }, PathCommand::CurveTo { .. }) => true,
            _ => false,
        }
    }

    /// The defining point closest to the origin (see [`PathCommand::closest`]).
    pub fn get_min(&self) -> (r: Point)
        ensures
            r == self.closest(),
            self.points().contains(r),
    {
        match *self {
            PathCommand::MoveTo(p) => {
                assert(self.points()[0] == p);
                p
            },
            PathCommand::LineTo(p) => {
                assert(self.points()[0] == p);
                p
            },
            PathCommand::QuadTo { control, end } => {
                let r = if lt(control, end) {
                    control
                } else {
                    end
                };
                assert(self.points()[0] == control && self.points()[1] == end);
                r
            },
            PathCommand::CurveTo { control_one, control_two, end } => {
                let m = if lt(control_one, control_two) {
                    control_one
                } else {
                    control_two
                };
                let r = if lt(m, end) {
                    m
                } else {
                    end
                };
                assert(self.points()[0] == control_one && self.points()[1] == control_two
                    && self.points()[2] == end);
                r
            },
        }
    }

    /// The defining point farthest from the origin (see [`PathCommand::farthest`]).
    /// Bends of a curve beyond its defining points are not accounted for.
    pub fn get_max(&self) -> (r: Point)
        ensures
            r == self.farthest(),
            self.points().contains(r),
    {
        match *self {
            PathCommand::MoveTo(p) => {
                assert(self.points()[0] == p);
                p
            },
            PathCommand::LineTo(p) => {
                assert(self.points()[0] == p);
                p
            },
            PathCommand::QuadTo { control, end } => {
                let r = if lt(end, control) {
                    control
                } else {
                    end
                };
                assert(self.points()[0] == control && self.points()[1] == end);
                r
            },
            PathCommand::CurveTo { control_one, control_two, end } => {
                let m = if lt(control_two, control_one) {
                    control_one
                } else {
                    control_two
                };
                let r = if lt(end, m) {
                    m
                } else {
                    end
                };
                assert(self.points()[0] == control_one && self.points()[1] == control_two
                    && self.points()[2] == end);
                r
            },
        }
    }

    /// The componentwise least and greatest coordinates of the defining points.
    fn axis_bounds(&self) -> (r: (Point, Point))
        ensures
            r.0.x.value() == self.min_x(),
            r.0.y.value() == self.min_y(),
            r.1.x.value() == self.max_x(),
            r.1.y.value() == self.max_y(),
    {
        match *self {
            PathCommand::MoveTo(p) => (p, p),
            PathCommand::LineTo(p) => (p, p),
            PathCommand::QuadTo { control, end } => (
                Point { x: control.x.min(end.x), y: control.y.min(end.y) },
                Point { x: control.x.max(end.x), y: control.y.max(end.y) },
            ),
            PathCommand::CurveTo { control_one, control_two, end } => (
                Point {
                    x: control_one.x.min(control_two.x).min(end.x),
                    y: control_one.y.min(control_two.y).min(end.y),
                },
                Point {
                    x: control_one.x.max(control_two.x).max(end.x),
                    y: control_one.y.max(control_two.y).max(end.y),
                },
            ),
        }
    }
}

/// Whether `a` lies strictly below and left of `b` on both axes.
pub open spec fn point_lt(a: Point, b: Point) -> bool {
    a.x.value() < b.x.value() && a.y.value() < b.y.value()
}

fn lt(a: Point, b: Point) -> (r: bool)
    ensures
        r == point_lt(a, b),
{
    a.x.hundredths < b.x.hundredths && a.y.hundredths < b.y.hundredths
}

/// An ordered sequence of path commands, built by appending.
#[derive(Clone, Debug, PartialEq)]
pub struct Path {
    commands: Vec<PathCommand>,
}

impl View for Path {
    type V = Seq<PathCommand>;

    closed spec fn view(&self) -> Seq<PathCommand> {
        self.commands@
    }
}

/// The defining points of the commands, in order.
pub open spec fn path_points(cs: Seq<PathCommand>) -> Seq<Point>
    decreases cs.len(),
{
    if cs.len() == 0 {
        Seq::empty()
    } else {
        path_points(cs.drop_last()) + cs.last().points()
    }
}

/// The points of two runs of commands are those of the first, then those of the
/// second.
pub proof fn lemma_path_points_concat(a: Seq<PathCommand>, b: Seq<PathCommand>)
    ensures
        path_points(a + b) == path_points(a) + path_points(b),
    decreases b.len(),
{
    if b.len() == 0 {
        assert(a + b =~= a);
        assert(path_points(a + b) =~= path_points(a) + path_points(b));
    } else {
        assert((a + b).drop_last() =~= a + b.drop_last());
        assert((a + b).last() == b.last());
        lemma_path_points_concat(a, b.drop_last());
        assert(path_points(a + b) =~= path_points(a) + path_points(b));
    }
}

proof fn lemma_path_points_single(c: PathCommand)
    ensures
        path_points(seq![c]) == c.points(),
{
    assert(seq![c].drop_last() =~= Seq::<PathCommand>::empty());
    assert(seq![c].last() == c);
    assert(path_points(Seq::<PathCommand>::empty()) =~= Seq::<Point>::empty());
    assert(path_points(seq![c]) =~= c.points());
}

proof fn lemma_path_points_facts()
    ensures
        forall|a: Seq<PathCommand>, b: Seq<PathCommand>|
            #[trigger] path_points(a + b) == path_points(a) + path_points(b),
        forall|a: Seq<PathCommand>| a.len() == 1 ==> #[trigger] path_points(a) == a[0].points(),
{
    assert forall|a: Seq<PathCommand>, b: Seq<PathCommand>|
        #[trigger] path_points(a + b) == path_points(a) + path_points(b) by {
        lemma_path_points_concat(a, b);
    }
    assert forall|a: Seq<PathCommand>| a.len() == 1 implies #[trigger] path_points(a)
        == a[0].points() by {
        assert(a =~= seq![a[0]]);
        lemma_path_points_single(a[0]);
    }
}

/// Whether two runs of commands have the same kinds of commands in the same order.
pub open spec fn same_kinds(a: Seq<PathCommand>, b: Seq<PathCommand>) -> bool {
    a.len() == b.len() && forall|i: int| 0 <= i < a.len() ==> (#[trigger] a[i]).same_kind(b[i])
}

/// Mutable references to the defining points of every command of the slice, in
/// order.
fn commands_locations_mut<'a>(s: &'a mut [PathCommand]) -> (r: Vec<&'a mut Point>)
    ensures
        r@.len() == path_points(old(s)@).len(),
        forall|i: int| 0 <= i < r@.len() ==> *r@[i] == path_points(old(s)@)[i],
        path_points(final(s)@).len() == r@.len(),
        forall|i: int| 0 <= i < r@.len() ==> path_points(final(s)@)[i] == *final(r@[i]),
        same_kinds(final(s)@, old(s)@),
    decreases old(s)@.len(),
{
    if s.len() == 0 {
        let r = Vec::new();
        proof {
            assert(path_points(old(s)@) =~= Seq::<Point>::empty());
            assert(final(s)@ =~= Seq::<PathCommand>::empty());
        }
        return r;
    }
    let ghost s0 = s@;
    let (first, rest) = s.split_at_mut(1);
    let ghost rest0 = rest@;
    let head = match first.first_mut() {
        Some(c) => c,
        None => {
            return Vec::new();
        },
    };
    let ghost c0 = *head;
    let mut v = head.locations_mut();
    let mut tail = commands_locations_mut(rest);
    let ghost v0 = v@;
    let ghost t0 = tail@;
    v.append(&mut tail);
    proof {
        assert(s0 =~= seq![c0] + rest0);
        lemma_path_points_concat(seq![c0], rest0);
        lemma_path_points_single(c0);
        assert(v@ == v0 + t0);
        assert(path_points(s0) =~= c0.points() + path_points(rest0));
        lemma_path_points_facts();
    }
    v
}

/// Whether `b` is the componentwise bounding box of the commands `cs`: its corners
/// are the least and the greatest coordinates that some command reaches.
pub open spec fn is_bounding_box(cs: Seq<PathCommand>, b: Rectangle) -> bool {
    &&& forall|i: int|
        0 <= i < cs.len() ==> {
            &&& b.top_left.x.value() <= (#[trigger] cs[i]).min_x()
            &&& b.top_left.y.value() <= cs[i].min_y()
            &&& cs[i].max_x() <= b.bottom_right.x.value()
            &&& cs[i].max_y() <= b.bottom_right.y.value()
        }
    &&& exists|i: int| 0 <= i < cs.len() && b.top_left.x.value() == #[trigger] cs[i].min_x()
    &&& exists|i: int| 0 <= i < cs.len() && b.top_left.y.value() == #[trigger] cs[i].min_y()
    &&& exists|i: int| 0 <= i < cs.len() && b.bottom_right.x.value() == #[trigger] cs[i].max_x()
    &&& exists|i: int| 0 <= i < cs.len() && b.bottom_right.y.value() == #[trigger] cs[i].max_y()
}

impl Path {
    pub fn new() -> (r: Path)
        ensures
            r@ == Seq::<PathCommand>::empty(),
    {
        Path { commands: Vec::new() }
    }

    pub fn with_capacity(capacity: usize) -> (r: Path)
        ensures
            r@ == Seq::<PathCommand>::empty(),
    {
        Path { commands: Vec::with_capacity(capacity) }
    }

    pub fn from_commands(commands: Vec<PathCommand>) -> (r: Path)
        ensures
            r@ == commands@,
    {
        Path { commands }
    }

    /// Mutable references to the defining points of every command, in order. The
    /// kinds of the commands stay as they are.
    pub fn locations_mut(&mut self) -> (r: Vec<&mut Point>)
        ensures
            r@.len() == path_points(old(self)@).len(),
            forall|i: int| 0 <= i < r@.len() ==> *r@[i] == path_points(old(self)@)[i],
            path_points(final(self)@).len() == r@.len(),
            forall|i: int| 0 <= i < r@.len() ==> path_points(final(self)@)[i] == *final(r@[i]),
            same_kinds(final(self)@, old(self)@),
    {
        commands_locations_mut(self.commands.as_mut_slice())
    }

    pub fn len(&self) -> (r: usize)
        ensures
            r == self@.len(),
    {
        self.commands.len()
    }

    pub fn is_empty(&self) -> (r: bool)
        ensures
            r == (self@.len() == 0),
    {
        self.commands.len() == 0
    }

    /// The commands in the order they were appended.
    pub fn commands(&self) -> (r: &[PathCommand])
        ensures
            r@ == self@,
    {
        self.commands.as_slice()
    }

    pub fn push(&mut self, command: PathCommand)
        ensures
            final(self)@ == old(self)@.push(command),
    {
        self.commands.push(command);
    }

    pub fn move_to(&mut self, point: Point)
        ensures
            final(self)@ == old(self)@.push(PathCommand::MoveTo(point)),
    {
        self.commands.push(PathCommand::MoveTo(point));
    }

    pub fn line_to(&mut self, point: Point)
        ensures
            final(self)@ == old(self)@.push(PathCommand::LineTo(point)),
    {
        self.commands.push(PathCommand::LineTo(point));
    }

    pub fn quad_to(&mut self, control: Point, end: Point)
        ensures
            final(self)@ == old(self)@.push(PathCommand::QuadTo { control, end }),
    {
        self.commands.push(PathCommand::QuadTo { control, end });
    }

    pub fn curve_to(&mut self, control_one: Point, control_two: Point, end: Point)
        ensures
            final(self)@ == old(self)@.push(
                PathCommand::CurveTo { control_one, control_two, end },
            ),
    {
        self.commands.push(PathCommand::CurveTo { control_one, control_two, end });
    }

    /// The box spanned by the componentwise least and greatest defining points of all
    /// commands; `None` for a path without commands.
    pub fn bounding_box(&self) -> (r: Option<Rectangle>)
        ensures
            r is None <==> self@.len() == 0,
            r matches Some(b) ==> is_bounding_box(self@, b),
    {
        let n = self.commands.len();
        if n == 0 {
            return None;
        }
        let (mut min, mut max) = self.commands[0].axis_bounds();
        let ghost cs = self@;
        let mut i: usize = 1;
        while i < n
            invariant
                1 <= i <= n,
                n == cs.len(),
                cs == self@,
                forall|j: int|
                    0 <= j < i ==> {
                        &&& min.x.value() <= (#[trigger] cs[j]).min_x()
                        &&& min.y.value() <= cs[j].min_y()
                        &&& cs[j].max_x() <= max.x.value()
                        &&& cs[j].max_y() <= max.y.value()
                    },
                exists|j: int| 0 <= j < i && min.x.value() == #[trigger] cs[j].min_x(),
                exists|j: int| 0 <= j < i && min.y.value() == #[trigger] cs[j].min_y(),
                exists|j: int| 0 <= j < i && max.x.value() == #[trigger] cs[j].max_x(),
                exists|j: int| 0 <= j < i && max.y.value() == #[trigger] cs[j].max_y(),
            decreases n - i,
        {
            let (lo, hi) = self.commands[i].axis_bounds();
            min = Point { x: min.x.min(lo.x), y: min.y.min(lo.y) };
            max = Point { x: max.x.max(hi.x), y: max.y.max(hi.y) };
            i = i + 1;
        }
        Some(
            Rectangle {
                top_left: min,
                bottom_right: max,
                rot: Rotation { cos: Fixed { hundredths: 100 }, sin: Fixed { hundredths: 0 } },
            },
        )
    }
}

} // verus!
