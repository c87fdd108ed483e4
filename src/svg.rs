//! The SVG backend: turns drawing calls into an XML tree, keeps one `<defs>` entry per
//! distinct gradient, tracks the extent of everything drawn for the `viewBox`, and
//! serializes the document.
use vstd::prelude::*;

use crate::color::{rgb_css, Gradient, GradientView, Paint, PaintView, SolidColor};
use crate::drawing::{
    instructions_of, is_unsupported, CommandView, DrawCommand, Drawing, InstructionView,
};
use crate::geometry::{Circle, Point, Rectangle};
use crate::number::{
    hundredths_text, int_text, max_int, nat_text, push_hundredths, push_nat, push_two_places,
    two_places_text, Fixed,
};
use crate::path::{is_bounding_box, Path, PathCommand};
use crate::style::{DrawStyle, StyleView};
use crate::xml::{attrs_view, attrs_with, XmlChild, XmlNode};

verus! {

/// Why a render pass failed.
#[derive(Clone, Copy, Debug, PartialEq, Eq, Structural)]
pub enum SvgError {
    /// Text and images are not rendered by this backend.
    NotImplemented,
}

pub open spec fn fill_key() -> Seq<char> {
    seq!['f', 'i', 'l', 'l']
}

pub open spec fn stroke_key() -> Seq<char> {
    seq!['s', 't', 'r', 'o', 'k', 'e']
}

pub open spec fn stroke_width_key() -> Seq<char> {
    seq!['s', 't', 'r', 'o', 'k', 'e', '-', 'w', 'i', 'd', 't', 'h']
}

/// The index of the first gradient of `list` equal to `g`, or the length of `list`
/// when there is none.
pub open spec fn index_in(list: Seq<GradientView>, g: GradientView) -> nat
    decreases list.len(),
{
    if list.len() == 0 {
        0
    } else {
        let i = index_in(list.drop_last(), g);
        if i < list.len() - 1 {
            i
        } else if list.last() == g {
            (list.len() - 1) as nat
        } else {
            list.len()
        }
    }
}

/// The list after `g` is used: unchanged if it holds `g` already, else `g` appended.
pub open spec fn registered(list: Seq<GradientView>, g: GradientView) -> Seq<GradientView> {
    if index_in(list, g) < list.len() {
        list
    } else {
        list.push(g)
    }
}

/// `index_in` is the first position of `g`, or the length when `g` is absent.
pub proof fn lemma_index_in(list: Seq<GradientView>, g: GradientView)
    ensures
        index_in(list, g) <= list.len(),
        index_in(list, g) < list.len() ==> list[index_in(list, g) as int] == g,
        forall|j: int| 0 <= j < index_in(list, g) ==> #[trigger] list[j] != g,
    decreases list.len(),
{
    if list.len() > 0 {
        let t = list.drop_last();
        lemma_index_in(t, g);
        assert forall|j: int| 0 <= j < t.len() implies #[trigger] list[j] == t[j] by {}
    }
}

/// Using a gradient equal to one already used reuses its entry and its index; using
/// two distinct new gradients appends both, with increasing indices in the order of
/// first use.
pub proof fn lemma_gradient_dedup(list: Seq<GradientView>, g1: GradientView, g2: GradientView)
    ensures
        g1 == g2 ==> registered(registered(list, g1), g2) == registered(list, g1) && index_in(
            registered(list, g1),
            g2,
        ) == index_in(list, g1),
        g1 != g2 && (forall|i: int| 0 <= i < list.len() ==> #[trigger] list[i] != g1 && list[i]
            != g2) ==> registered(registered(list, g1), g2) == list.push(g1).push(g2)
            && index_in(list, g1) == list.len() && index_in(registered(list, g1), g2)
            == list.len() + 1,
{
    let l1 = registered(list, g1);
    lemma_index_in(list, g1);
    lemma_index_in(l1, g2);
    if g1 == g2 {
        let i = index_in(list, g1);
        assert(l1[i as int] == g1) by {
            if i == list.len() {
                assert(l1 == list.push(g1));
            }
        }
        assert forall|j: int| 0 <= j < i implies #[trigger] l1[j] != g2 by {
            assert(l1[j] == list[j]);
        }
        if index_in(l1, g2) < i {
            assert(l1[index_in(l1, g2) as int] == g2);
        }
        if index_in(l1, g2) > i {
            assert(l1[i as int] != g2);
        }
    } else if forall|i: int| 0 <= i < list.len() ==> #[trigger] list[i] != g1 && list[i] != g2 {
        if index_in(list, g1) < list.len() {
            assert(list[index_in(list, g1) as int] == g1);
        }
        assert(l1 == list.push(g1));
        if index_in(l1, g2) < l1.len() {
            let k = index_in(l1, g2) as int;
            assert(l1[k] == g2);
            if k < list.len() {
                assert(l1[k] == list[k]);
            }
        }
    }
}

/// Two elements drawn into a new document with gradient fills: equal gradients give a
/// single fill definition that both reference by index 0; distinct ones give two
/// definitions in the order of first use, referenced by indices 0 and 1.
pub proof fn lemma_fill_gradients_in_new_document(
    v0: SvgView,
    v1: SvgView,
    v2: SvgView,
    s1: StyleView,
    s2: StyleView,
    g1: GradientView,
    g2: GradientView,
    tag1: Seq<char>,
    tag2: Seq<char>,
    base1: Seq<(Seq<char>, Seq<char>)>,
    base2: Seq<(Seq<char>, Seq<char>)>,
    e1: Option<(int, int)>,
    e2: Option<(int, int)>,
)
    requires
        is_new_document(v0),
        s1.fill == Some(PaintView::Gradient(g1)),
        s2.fill == Some(PaintView::Gradient(g2)),
        element_step(v0, s1, tag1, base1, e1, v1),
        element_step(v1, s2, tag2, base2, e2, v2),
    ensures
        index_in(v0.fills, g1) == 0,
        g1 == g2 ==> v2.fills == seq![g1] && index_in(v1.fills, g2) == 0,
        g1 != g2 ==> v2.fills == seq![g1, g2] && index_in(v1.fills, g2) == 1,
{
    lemma_gradient_dedup(v0.fills, g1, g2);
    assert(v0.fills =~= Seq::<GradientView>::empty());
    assert(v1.fills == registered(v0.fills, g1));
    assert(v2.fills == registered(v1.fills, g2));
    assert(Seq::<GradientView>::empty().push(g1) =~= seq![g1]);
    assert(Seq::<GradientView>::empty().push(g1).push(g2) =~= seq![g1, g2]);
}

/// `url(#<key><i>)`.
pub open spec fn url_ref(key: Seq<char>, i: int) -> Seq<char> {
    seq!['u', 'r', 'l', '(', '#'] + key + int_text(i) + seq![')']
}

/// The attributes and gradient list after painting with `p` under `key`: a solid
/// color is written as its CSS text; a gradient is registered and referenced by the
/// index of its entry.
pub open spec fn paint_attrs(
    attrs: Seq<(Seq<char>, Seq<char>)>,
    key: Seq<char>,
    p: Option<PaintView>,
    list: Seq<GradientView>,
) -> (Seq<(Seq<char>, Seq<char>)>, Seq<GradientView>) {
    match p {
        None => (attrs, list),
        Some(PaintView::Solid(c)) => (attrs_with(attrs, key, c.spec_css()), list),
        Some(PaintView::Gradient(g)) => (
            attrs_with(attrs, key, url_ref(key, index_in(list, g) as int)),
            registered(list, g),
        ),
    }
}

/// The attributes and the (fill, stroke) gradient lists after applying a style to an
/// element: fill, then stroke, then the stroke width when there is one.
pub open spec fn styled(
    attrs: Seq<(Seq<char>, Seq<char>)>,
    s: StyleView,
    fills: Seq<GradientView>,
    strokes: Seq<GradientView>,
) -> (Seq<(Seq<char>, Seq<char>)>, Seq<GradientView>, Seq<GradientView>) {
    let (a1, f1) = paint_attrs(attrs, fill_key(), s.fill, fills);
    let (a2, s1) = paint_attrs(a1, stroke_key(), s.stroke, strokes);
    let a3 = match s.stroke_width {
        None => a2,
        Some(w) => attrs_with(a2, stroke_width_key(), hundredths_text(w.value())),
    };
    (a3, f1, s1)
}

/// The running extent after drawing something that reaches `e`: componentwise the
/// larger of the two.
pub open spec fn grow(b: (int, int), e: (int, int)) -> (int, int) {
    (max_int(b.0, e.0), max_int(b.1, e.1))
}

/// The extent of a sequence of drawn things, starting from the origin.
pub open spec fn extent_of(es: Seq<(int, int)>) -> (int, int)
    decreases es.len(),
{
    if es.len() == 0 {
        (0, 0)
    } else {
        grow(extent_of(es.drop_last()), es.last())
    }
}

/// The extent after any number of drawn things holds each of them componentwise, and
/// drawing one more never shrinks it.
pub proof fn lemma_extent_contains(es: Seq<(int, int)>, e: (int, int))
    ensures
        forall|i: int|
            0 <= i < es.len() ==> extent_of(es).0 >= (#[trigger] es[i]).0 && extent_of(es).1
                >= es[i].1,
        extent_of(es).0 >= 0 && extent_of(es).1 >= 0,
        extent_of(es.push(e)) == grow(extent_of(es), e),
        extent_of(es.push(e)).0 >= extent_of(es).0,
        extent_of(es.push(e)).1 >= extent_of(es).1,
    decreases es.len(),
{
    assert(es.push(e).drop_last() =~= es);
    if es.len() > 0 {
        let t = es.drop_last();
        lemma_extent_contains(t, es.last());
        assert forall|i: int| 0 <= i < es.len() implies extent_of(es).0 >= (
        #[trigger] es[i]).0 && extent_of(es).1 >= es[i].1 by {
            if i < t.len() {
                assert(es[i] == t[i]);
            }
        }
    }
}

/// Whether `c` is an element with that tag and those attributes, and no children.
pub open spec fn is_leaf(c: XmlChild, tag: Seq<char>, attrs: Seq<(Seq<char>, Seq<char>)>) -> bool {
    &&& c matches XmlChild::Element(n)
    &&& n.tag@ == tag
    &&& attrs_view(n.attributes@) == attrs
    &&& n.children@.len() == 0
}

/// What an [`Svg`] has accumulated.
pub struct SvgView {
    pub root: XmlNode,
    pub strokes: Seq<GradientView>,
    pub fills: Seq<GradientView>,
    pub bbox: (int, int),
    pub failed: bool,
}

/// Drawing one element with the given tag and attributes under `style`: the element,
/// with the style's attributes, is appended to the root, the gradients are registered,
/// and the extent grows by what the element reaches.
pub open spec fn element_step(
    v0: SvgView,
    style: StyleView,
    tag: Seq<char>,
    base: Seq<(Seq<char>, Seq<char>)>,
    extent: Option<(int, int)>,
    v1: SvgView,
) -> bool {
    let (attrs, fills, strokes) = styled(base, style, v0.fills, v0.strokes);
    &&& v1.fills == fills
    &&& v1.strokes == strokes
    &&& v1.bbox == match extent {
        None => v0.bbox,
        Some(e) => grow(v0.bbox, e),
    }
    &&& v1.failed == v0.failed
    &&& v1.root.tag == v0.root.tag
    &&& v1.root.attributes == v0.root.attributes
    &&& v1.root.children@.len() == v0.root.children@.len() + 1
    &&& v1.root.children@.drop_last() == v0.root.children@
    &&& is_leaf(v1.root.children@.last(), tag, attrs)
}

pub open spec fn point_text(p: Point) -> Seq<char> {
    hundredths_text(p.x.value()) + seq![' '] + hundredths_text(p.y.value())
}

/// A path command in SVG path data: `M x y`, `L x y`, `Q cx cy x y` or
/// `C c1x c1y c2x c2y x y`.
pub open spec fn command_text(c: PathCommand) -> Seq<char> {
    match c {
        PathCommand::MoveTo(p) => seq!['M', ' '] + point_text(p),
        PathCommand::LineTo(p) => seq!['L', ' '] + point_text(p),
        PathCommand::QuadTo { control, end } => seq!['Q', ' '] + point_text(control) + seq![' ']
            + point_text(end),
        PathCommand::CurveTo { control_one, control_two, end } => seq!['C', ' '] + point_text(
            control_one,
        ) + seq![' '] + point_text(control_two) + seq![' '] + point_text(end),
    }
}

/// The path data of a sequence of commands, separated by spaces.
pub open spec fn path_data(cs: Seq<PathCommand>) -> Seq<char>
    decreases cs.len(),
{
    if cs.len() == 0 {
        Seq::empty()
    } else if cs.len() == 1 {
        command_text(cs[0])
    } else {
        path_data(cs.drop_last()) + seq![' '] + command_text(cs.last())
    }
}

pub open spec fn circle_attrs(position: Point, radius: Fixed) -> Seq<(Seq<char>, Seq<char>)> {
    attrs_with(
        attrs_with(
            attrs_with(Seq::empty(), seq!['c', 'x'], hundredths_text(position.x.value())),
            seq!['c', 'y'],
            hundredths_text(position.y.value()),
        ),
        seq!['r'],
        hundredths_text(radius.value()),
    )
}

/// Drawing a circle: a `<circle>` reaching its center plus its radius on each axis.
pub open spec fn circle_step(
    v0: SvgView,
    style: StyleView,
    position: Point,
    radius: Fixed,
    v1: SvgView,
) -> bool {
    element_step(
        v0,
        style,
        seq!['c', 'i', 'r', 'c', 'l', 'e'],
        circle_attrs(position, radius),
        Some((position.x.value() + radius.value(), position.y.value() + radius.value())),
        v1,
    )
}

/// Drawing a path: a `<path>` reaching the far corner of the path's bounding box, or
/// reaching nothing when the path is empty.
pub open spec fn path_step(v0: SvgView, style: StyleView, cs: Seq<PathCommand>, v1: SvgView) -> bool {
    let tag = seq!['p', 'a', 't', 'h'];
    let base = attrs_with(Seq::empty(), seq!['d'], path_data(cs));
    if cs.len() == 0 {
        element_step(v0, style, tag, base, None, v1)
    } else {
        exists|b: Rectangle|
            is_bounding_box(cs, b) && #[trigger] element_step(
                v0,
                style,
                tag,
                base,
                Some((b.bottom_right.x.value(), b.bottom_right.y.value())),
                v1,
            )
    }
}

/// Drawing one instruction.
pub open spec fn instruction_step(v0: SvgView, ins: InstructionView, v1: SvgView) -> bool {
    match ins.command {
        CommandView::Path(cs) => path_step(v0, ins.style, cs, v1),
        CommandView::Circle { position, radius } => circle_step(
            v0,
            ins.style,
            position,
            radius,
            v1,
        ),
        _ => false,
    }
}

/// Drawing the instructions in order passes through `states`: from the first state,
/// each instruction takes the backend to the next one.
pub open spec fn emits_through(states: Seq<SvgView>, ins: Seq<InstructionView>) -> bool {
    &&& states.len() == ins.len() + 1
    &&& forall|i: int|
        0 <= i < ins.len() ==> instruction_step(states[i], #[trigger] ins[i], states[i + 1])
}

/// Drawing the instructions in order takes the backend from `v0` to `v1`.
pub open spec fn emits(v0: SvgView, ins: Seq<InstructionView>, v1: SvgView) -> bool {
    exists|states: Seq<SvgView>|
        #[trigger] emits_through(states, ins) && states[0] == v0 && states.last() == v1
}

/// Whether the extent `b` holds, on both axes, the far side of a circle or the
/// farthest defining point of every command of a path.
pub open spec fn holds_reach(c: CommandView, b: (int, int)) -> bool {
    match c {
        CommandView::Circle { position, radius } => b.0 >= position.x.value() + radius.value()
            && b.1 >= position.y.value() + radius.value(),
        CommandView::Path(cs) => forall|k: int|
            0 <= k < cs.len() ==> b.0 >= (#[trigger] cs[k]).max_x() && b.1 >= cs[k].max_y(),
        _ => true,
    }
}

/// Whether a circle's far side, or a path's farthest defining point, lies at `v` on
/// the x axis.
pub open spec fn attains_x(c: CommandView, v: int) -> bool {
    match c {
        CommandView::Circle { position, radius } => v == position.x.value() + radius.value(),
        CommandView::Path(cs) => exists|k: int| 0 <= k < cs.len() && (#[trigger] cs[k]).max_x() == v,
        _ => false,
    }
}

/// As [`attains_x`], on the y axis.
pub open spec fn attains_y(c: CommandView, v: int) -> bool {
    match c {
        CommandView::Circle { position, radius } => v == position.y.value() + radius.value(),
        CommandView::Path(cs) => exists|k: int| 0 <= k < cs.len() && (#[trigger] cs[k]).max_y() == v,
        _ => false,
    }
}

/// Drawing from a new document, the extent on each axis is zero or is reached by
/// one of the things drawn. With [`lemma_draw_extent`], the `viewBox` written by
/// `build` is, on each axis, the greatest of zero and every reach.
pub proof fn lemma_view_box_attained(states: Seq<SvgView>, ins: Seq<InstructionView>)
    requires
        emits_through(states, ins),
        states[0].bbox == (0int, 0int),
    ensures
        states.last().bbox.0 == 0 || exists|j: int|
            0 <= j < ins.len() && attains_x((#[trigger] ins[j]).command, states.last().bbox.0),
        states.last().bbox.1 == 0 || exists|j: int|
            0 <= j < ins.len() && attains_y((#[trigger] ins[j]).command, states.last().bbox.1),
{
    lemma_attained_upto(states, ins, ins.len() as int);
}

proof fn lemma_attained_upto(states: Seq<SvgView>, ins: Seq<InstructionView>, i: int)
    requires
        emits_through(states, ins),
        states[0].bbox == (0int, 0int),
        0 <= i <= ins.len(),
    ensures
        states[i].bbox.0 == 0 || exists|j: int|
            0 <= j < i && attains_x((#[trigger] ins[j]).command, states[i].bbox.0),
        states[i].bbox.1 == 0 || exists|j: int|
            0 <= j < i && attains_y((#[trigger] ins[j]).command, states[i].bbox.1),
    decreases i,
{
    if i > 0 {
        lemma_attained_upto(states, ins, i - 1);
        lemma_step_extent(states[i - 1], ins[i - 1], states[i]);
    }
}

proof fn lemma_step_extent(v0: SvgView, ins: InstructionView, v1: SvgView)
    requires
        instruction_step(v0, ins, v1),
    ensures
        v1.bbox.0 >= v0.bbox.0 && v1.bbox.1 >= v0.bbox.1,
        holds_reach(ins.command, v1.bbox),
        v1.bbox.0 == v0.bbox.0 || attains_x(ins.command, v1.bbox.0),
        v1.bbox.1 == v0.bbox.1 || attains_y(ins.command, v1.bbox.1),
{
    match ins.command {
        CommandView::Path(cs) => {
            let tag = seq!['p', 'a', 't', 'h'];
            let base = attrs_with(Seq::empty(), seq!['d'], path_data(cs));
            if cs.len() > 0 {
                let b = choose|b: Rectangle|
                    is_bounding_box(cs, b) && #[trigger] element_step(
                        v0,
                        ins.style,
                        tag,
                        base,
                        Some((b.bottom_right.x.value(), b.bottom_right.y.value())),
                        v1,
                    );
                assert(v1.bbox == grow(v0.bbox, (b.bottom_right.x.value(), b.bottom_right.y.value())));
            }
        },
        _ => {},
    }
}

proof fn lemma_holds_reach_grows(c: CommandView, b1: (int, int), b2: (int, int))
    requires
        holds_reach(c, b1),
        b2.0 >= b1.0 && b2.1 >= b1.1,
    ensures
        holds_reach(c, b2),
{
}

/// Along a drawing pass the extent never shrinks, and at the end it holds the reach
/// of every circle and path drawn.
pub proof fn lemma_draw_extent(states: Seq<SvgView>, ins: Seq<InstructionView>)
    requires
        emits_through(states, ins),
    ensures
        forall|i: int, j: int|
            0 <= i <= j < states.len() ==> (#[trigger] states[j]).bbox.0 >= (
            #[trigger] states[i]).bbox.0 && states[j].bbox.1 >= states[i].bbox.1,
        forall|i: int| 0 <= i < ins.len() ==> holds_reach((#[trigger] ins[i]).command, states.last().bbox),
{
    assert forall|i: int| 0 <= i < ins.len() implies (#[trigger] states[i + 1]).bbox.0
        >= states[i].bbox.0 && states[i + 1].bbox.1 >= states[i].bbox.1 by {
        lemma_step_extent(states[i], ins[i], states[i + 1]);
    }
    assert forall|i: int, j: int| 0 <= i <= j < states.len() implies (
    #[trigger] states[j]).bbox.0 >= (#[trigger] states[i]).bbox.0 && states[j].bbox.1
        >= states[i].bbox.1 by {
        lemma_extent_chain(states, ins, i, j);
    }
    let n = states.len() - 1;
    assert forall|i: int| 0 <= i < ins.len() implies holds_reach((#[trigger] ins[i]).command, states.last().bbox) by {
        lemma_step_extent(states[i], ins[i], states[i + 1]);
        lemma_extent_chain(states, ins, i + 1, n);
        lemma_holds_reach_grows(ins[i].command, states[i + 1].bbox, states[n].bbox);
    }
}

proof fn lemma_extent_chain(states: Seq<SvgView>, ins: Seq<InstructionView>, i: int, j: int)
    requires
        emits_through(states, ins),
        0 <= i <= j < states.len(),
        forall|m: int|
            0 <= m < ins.len() ==> (#[trigger] states[m + 1]).bbox.0 >= states[m].bbox.0
                && states[m + 1].bbox.1 >= states[m].bbox.1,
    ensures
        states[j].bbox.0 >= states[i].bbox.0 && states[j].bbox.1 >= states[i].bbox.1,
    decreases j - i,
{
    if i < j {
        lemma_extent_chain(states, ins, i, j - 1);
        assert(states[(j - 1) + 1].bbox.0 >= states[j - 1].bbox.0);
    }
}

pub open spec fn percent_text(hundredths_of_percent: int) -> Seq<char> {
    two_places_text(hundredths_of_percent) + seq!['%']
}

/// The attributes of a gradient's `<linearGradient>`: the direction from the rotation,
/// each coordinate mapped from [-1, 1] to [0%, 100%], then the id.
pub open spec fn gradient_attrs(g: GradientView, id: Seq<char>) -> Seq<(Seq<char>, Seq<char>)> {
    let c = g.rot.cos.value();
    let s = g.rot.sin.value();
    attrs_with(
        attrs_with(
            attrs_with(
                attrs_with(
                    attrs_with(Seq::empty(), seq!['x', '1'], percent_text((100 - c) * 50)),
                    seq!['y', '1'],
                    percent_text((100 + s) * 50),
                ),
                seq!['x', '2'],
                percent_text((100 + c) * 50),
            ),
            seq!['y', '2'],
            percent_text((100 - s) * 50),
        ),
        seq!['i', 'd'],
        id,
    )
}

/// The attributes of a gradient stop: its offset as a percentage and its color; a
/// color with an opacity also writes the opacity apart.
pub open spec fn stop_attrs(stop: (SolidColor, Fixed)) -> Seq<(Seq<char>, Seq<char>)> {
    let offset = attrs_with(
        Seq::empty(),
        seq!['o', 'f', 'f', 's', 'e', 't'],
        percent_text(stop.1.value() * 100),
    );
    let color_key = seq!['s', 't', 'o', 'p', '-', 'c', 'o', 'l', 'o', 'r'];
    match stop.0 {
        SolidColor::Opaque(c) => attrs_with(offset, color_key, rgb_css(c.r, c.g, c.b)),
        SolidColor::Alpha(c) => attrs_with(
            attrs_with(offset, color_key, rgb_css(c.r, c.g, c.b)),
            seq!['s', 't', 'o', 'p', '-', 'o', 'p', 'a', 'c', 'i', 't', 'y'],
            hundredths_text(c.a.value()),
        ),
    }
}

pub open spec fn linear_gradient_tag() -> Seq<char> {
    seq!['l', 'i', 'n', 'e', 'a', 'r', 'G', 'r', 'a', 'd', 'i', 'e', 'n', 't']
}

/// Whether `n` is the `<linearGradient>` of `g` with the given id, one `<stop>` per
/// color stop.
pub open spec fn is_gradient_node(n: XmlNode, g: GradientView, id: Seq<char>) -> bool {
    &&& n.tag@ == linear_gradient_tag()
    &&& attrs_view(n.attributes@) == gradient_attrs(g, id)
    &&& n.children@.len() == g.stops.len()
    &&& forall|j: int|
        0 <= j < g.stops.len() ==> is_leaf(
            #[trigger] n.children@[j],
            seq!['s', 't', 'o', 'p'],
            stop_attrs(g.stops[j]),
        )
}

/// Whether `c` is the `<linearGradient>` element of `g` with the given id.
pub open spec fn is_gradient_child(c: XmlChild, g: GradientView, id: Seq<char>) -> bool {
    &&& c matches XmlChild::Element(gn)
    &&& is_gradient_node(gn, g, id)
}

/// Whether `c` is the `<defs>` element: the stroke gradients with ids `stroke0`,
/// `stroke1`, ..., then the fill gradients with ids `fill0`, `fill1`, ....
pub open spec fn is_defs(c: XmlChild, strokes: Seq<GradientView>, fills: Seq<GradientView>) -> bool {
    &&& c matches XmlChild::Element(n)
    &&& n.tag@ == seq!['d', 'e', 'f', 's']
    &&& n.attributes@.len() == 0
    &&& n.children@.len() == strokes.len() + fills.len()
    &&& forall|i: int|
        0 <= i < strokes.len() ==> is_gradient_child(#[trigger] n.children@[i], strokes[i], stroke_key() + int_text(i))
    &&& forall|i: int|
        0 <= i < fills.len() ==> is_gradient_child(#[trigger] n.children@[strokes.len() + i], fills[i], fill_key() + int_text(i))
}

/// `0 0 W H` for the extent (W, H).
pub open spec fn view_box_text(b: (int, int)) -> Seq<char> {
    seq!['0', ' ', '0', ' '] + hundredths_text(b.0) + seq![' '] + hundredths_text(b.1)
}

/// The finished root: the `viewBox` attribute written from the extent, and a leading
/// `<defs>` when any gradient was used.
pub open spec fn finished_root(v: SvgView, root: XmlNode) -> bool {
    &&& root.tag == v.root.tag
    &&& attrs_view(root.attributes@) == attrs_with(
        attrs_view(v.root.attributes@),
        seq!['v', 'i', 'e', 'w', 'B', 'o', 'x'],
        view_box_text(v.bbox),
    )
    &&& v.strokes.len() + v.fills.len() == 0 ==> root.children@ == v.root.children@
    &&& v.strokes.len() + v.fills.len() > 0 ==> {
        &&& root.children@.len() == v.root.children@.len() + 1
        &&& root.children@.drop_first() == v.root.children@
        &&& is_defs(root.children@[0], v.strokes, v.fills)
    }
}

/// A document with nothing drawn: the root `<svg xmlns="http://www.w3.org/2000/svg">`,
/// no gradients, and an extent at the origin.
pub open spec fn is_new_document(v: SvgView) -> bool {
    &&& v.root.tag@ == seq!['s', 'v', 'g']
    &&& attrs_view(v.root.attributes@) == attrs_with(
        Seq::empty(),
        seq!['x', 'm', 'l', 'n', 's'],
        "http://www.w3.org/2000/svg"@,
    )
    &&& v.root.children@.len() == 0
    &&& v.strokes.len() == 0
    &&& v.fills.len() == 0
    &&& v.bbox == (0int, 0int)
    &&& !v.failed
}

/// Finishing a document with nothing drawn gives no `<defs>` and no child, and the
/// `viewBox` `0 0 0 0` after the namespace.
pub proof fn lemma_empty_document(v: SvgView, root: XmlNode)
    requires
        is_new_document(v),
        finished_root(v, root),
    ensures
        root.children@.len() == 0,
        attrs_view(root.attributes@) == seq![
            (seq!['x', 'm', 'l', 'n', 's'], "http://www.w3.org/2000/svg"@),
            (seq!['v', 'i', 'e', 'w', 'B', 'o', 'x'], seq!['0', ' ', '0', ' ', '0', ' ', '0']),
        ],
{
    let xmlns = seq!['x', 'm', 'l', 'n', 's'];
    let view_box = seq!['v', 'i', 'e', 'w', 'B', 'o', 'x'];
    let url = "http://www.w3.org/2000/svg"@;
    assert(nat_text(0) =~= seq!['0']);
    assert(hundredths_text(0) =~= seq!['0']);
    assert(view_box_text((0, 0)) =~= seq!['0', ' ', '0', ' ', '0', ' ', '0']);
    let first = attrs_with(Seq::empty(), xmlns, url);
    assert(first =~= seq![(xmlns, url)]);
    assert(first[0].0 != view_box) by {
        assert(first[0].0[0] != view_box[0]);
    }
    assert(first.drop_first() =~= Seq::<(Seq<char>, Seq<char>)>::empty());
    let t = view_box_text((0, 0));
    assert(attrs_with(first.drop_first(), view_box, t) == seq![(view_box, t)]);
    assert(attrs_with(first, view_box, t) == seq![first[0]] + attrs_with(first.drop_first(), view_box, t));
    assert(attrs_with(first, view_box, view_box_text((0, 0))) =~= seq![
        (xmlns, url),
        (view_box, seq!['0', ' ', '0', ' ', '0', ' ', '0']),
    ]);
}

pub open spec fn gradients_view(v: Seq<Gradient>) -> Seq<GradientView> {
    v.map_values(|g: Gradient| g@)
}

/// An SVG document being drawn.
pub struct Svg {
    root: XmlNode,
    stroke_gradients: Vec<Gradient>,
    fill_gradients: Vec<Gradient>,
    bounding_box: (i64, i64),
    failed: bool,
}

impl View for Svg {
    type V = SvgView;

    closed spec fn view(&self) -> SvgView {
        SvgView {
            root: self.root,
            strokes: gradients_view(self.stroke_gradients@),
            fills: gradients_view(self.fill_gradients@),
            bbox: (self.bounding_box.0 as int, self.bounding_box.1 as int),
            failed: self.failed,
        }
    }
}

fn find_gradient(list: &Vec<Gradient>, g: &Gradient) -> (r: usize)
    ensures
        r == index_in(gradients_view(list@), g@),
{
    let ghost l = gradients_view(list@);
    proof {
        lemma_index_in(l, g@);
    }
    let mut i: usize = 0;
    while i < list.len()
        invariant
            i <= list@.len(),
            l == gradients_view(list@),
            index_in(l, g@) <= l.len(),
            index_in(l, g@) < l.len() ==> l[index_in(l, g@) as int] == g@,
            forall|j: int| 0 <= j < index_in(l, g@) ==> #[trigger] l[j] != g@,
            forall|j: int| 0 <= j < i ==> #[trigger] l[j] != g@,
        decreases list@.len() - i,
    {
        if list[i].same_as(g) {
            proof {
                assert(l[i as int] == g@);
                if index_in(l, g@) < i {
                    assert(l[index_in(l, g@) as int] == g@);
                }
            }
            return i;
        }
        i = i + 1;
    }
    proof {
        if index_in(l, g@) < l.len() {
            assert(l[index_in(l, g@) as int] == g@);
        }
    }
    i
}

fn paint_value(paint: &Paint, list: &mut Vec<Gradient>, key: &str) -> (r: String)
    ensures
        match paint@ {
            PaintView::Solid(c) => r@ == c.spec_css() && final(list)@ == old(list)@,
            PaintView::Gradient(g) => r@ == url_ref(
                key@,
                index_in(gradients_view(old(list)@), g) as int,
            ) && gradients_view(final(list)@) == registered(gradients_view(old(list)@), g),
        },
{
    match paint {
        Paint::Solid(color) => color.css(),
        Paint::Gradient(gradient) => {
            let ghost l = gradients_view(list@);
            let mut i = find_gradient(list, gradient);
            if i == list.len() {
                list.push(gradient.copy());
                proof {
                    assert(gradients_view(list@) =~= l.push(gradient@));
                }
            }
            let mut out = String::new();
            proof {
                reveal_strlit("url(#");
                reveal_strlit(")");
            }
            out.append("url(#");
            out.append(key);
            push_nat(&mut out, i as u64);
            out.append(")");
            assert(out@ =~= url_ref(key@, i as int));
            out
        },
    }
}

impl Svg {
    /// An empty document: the root `<svg xmlns="http://www.w3.org/2000/svg">`, no
    /// gradients, and an extent at the origin.
    pub fn new() -> (s: Svg)
        ensures
            is_new_document(s@),
    {
        let mut root = XmlNode::new("svg");
        proof {
            reveal_strlit("svg");
            reveal_strlit("xmlns");
            assert("svg"@ =~= seq!['s', 'v', 'g']);
            assert("xmlns"@ =~= seq!['x', 'm', 'l', 'n', 's']);
        }
        root.push_attribute("xmlns", "http://www.w3.org/2000/svg".to_owned());
        let s = Svg {
            root,
            stroke_gradients: Vec::new(),
            fill_gradients: Vec::new(),
            bounding_box: (0, 0),
            failed: false,
        };
        proof {
            assert(gradients_view(s.stroke_gradients@) =~= Seq::empty());
            assert(gradients_view(s.fill_gradients@) =~= Seq::empty());
        }
        s
    }

    /// The extent so far, in hundredths.
    pub fn bounding_box(&self) -> (r: (i64, i64))
        ensures
            (r.0 as int, r.1 as int) == self@.bbox,
    {
        self.bounding_box
    }

    fn handle_new_element(
        &mut self,
        style: &DrawStyle,
        el: XmlNode,
        extent: Option<(i64, i64)>,
    )
        requires
            el.children@.len() == 0,
        ensures
            element_step(
                old(self)@,
                style@,
                el.tag@,
                attrs_view(el.attributes@),
                match extent {
                    None => None,
                    Some(e) => Some((e.0 as int, e.1 as int)),
                },
                final(self)@,
            ),
    {
        let mut el = el;
        if let Some(e) = extent {
            if e.0 > self.bounding_box.0 {
                self.bounding_box.0 = e.0;
            }
            if e.1 > self.bounding_box.1 {
                self.bounding_box.1 = e.1;
            }
        }
        proof {
            reveal_strlit("fill");
            reveal_strlit("stroke");
            reveal_strlit("stroke-width");
            assert("fill"@ =~= fill_key());
            assert("stroke"@ =~= stroke_key());
            assert("stroke-width"@ =~= stroke_width_key());
        }
        if let Some(fill) = &style.fill {
            let v = paint_value(fill, &mut self.fill_gradients, "fill");
            el.push_attribute("fill", v);
        }
        if let Some(stroke) = &style.stroke {
            let v = paint_value(stroke, &mut self.stroke_gradients, "stroke");
            el.push_attribute("stroke", v);
        }
        if let Some(sw) = style.stroke_width {
            el.push_attribute("stroke-width", sw.to_text());
        }
        let ghost before = self.root.children@;
        self.root.push_child(XmlChild::Element(el));
        proof {
            assert(self.root.children@.drop_last() =~= before);
        }
    }

    /// Draws a path. The extent grows to the far corner of the path's bounding box.
    pub fn path(&mut self, style: &DrawStyle, path: &Path)
        ensures
            path_step(old(self)@, style@, path@, final(self)@),
    {
        let mut el = XmlNode::new("path");
        let d = path_data_text(path);
        el.push_attribute("d", d);
        let bb = path.bounding_box();
        let extent = match bb {
            Some(b) => Some((b.bottom_right.x.hundredths as i64, b.bottom_right.y.hundredths as i64)),
            None => None,
        };
        proof {
            reveal_strlit("path");
            reveal_strlit("d");
            assert("path"@ =~= seq!['p', 'a', 't', 'h']);
            assert("d"@ =~= seq!['d']);
        }
        let ghost v0 = self@;
        self.handle_new_element(style, el, extent);
        proof {
            if let Some(b) = bb {
                assert(element_step(
                    v0,
                    style@,
                    seq!['p', 'a', 't', 'h'],
                    attrs_with(Seq::empty(), seq!['d'], path_data(path@)),
                    Some((b.bottom_right.x.value(), b.bottom_right.y.value())),
                    self@,
                ));
            }
        }
    }
}


fn push_point(out: &mut String, p: Point)
    ensures
        final(out)@ == old(out)@ + point_text(p),
{
    let ghost start = out@;
    proof {
        reveal_strlit(" ");
    }
    push_hundredths(out, p.x.hundredths as i64);
    out.append(" ");
    push_hundredths(out, p.y.hundredths as i64);
    assert(out@ =~= start + point_text(p));
}

fn push_command(out: &mut String, c: PathCommand)
    ensures
        final(out)@ == old(out)@ + command_text(c),
{
    let ghost start = out@;
    proof {
        reveal_strlit(" ");
        reveal_strlit("M ");
        reveal_strlit("L ");
        reveal_strlit("Q ");
        reveal_strlit("C ");
    }
    match c {
        PathCommand::MoveTo(p) => {
            out.append("M ");
            push_point(out, p);
        },
        PathCommand::LineTo(p) => {
            out.append("L ");
            push_point(out, p);
        },
        PathCommand::QuadTo { control, end } => {
            out.append("Q ");
            push_point(out, control);
            out.append(" ");
            push_point(out, end);
        },
        PathCommand::CurveTo { control_one, control_two, end } => {
            out.append("C ");
            push_point(out, control_one);
            out.append(" ");
            push_point(out, control_two);
            out.append(" ");
            push_point(out, end);
        },
    }
    assert(out@ =~= start + command_text(c));
}

/// The path data attribute of a path.
pub fn path_data_text(path: &Path) -> (r: String)
    ensures
        r@ == path_data(path@),
{
    let cs = path.commands();
    let mut out = String::new();
    let mut i: usize = 0;
    proof {
        assert(cs@.subrange(0, 0) =~= Seq::<PathCommand>::empty());
    }
    while i < cs.len()
        invariant
            i <= cs@.len(),
            out@ == path_data(cs@.subrange(0, i as int)),
        decreases cs@.len() - i,
    {
        let ghost before = out@;
        let ghost next = cs@.subrange(0, i + 1);
        proof {
            reveal_strlit(" ");
            assert(next.drop_last() =~= cs@.subrange(0, i as int));
            assert(next.last() == cs@[i as int]);
        }
        if i > 0 {
            out.append(" ");
        }
        push_command(&mut out, cs[i]);
        proof {
            if i == 0 {
                assert(next[0] == cs@[0]);
                assert(out@ =~= path_data(next));
            } else {
                assert(out@ =~= path_data(next));
            }
        }
        i = i + 1;
    }
    proof {
        assert(cs@.subrange(0, i as int) =~= cs@);
    }
    out
}

/// The `<linearGradient>` element of a gradient, with its id.
fn gradient_node(g: &Gradient, id: String) -> (n: XmlNode)
    ensures
        is_gradient_node(n, g@, id@),
{
    let rot = g.rotation();
    let c = rot.cos.hundredths as i64;
    let s = rot.sin.hundredths as i64;
    let mut n = XmlNode::new("linearGradient");
    proof {
        reveal_strlit("linearGradient");
        reveal_strlit("x1");
        reveal_strlit("y1");
        reveal_strlit("x2");
        reveal_strlit("y2");
        reveal_strlit("id");
        assert("linearGradient"@ =~= linear_gradient_tag());
    }
    n.push_attribute("x1", percent((100 - c) * 50));
    assert("x1"@ =~= seq!['x', '1']);
    n.push_attribute("y1", percent((100 + s) * 50));
    assert("y1"@ =~= seq!['y', '1']);
    n.push_attribute("x2", percent((100 + c) * 50));
    assert("x2"@ =~= seq!['x', '2']);
    n.push_attribute("y2", percent((100 - s) * 50));
    assert("y2"@ =~= seq!['y', '2']);
    n.push_attribute("id", id);
    assert("id"@ =~= seq!['i', 'd']);
    let stops = g.colors();
    let mut j: usize = 0;
    while j < stops.len()
        invariant
            j <= stops@.len(),
            stops@ == g@.stops,
            n.tag@ == linear_gradient_tag(),
            attrs_view(n.attributes@) == gradient_attrs(g@, id@),
            n.children@.len() == j,
            forall|k: int|
                0 <= k < j ==> is_leaf(
                    #[trigger] n.children@[k],
                    seq!['s', 't', 'o', 'p'],
                    stop_attrs(g@.stops[k]),
                ),
        decreases stops@.len() - j,
    {
        let stop = stop_node(stops[j]);
        n.push_child(XmlChild::Element(stop));
        j = j + 1;
    }
    n
}

fn percent(hundredths_of_percent: i64) -> (r: String)
    ensures
        r@ == percent_text(hundredths_of_percent as int),
{
    let mut out = String::new();
    proof {
        reveal_strlit("%");
    }
    push_two_places(&mut out, hundredths_of_percent);
    out.append("%");
    assert(out@ =~= percent_text(hundredths_of_percent as int));
    out
}

/// The `<stop>` element of a color stop.
fn stop_node(stop: (SolidColor, Fixed)) -> (n: XmlNode)
    ensures
        n.tag@ == seq!['s', 't', 'o', 'p'],
        attrs_view(n.attributes@) == stop_attrs(stop),
        n.children@.len() == 0,
{
    let mut n = XmlNode::new("stop");
    proof {
        reveal_strlit("stop");
        reveal_strlit("offset");
        reveal_strlit("stop-color");
        reveal_strlit("stop-opacity");
        assert("stop"@ =~= seq!['s', 't', 'o', 'p']);
        assert("offset"@ =~= seq!['o', 'f', 'f', 's', 'e', 't']);
        assert("stop-color"@ =~= seq!['s', 't', 'o', 'p', '-', 'c', 'o', 'l', 'o', 'r']);
        assert("stop-opacity"@ =~= seq!['s', 't', 'o', 'p', '-', 'o', 'p', 'a', 'c', 'i', 't', 'y']);
    }
    n.push_attribute("offset", percent(stop.1.hundredths as i64 * 100));
    match stop.0 {
        SolidColor::Opaque(c) => {
            n.push_attribute("stop-color", c.css());
        },
        SolidColor::Alpha(c) => {
            let opaque = crate::color::Rgb::new(c.r, c.g, c.b);
            n.push_attribute("stop-color", opaque.css());
            n.push_attribute("stop-opacity", c.a.to_text());
        },
    }
    n
}

fn gradient_id(prefix: &str, i: usize) -> (r: String)
    ensures
        r@ == prefix@ + int_text(i as int),
{
    let mut out = String::new();
    out.append(prefix);
    push_nat(&mut out, i as u64);
    assert(out@ =~= prefix@ + int_text(i as int));
    out
}

impl Svg {
    /// Draws a circle. The extent grows to the center plus the radius on each axis.
    pub fn circle(&mut self, style: &DrawStyle, point: Point, radius: Fixed)
        ensures
            circle_step(old(self)@, style@, point, radius, final(self)@),
    {
        let mut el = XmlNode::new("circle");
        proof {
            reveal_strlit("circle");
            reveal_strlit("cx");
            reveal_strlit("cy");
            reveal_strlit("r");
            assert("circle"@ =~= seq!['c', 'i', 'r', 'c', 'l', 'e']);
            assert("cx"@ =~= seq!['c', 'x']);
            assert("cy"@ =~= seq!['c', 'y']);
            assert("r"@ =~= seq!['r']);
        }
        el.push_attribute("cx", point.x.to_text());
        el.push_attribute("cy", point.y.to_text());
        el.push_attribute("r", radius.to_text());
        let extent = (
            point.x.hundredths as i64 + radius.hundredths as i64,
            point.y.hundredths as i64 + radius.hundredths as i64,
        );
        self.handle_new_element(style, el, Some(extent));
    }

    /// Draws a rectangle as its closed outline.
    /// Draws a rectangle as the closed outline through its rotated corners. Nothing
    /// is drawn when a corner leaves the range of [`Fixed`].
    pub fn rectangle(&mut self, style: &DrawStyle, rectangle: &Rectangle)
        ensures
            rectangle.corners_fit() ==> path_step(
                old(self)@,
                style@,
                rectangle.outline(),
                final(self)@,
            ),
            !rectangle.corners_fit() ==> final(self)@ == old(self)@,
    {
        if let Some(path) = rectangle.to_path() {
            self.path(style, &path);
        }
    }

    /// Text is not rendered by this backend: the pass fails, and `build` reports it.
    pub fn text(&mut self, style: &DrawStyle, text: &str) -> (r: Result<(), SvgError>)
        ensures
            r == Err::<(), SvgError>(SvgError::NotImplemented),
            final(self)@ == (SvgView { failed: true, ..old(self)@ }),
    {
        self.failed = true;
        Err(SvgError::NotImplemented)
    }

    /// Images are not rendered by this backend: the pass fails, and `build` reports it.
    pub fn image(&mut self, src: &crate::image::ImageSource) -> (r: Result<(), SvgError>)
        ensures
            r == Err::<(), SvgError>(SvgError::NotImplemented),
            final(self)@ == (SvgView { failed: true, ..old(self)@ }),
    {
        self.failed = true;
        Err(SvgError::NotImplemented)
    }

    /// Draws every instruction of the drawing in the order of the walk. The first
    /// text or image stops the pass with an error.
    pub fn draw(&mut self, drawing: &Drawing) -> (r: Result<(), SvgError>)
        ensures
            r is Err <==> exists|i: int|
                0 <= i < instructions_of(*drawing).len() && is_unsupported(
                    #[trigger] instructions_of(*drawing)[i],
                ),
            r is Err ==> r == Err::<(), SvgError>(SvgError::NotImplemented) && final(self)@.failed,
            r is Ok ==> emits(old(self)@, instructions_of(*drawing), final(self)@),
    {
        let ins = drawing.instructions();
        let ghost all = instructions_of(*drawing);
        let ghost start = self@;
        let ghost mut states: Seq<SvgView> = seq![self@];
        let mut k: usize = 0;
        while k < ins.len()
            invariant
                k <= ins@.len(),
                all == instructions_of(*drawing),
                ins@.len() == all.len(),
                forall|i: int| 0 <= i < ins@.len() ==> #[trigger] ins@[i]@ == all[i],
                states.len() == k + 1,
                states[0] == start,
                states.last() == self@,
                forall|i: int|
                    0 <= i < k ==> instruction_step(states[i], #[trigger] all[i], states[i + 1]),
                forall|i: int| 0 <= i < k ==> !is_unsupported(#[trigger] all[i]),
            decreases ins@.len() - k,
        {
            let ghost before = self@;
            proof {
                assert(ins@[k as int]@ == all[k as int]);
            }
            let instruction = &ins[k];
            match instruction.command {
                DrawCommand::Path(path) => {
                    self.path(&instruction.style, path);
                },
                DrawCommand::Circle { position, radius } => {
                    self.circle(&instruction.style, *position, *radius);
                },
                DrawCommand::Text { text, start: _, end: _, font: _ } => {
                    let _ = self.text(&instruction.style, text.as_str());
                    assert(is_unsupported(instructions_of(*drawing)[k as int]));
                    return Err(SvgError::NotImplemented);
                },
                DrawCommand::Image { src, props: _ } => {
                    let _ = self.image(src);
                    assert(is_unsupported(instructions_of(*drawing)[k as int]));
                    return Err(SvgError::NotImplemented);
                },
            }
            proof {
                let prev = states;
                states = states.push(self@);
                assert forall|i: int| 0 <= i < k + 1 implies instruction_step(
                    states[i],
                    #[trigger] all[i],
                    states[i + 1],
                ) by {
                    if i < k {
                        assert(states[i] == prev[i] && states[i + 1] == prev[i + 1]);
                    } else {
                        assert(states[i] == before);
                    }
                }
            }
            k = k + 1;
        }
        proof {
            assert(emits_through(states, all));
        }
        Ok(())
    }

    /// Finishes the document: writes the `viewBox` from the extent, puts the gradient
    /// definitions first when any gradient was used, and serializes the tree. Fails if
    /// an unsupported call was made.
    pub fn build(self) -> (r: Result<String, SvgError>)
        ensures
            self@.failed ==> r == Err::<String, SvgError>(SvgError::NotImplemented),
            !self@.failed ==> (r matches Ok(s) && exists|root: XmlNode|
                finished_root(self@, root) && s@ == crate::xml::node_text(root)),
    {
        if self.failed {
            return Err(SvgError::NotImplemented);
        }
        let ghost v = self@;
        let mut root = self.root;
        let mut view_box = String::new();
        proof {
            reveal_strlit("0 0 ");
            reveal_strlit(" ");
            reveal_strlit("viewBox");
            reveal_strlit("defs");
            reveal_strlit("stroke");
            reveal_strlit("fill");
            assert("viewBox"@ =~= seq!['v', 'i', 'e', 'w', 'B', 'o', 'x']);
            assert("defs"@ =~= seq!['d', 'e', 'f', 's']);
            assert("stroke"@ =~= stroke_key());
            assert("fill"@ =~= fill_key());
        }
        view_box.append("0 0 ");
        push_hundredths(&mut view_box, self.bounding_box.0);
        view_box.append(" ");
        push_hundredths(&mut view_box, self.bounding_box.1);
        assert(view_box@ =~= view_box_text(v.bbox));
        root.push_attribute("viewBox", view_box);
        let ns = self.stroke_gradients.len();
        let nf = self.fill_gradients.len();
        if ns > 0 || nf > 0 {
            let mut defs = XmlNode::new("defs");
            let mut i: usize = 0;
            while i < ns
                invariant
                    i <= ns,
                    ns == v.strokes.len(),
                    v.strokes == gradients_view(self.stroke_gradients@),
                    defs.tag@ == seq!['d', 'e', 'f', 's'],
                    defs.attributes@.len() == 0,
                    defs.children@.len() == i,
                    forall|j: int|
                        0 <= j < i ==> is_gradient_child(#[trigger] defs.children@[j], v.strokes[j], stroke_key() + int_text(j)),
                decreases ns - i,
            {
                proof {
                    reveal_strlit("stroke");
                    assert("stroke"@ =~= stroke_key());
                }
                let id = gradient_id("stroke", i);
                let gn = gradient_node(&self.stroke_gradients[i], id);
                let ghost before = defs.children@;
                defs.push_child(XmlChild::Element(gn));
                proof {
                    assert(v.strokes[i as int] == self.stroke_gradients@[i as int]@);
                    assert forall|j: int| 0 <= j < i + 1 implies is_gradient_child(#[trigger] defs.children@[j], v.strokes[j], stroke_key() + int_text(j)) by {
                        if j < i {
                            assert(defs.children@[j] == before[j]);
                        }
                    }
                }
                i = i + 1;
            }
            let mut i: usize = 0;
            while i < nf
                invariant
                    i <= nf,
                    ns == v.strokes.len(),
                    nf == v.fills.len(),
                    v.fills == gradients_view(self.fill_gradients@),
                    defs.tag@ == seq!['d', 'e', 'f', 's'],
                    defs.attributes@.len() == 0,
                    defs.children@.len() == ns + i,
                    forall|j: int|
                        0 <= j < ns ==> is_gradient_child(#[trigger] defs.children@[j], v.strokes[j], stroke_key() + int_text(j)),
                    forall|j: int|
                        0 <= j < i ==> is_gradient_child(#[trigger] defs.children@[ns + j], v.fills[j], fill_key() + int_text(j)),
                decreases nf - i,
            {
                proof {
                    reveal_strlit("fill");
                    assert("fill"@ =~= fill_key());
                    assert(v.fills[i as int] == self.fill_gradients@[i as int]@);
                }
                let id = gradient_id("fill", i);
                let gn = gradient_node(&self.fill_gradients[i], id);
                let ghost before = defs.children@;
                defs.push_child(XmlChild::Element(gn));
                proof {
                    assert forall|j: int| 0 <= j < ns implies is_gradient_child(#[trigger] defs.children@[j], v.strokes[j], stroke_key() + int_text(j)) by {
                        assert(defs.children@[j] == before[j]);
                    }
                    assert forall|j: int| 0 <= j < i + 1 implies is_gradient_child(#[trigger] defs.children@[ns + j], v.fills[j], fill_key() + int_text(j)) by {
                        if j < i {
                            assert(defs.children@[ns + j] == before[ns + j]);
                        }
                    }
                }
                i = i + 1;
            }
            let ghost before = root.children@;
            root.prepend_child(XmlChild::Element(defs));
            proof {
                assert(root.children@.drop_first() =~= before);
            }
        }
        let text = root.write();
        assert(finished_root(v, root));
        Ok(text)
    }
}

/// A shape paired with the style it is drawn with.
#[derive(Debug)]
pub struct Styled<T> {
    pub shape: T,
    pub style: DrawStyle,
}

impl Circle {
    pub fn with_style(self, style: DrawStyle) -> (r: Styled<Circle>)
        ensures
            r.shape == self,
            r.style == style,
    {
        Styled { shape: self, style }
    }
}

impl Rectangle {
    pub fn with_style(self, style: DrawStyle) -> (r: Styled<Rectangle>)
        ensures
            r.shape == self,
            r.style == style,
    {
        Styled { shape: self, style }
    }
}

impl Path {
    pub fn with_style(self, style: DrawStyle) -> (r: Styled<Path>)
        ensures
            r.shape@ == self@,
            r.style == style,
    {
        Styled { shape: self, style }
    }
}

impl Styled<Circle> {
    pub fn draw(&self, canvas: &mut Svg)
        ensures
            circle_step(
                old(canvas)@,
                self.style@,
                self.shape.position,
                self.shape.radius,
                final(canvas)@,
            ),
    {
        canvas.circle(&self.style, self.shape.position, self.shape.radius);
    }

    /// A new document holding only this circle.
    pub fn draw_onto_canvas(&self) -> (s: Svg)
        ensures
            exists|v0: SvgView|
                is_new_document(v0) && #[trigger] circle_step(
                    v0,
                    self.style@,
                    self.shape.position,
                    self.shape.radius,
                    s@,
                ),
    {
        let mut canvas = Svg::new();
        let ghost v0 = canvas@;
        self.draw(&mut canvas);
        assert(is_new_document(v0));
        canvas
    }
}

impl Styled<Rectangle> {
    pub fn draw(&self, canvas: &mut Svg)
        ensures
            self.shape.corners_fit() ==> path_step(
                old(canvas)@,
                self.style@,
                self.shape.outline(),
                final(canvas)@,
            ),
            !self.shape.corners_fit() ==> final(canvas)@ == old(canvas)@,
    {
        canvas.rectangle(&self.style, &self.shape);
    }
}

impl Styled<Path> {
    pub fn draw(&self, canvas: &mut Svg)
        ensures
            path_step(old(canvas)@, self.style@, self.shape@, final(canvas)@),
    {
        canvas.path(&self.style, &self.shape);
    }
}

} // verus!
