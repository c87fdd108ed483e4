//! Colors and paints: solid colors, linear gradients, and their CSS text.
use vstd::prelude::*;

use crate::geometry::Rotation;
use crate::number::{hundredths_text, nat_text, push_hundredths, push_nat, Fixed};

verus! {

/// An opaque color.
#[derive(Clone, Copy, Debug, PartialEq, Eq, Structural)]
pub struct Rgb {
    /// red
    pub r: u8,
    /// green
    pub g: u8,
    /// blue
    pub b: u8,
}

/// `rgb(r, g, b)`.
pub open spec fn rgb_css(r: u8, g: u8, b: u8) -> Seq<char> {
    seq!['r', 'g', 'b', '('] + nat_text(r as nat) + seq![',', ' '] + nat_text(g as nat) + seq![
        ',',
        ' ',
    ] + nat_text(b as nat) + seq![')']
}

/// `rgba(r, g, b, a)`, the alpha in its shortest decimal text.
pub open spec fn rgba_css(r: u8, g: u8, b: u8, a: Fixed) -> Seq<char> {
    seq!['r', 'g', 'b', 'a', '('] + nat_text(r as nat) + seq![',', ' '] + nat_text(g as nat)
        + seq![',', ' '] + nat_text(b as nat) + seq![',', ' '] + hundredths_text(a.value())
        + seq![')']
}

fn push_components(out: &mut String, r: u8, g: u8, b: u8)
    ensures
        final(out)@ == old(out)@ + nat_text(r as nat) + seq![',', ' '] + nat_text(g as nat)
            + seq![',', ' '] + nat_text(b as nat),
{
    let ghost start = out@;
    proof {
        reveal_strlit(", ");
    }
    push_nat(out, r as u64);
    out.append(", ");
    push_nat(out, g as u64);
    out.append(", ");
    push_nat(out, b as u64);
    assert(out@ =~= start + nat_text(r as nat) + seq![',', ' '] + nat_text(g as nat) + seq![
        ',',
        ' ',
    ] + nat_text(b as nat));
}

impl Rgb {
    pub fn new(r: u8, g: u8, b: u8) -> (c: Rgb)
        ensures
            c == (Rgb { r, g, b }),
    {
        Rgb { r, g, b }
    }

    /// The CSS text of the color, `rgb(0, 0, 0)` for black.
    pub fn css(&self) -> (s: String)
        ensures
            s@ == rgb_css(self.r, self.g, self.b),
    {
        let mut out = String::new();
        proof {
            reveal_strlit("rgb(");
            reveal_strlit(")");
        }
        out.append("rgb(");
        push_components(&mut out, self.r, self.g, self.b);
        out.append(")");
        assert(out@ =~= rgb_css(self.r, self.g, self.b));
        out
    }

    pub fn into_tuple(self) -> (t: (u8, u8, u8))
        ensures
            t == (self.r, self.g, self.b),
    {
        (self.r, self.g, self.b)
    }
}

/// A color with an opacity between 0 and 1.
#[derive(Clone, Copy, Debug, PartialEq, Eq, Structural)]
pub struct Rgba {
    /// red
    pub r: u8,
    /// green
    pub g: u8,
    /// blue
    pub b: u8,
    /// alpha (opacity between 0 and 1)
    pub a: Fixed,
}

impl Rgba {
    pub fn new(r: u8, g: u8, b: u8, a: Fixed) -> (c: Rgba)
        ensures
            c == (Rgba { r, g, b, a }),
    {
        Rgba { r, g, b, a }
    }

    /// The CSS text of the color, `rgba(0, 0, 0, 0.5)`.
    pub fn css(&self) -> (s: String)
        ensures
            s@ == rgba_css(self.r, self.g, self.b, self.a),
    {
        let mut out = String::new();
        proof {
            reveal_strlit("rgba(");
            reveal_strlit(", ");
            reveal_strlit(")");
        }
        out.append("rgba(");
        push_components(&mut out, self.r, self.g, self.b);
        out.append(", ");
        push_hundredths(&mut out, self.a.hundredths as i64);
        out.append(")");
        assert(out@ =~= rgba_css(self.r, self.g, self.b, self.a));
        out
    }

    pub fn into_tuple(self) -> (t: (u8, u8, u8, Fixed))
        ensures
            t == (self.r, self.g, self.b, self.a),
    {
        (self.r, self.g, self.b, self.a)
    }
}

/// A single color, opaque or with an opacity.
#[derive(Clone, Copy, Debug, PartialEq, Eq, Structural)]
pub enum SolidColor {
    Opaque(Rgb),
    Alpha(Rgba),
}

impl SolidColor {
    pub open spec fn spec_css(self) -> Seq<char> {
        match self {
            SolidColor::Opaque(c) => rgb_css(c.r, c.g, c.b),
            SolidColor::Alpha(c) => rgba_css(c.r, c.g, c.b, c.a),
        }
    }

    pub fn css(&self) -> (s: String)
        ensures
            s@ == self.spec_css(),
    {
        match self {
            SolidColor::Alpha(a) => a.css(),
            SolidColor::Opaque(o) => o.css(),
        }
    }
}

/// What a [`Gradient`] is: a rotation and its color stops, in order.
pub struct GradientView {
    pub rot: Rotation,
    pub stops: Seq<(SolidColor, Fixed)>,
}

/// A linear gradient: a rotation and an ordered list of colors, each with its stop
/// offset between 0 and 1.
#[derive(Debug, PartialEq)]
pub struct Gradient {
    rot: Rotation,
    colors: Vec<(SolidColor, Fixed)>,
}

impl View for Gradient {
    type V = GradientView;

    closed spec fn view(&self) -> GradientView {
        GradientView { rot: self.rot, stops: self.colors@ }
    }
}

impl Gradient {
    pub fn linear(rot: Rotation, colors: Vec<(SolidColor, Fixed)>) -> (g: Gradient)
        ensures
            g@ == (GradientView { rot, stops: colors@ }),
    {
        Gradient { rot, colors }
    }

    pub fn rotation(&self) -> (r: Rotation)
        ensures
            r == self@.rot,
    {
        self.rot
    }

    /// The color stops, in order.
    pub fn colors(&self) -> (r: &[(SolidColor, Fixed)])
        ensures
            r@ == self@.stops,
    {
        self.colors.as_slice()
    }

    /// A gradient equal to this one.
    pub fn copy(&self) -> (g: Gradient)
        ensures
            g@ == self@,
    {
        let mut colors: Vec<(SolidColor, Fixed)> = Vec::new();
        let mut i: usize = 0;
        while i < self.colors.len()
            invariant
                i <= self.colors@.len(),
                colors@ == self.colors@.subrange(0, i as int),
            decreases self.colors@.len() - i,
        {
            colors.push(self.colors[i]);
            i = i + 1;
            assert(colors@ =~= self.colors@.subrange(0, i as int));
        }
        assert(colors@ =~= self.colors@);
        Gradient { rot: self.rot, colors }
    }

    /// Structural equality: the same rotation and the same stops in the same order.
    pub fn same_as(&self, other: &Gradient) -> (r: bool)
        ensures
            r == (self@ == other@),
    {
        if self.rot != other.rot || self.colors.len() != other.colors.len() {
            assert(self@.rot != other@.rot || self@.stops.len() != other@.stops.len());
            return false;
        }
        let mut i: usize = 0;
        while i < self.colors.len()
            invariant
                i <= self.colors@.len(),
                self.colors@.len() == other.colors@.len(),
                forall|j: int| 0 <= j < i ==> self.colors@[j] == other.colors@[j],
            decreases self.colors@.len() - i,
        {
            let (c1, o1) = self.colors[i];
            let (c2, o2) = other.colors[i];
            if c1 != c2 || o1 != o2 {
                assert(self@.stops[i as int] != other@.stops[i as int]);
                return false;
            }
            i = i + 1;
        }
        assert(self@.stops =~= other@.stops);
        true
    }
}

/// What a [`Paint`] is.
pub enum PaintView {
    Solid(SolidColor),
    Gradient(GradientView),
}

/// A fill or stroke color source: a solid color or a gradient.
#[derive(Debug, PartialEq)]
pub enum Paint {
    Solid(SolidColor),
    Gradient(Gradient),
}

impl View for Paint {
    type V = PaintView;

    open spec fn view(&self) -> PaintView {
        match self {
            Paint::Solid(c) => PaintView::Solid(*c),
            Paint::Gradient(g) => PaintView::Gradient(g@),
        }
    }
}

impl Paint {
    pub fn solid(color: SolidColor) -> (p: Paint)
        ensures
            p@ == PaintView::Solid(color),
    {
        Paint::Solid(color)
    }

    pub fn rgb(r: u8, g: u8, b: u8) -> (p: Paint)
        ensures
            p@ == PaintView::Solid(SolidColor::Opaque(Rgb { r, g, b })),
    {
        Paint::Solid(SolidColor::Opaque(Rgb { r, g, b }))
    }

    pub fn from_rgb(color: Rgb) -> (p: Paint)
        ensures
            p@ == PaintView::Solid(SolidColor::Opaque(color)),
    {
        Paint::Solid(SolidColor::Opaque(color))
    }

    pub fn from_rgba(color: Rgba) -> (p: Paint)
        ensures
            p@ == PaintView::Solid(SolidColor::Alpha(color)),
    {
        Paint::Solid(SolidColor::Alpha(color))
    }

    pub fn from_gradient(gradient: Gradient) -> (p: Paint)
        ensures
            p@ == PaintView::Gradient(gradient@),
    {
        Paint::Gradient(gradient)
    }

    /// A paint equal to this one.
    pub fn copy(&self) -> (p: Paint)
        ensures
            p@ == self@,
    {
        match self {
            Paint::Solid(c) => Paint::Solid(*c),
            Paint::Gradient(g) => Paint::Gradient(g.copy()),
        }
    }
}

/// A gradient that is either borrowed for as long as a call needs it, or owned.
#[derive(Debug)]
pub enum GradientRef<'a> {
    Borrowed(&'a Gradient),
    Owned(Gradient),
}

impl<'a> View for GradientRef<'a> {
    type V = GradientView;

    open spec fn view(&self) -> GradientView {
        match self {
            GradientRef::Borrowed(g) => g@,
            GradientRef::Owned(g) => g@,
        }
    }
}

/// A paint whose gradient may be borrowed rather than owned.
#[derive(Debug)]
pub enum PaintRef<'a> {
    Solid(SolidColor),
    Gradient(GradientRef<'a>),
}

impl<'a> View for PaintRef<'a> {
    type V = PaintView;

    open spec fn view(&self) -> PaintView {
        match self {
            PaintRef::Solid(c) => PaintView::Solid(*c),
            PaintRef::Gradient(g) => PaintView::Gradient(g@),
        }
    }
}

impl<'a> PaintRef<'a> {
    /// Whether the paint holds a borrowed gradient.
    pub open spec fn spec_is_borrowed(&self) -> bool {
        self matches PaintRef::Gradient(GradientRef::Borrowed(_))
    }

    pub fn is_borrowed(&self) -> (r: bool)
        ensures
            r == self.spec_is_borrowed(),
    {
        match self {
            PaintRef::Gradient(GradientRef::Borrowed(_)) => true,
            _ => false,
        }
    }

    /// The same paint, its gradient borrowed from this one whether it was owned or
    /// borrowed here.
    pub fn clone_shallow(&self) -> (r: PaintRef<'_>)
        ensures
            r@ == self@,
            r is Gradient ==> r.spec_is_borrowed(),
    {
        match self {
            PaintRef::Solid(c) => PaintRef::Solid(*c),
            PaintRef::Gradient(GradientRef::Borrowed(g)) => PaintRef::Gradient(
                GradientRef::Borrowed(*g),
            ),
            PaintRef::Gradient(GradientRef::Owned(g)) => PaintRef::Gradient(
                GradientRef::Borrowed(g),
            ),
        }
    }

    /// Promotes the paint to one that owns its gradient, copying a borrowed one.
    pub fn into_owned(self) -> (p: Paint)
        ensures
            p@ == self@,
    {
        match self {
            PaintRef::Solid(c) => Paint::Solid(c),
            PaintRef::Gradient(GradientRef::Borrowed(g)) => Paint::Gradient(g.copy()),
            PaintRef::Gradient(GradientRef::Owned(g)) => Paint::Gradient(g),
        }
    }
}

impl Paint {
    /// The same paint with its gradient borrowed from this one.
    pub fn clone_shallow(&self) -> (r: PaintRef<'_>)
        ensures
            r@ == self@,
            r is Gradient ==> r.spec_is_borrowed(),
    {
        match self {
            Paint::Solid(c) => PaintRef::Solid(*c),
            Paint::Gradient(g) => PaintRef::Gradient(GradientRef::Borrowed(g)),
        }
    }
}

} // verus!
