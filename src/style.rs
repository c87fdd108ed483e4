//! Style records: a resolved style, a node's per-field overrides, and the cascade
//! rule that combines them.
use vstd::prelude::*;

use crate::color::{Paint, PaintRef, PaintView};
use crate::number::Fixed;

verus! {

/// How a node sets one style field.
///
/// `Inherit` takes the parent's resolved value; `ExplicitlyAbsent` clears the field
/// whatever the ancestors hold; `ExplicitlyValue` sets it.
#[derive(Debug, PartialEq)]
pub enum StyleOverride<T> {
    Inherit,
    ExplicitlyAbsent,
    ExplicitlyValue(T),
}

/// The cascade rule for one field.
pub open spec fn resolve<T>(o: StyleOverride<T>, parent: Option<T>) -> Option<T> {
    match o {
        StyleOverride::Inherit => parent,
        StyleOverride::ExplicitlyAbsent => None,
        StyleOverride::ExplicitlyValue(v) => Some(v),
    }
}

pub open spec fn override_of_paint(o: StyleOverride<Paint>) -> StyleOverride<PaintView> {
    match o {
        StyleOverride::Inherit => StyleOverride::Inherit,
        StyleOverride::ExplicitlyAbsent => StyleOverride::ExplicitlyAbsent,
        StyleOverride::ExplicitlyValue(p) => StyleOverride::ExplicitlyValue(p@),
    }
}

pub open spec fn option_of_paint(o: Option<Paint>) -> Option<PaintView> {
    match o {
        None => None,
        Some(p) => Some(p@),
    }
}

fn copy_paint_option(o: &Option<Paint>) -> (r: Option<Paint>)
    ensures
        option_of_paint(r) == option_of_paint(*o),
{
    match o {
        None => None,
        Some(p) => Some(p.copy()),
    }
}

fn copy_paint_override(o: &StyleOverride<Paint>) -> (r: StyleOverride<Paint>)
    ensures
        override_of_paint(r) == override_of_paint(*o),
{
    match o {
        StyleOverride::Inherit => StyleOverride::Inherit,
        StyleOverride::ExplicitlyAbsent => StyleOverride::ExplicitlyAbsent,
        StyleOverride::ExplicitlyValue(p) => StyleOverride::ExplicitlyValue(p.copy()),
    }
}

fn copy_width_override(o: &StyleOverride<Fixed>) -> (r: StyleOverride<Fixed>)
    ensures
        r == *o,
{
    match o {
        StyleOverride::Inherit => StyleOverride::Inherit,
        StyleOverride::ExplicitlyAbsent => StyleOverride::ExplicitlyAbsent,
        StyleOverride::ExplicitlyValue(w) => StyleOverride::ExplicitlyValue(*w),
    }
}

/// A paint used as a fill.
#[derive(Debug, PartialEq)]
pub struct Fill {
    paint: Paint,
}

impl Fill {
    pub fn new(paint: Paint) -> (f: Fill)
        ensures
            f.paint() == paint,
    {
        Fill { paint }
    }

    pub closed spec fn paint(&self) -> Paint {
        self.paint
    }

    pub fn paint_ref(&self) -> (r: &Paint)
        ensures
            *r == self.paint(),
    {
        &self.paint
    }

    pub fn into_paint(self) -> (p: Paint)
        ensures
            p == self.paint(),
    {
        self.paint
    }
}

/// A paint used as a stroke color.
#[derive(Debug, PartialEq)]
pub struct StrokeColor {
    paint: Paint,
}

impl StrokeColor {
    pub fn new(paint: Paint) -> (s: StrokeColor)
        ensures
            s.paint() == paint,
    {
        StrokeColor { paint }
    }

    pub closed spec fn paint(&self) -> Paint {
        self.paint
    }

    pub fn paint_ref(&self) -> (r: &Paint)
        ensures
            *r == self.paint(),
    {
        &self.paint
    }

    pub fn into_paint(self) -> (p: Paint)
        ensures
            p == self.paint(),
    {
        self.paint
    }
}

/// What a [`DrawStyle`] is.
pub struct StyleView {
    pub fill: Option<PaintView>,
    pub stroke: Option<PaintView>,
    pub stroke_width: Option<Fixed>,
}

impl StyleView {
    pub open spec fn empty() -> StyleView {
        StyleView { fill: None, stroke: None, stroke_width: None }
    }
}

/// A resolved style: each field holds a value or nothing.
#[derive(Debug, PartialEq)]
pub struct DrawStyle {
    pub fill: Option<Paint>,
    pub stroke: Option<Paint>,
    pub stroke_width: Option<Fixed>,
}

impl View for DrawStyle {
    type V = StyleView;

    open spec fn view(&self) -> StyleView {
        StyleView {
            fill: option_of_paint(self.fill),
            stroke: option_of_paint(self.stroke),
            stroke_width: self.stroke_width,
        }
    }
}

impl DrawStyle {
    /// The style with no field set.
    pub fn empty() -> (s: DrawStyle)
        ensures
            s@ == StyleView::empty(),
    {
        DrawStyle { fill: None, stroke: None, stroke_width: None }
    }

    pub fn new(fill: Option<Paint>, stroke: Option<Paint>, stroke_width: Option<Fixed>) -> (s:
        DrawStyle)
        ensures
            s@ == (StyleView {
                fill: option_of_paint(fill),
                stroke: option_of_paint(stroke),
                stroke_width,
            }),
    {
        DrawStyle { fill, stroke, stroke_width }
    }

    /// Only a fill.
    pub fn from_fill(fill: Fill) -> (s: DrawStyle)
        ensures
            s@ == (StyleView { fill: Some(fill.paint()@), ..StyleView::empty() }),
    {
        DrawStyle { fill: Some(fill.into_paint()), stroke: None, stroke_width: None }
    }

    /// Only a stroke color.
    pub fn from_stroke(stroke: StrokeColor) -> (s: DrawStyle)
        ensures
            s@ == (StyleView { stroke: Some(stroke.paint()@), ..StyleView::empty() }),
    {
        DrawStyle { fill: None, stroke: Some(stroke.into_paint()), stroke_width: None }
    }

    pub fn from_width(width: Fixed) -> (s: DrawStyle)
        ensures
            s@ == (StyleView { stroke_width: Some(width), ..StyleView::empty() }),
    {
        DrawStyle { fill: None, stroke: None, stroke_width: Some(width) }
    }

    pub fn fill(&self) -> (r: Option<&Paint>)
        ensures
            match r {
                None => self.fill is None,
                Some(p) => self.fill == Some(*p),
            },
    {
        self.fill.as_ref()
    }

    pub fn stroke(&self) -> (r: Option<&Paint>)
        ensures
            match r {
                None => self.stroke is None,
                Some(p) => self.stroke == Some(*p),
            },
    {
        self.stroke.as_ref()
    }

    pub fn stroke_width(&self) -> (r: Option<Fixed>)
        ensures
            r == self.stroke_width,
    {
        self.stroke_width
    }

    pub fn set_fill(&mut self, fill: Option<Paint>)
        ensures
            final(self)@ == (StyleView { fill: option_of_paint(fill), ..old(self)@ }),
    {
        self.fill = fill;
    }

    pub fn set_stroke(&mut self, stroke: Option<Paint>)
        ensures
            final(self)@ == (StyleView { stroke: option_of_paint(stroke), ..old(self)@ }),
    {
        self.stroke = stroke;
    }

    pub fn set_stroke_width(&mut self, stroke_width: Option<Fixed>)
        ensures
            final(self)@ == (StyleView { stroke_width, ..old(self)@ }),
    {
        self.stroke_width = stroke_width;
    }

    /// A style equal to this one.
    pub fn copy(&self) -> (s: DrawStyle)
        ensures
            s@ == self@,
    {
        DrawStyle {
            fill: copy_paint_option(&self.fill),
            stroke: copy_paint_option(&self.stroke),
            stroke_width: self.stroke_width,
        }
    }
}

pub open spec fn option_of_paint_ref(o: Option<PaintRef<'_>>) -> Option<PaintView> {
    match o {
        None => None,
        Some(p) => Some(p@),
    }
}

/// A resolved style whose gradients may be borrowed: the snapshot a call reads
/// while the style it came from stays where it is.
#[derive(Debug)]
pub struct StyleRef<'a> {
    pub fill: Option<PaintRef<'a>>,
    pub stroke: Option<PaintRef<'a>>,
    pub stroke_width: Option<Fixed>,
}

impl<'a> View for StyleRef<'a> {
    type V = StyleView;

    open spec fn view(&self) -> StyleView {
        StyleView {
            fill: option_of_paint_ref(self.fill),
            stroke: option_of_paint_ref(self.stroke),
            stroke_width: self.stroke_width,
        }
    }
}

fn shallow_paint_ref<'b>(o: &'b Option<PaintRef<'_>>) -> (r: Option<PaintRef<'b>>)
    ensures
        option_of_paint_ref(r) == option_of_paint_ref(*o),
{
    match o {
        None => None,
        Some(p) => Some(p.clone_shallow()),
    }
}

fn owned_paint(o: Option<PaintRef<'_>>) -> (r: Option<Paint>)
    ensures
        option_of_paint(r) == option_of_paint_ref(o),
{
    match o {
        None => None,
        Some(p) => Some(p.into_owned()),
    }
}

fn borrowed_paint(o: &Option<Paint>) -> (r: Option<PaintRef<'_>>)
    ensures
        option_of_paint_ref(r) == option_of_paint(*o),
{
    match o {
        None => None,
        Some(p) => Some(p.clone_shallow()),
    }
}

impl<'a> StyleRef<'a> {
    /// The same style, every gradient borrowed from this one.
    pub fn clone_shallow(&self) -> (r: StyleRef<'_>)
        ensures
            r@ == self@,
    {
        StyleRef {
            fill: shallow_paint_ref(&self.fill),
            stroke: shallow_paint_ref(&self.stroke),
            stroke_width: self.stroke_width,
        }
    }

    /// Promotes the style to one that owns its gradients, copying the borrowed ones.
    pub fn into_owned(self) -> (s: DrawStyle)
        ensures
            s@ == self@,
    {
        DrawStyle {
            fill: owned_paint(self.fill),
            stroke: owned_paint(self.stroke),
            stroke_width: self.stroke_width,
        }
    }
}

impl DrawStyle {
    /// The same style with its gradients borrowed from this one.
    pub fn clone_shallow(&self) -> (r: StyleRef<'_>)
        ensures
            r@ == self@,
    {
        StyleRef {
            fill: borrowed_paint(&self.fill),
            stroke: borrowed_paint(&self.stroke),
            stroke_width: self.stroke_width,
        }
    }

    /// A style that owns copies of what the borrowed style reads.
    pub fn from_style_ref(style: &StyleRef<'_>) -> (s: DrawStyle)
        ensures
            s@ == style@,
    {
        style.clone_shallow().into_owned()
    }
}

/// What an [`InheritedDrawStyle`] is.
pub struct OverrideView {
    pub stroke_width: StyleOverride<Fixed>,
    pub stroke_color: StyleOverride<PaintView>,
    pub fill_color: StyleOverride<PaintView>,
}

impl OverrideView {
    pub open spec fn inherit_all() -> OverrideView {
        OverrideView {
            stroke_width: StyleOverride::Inherit,
            stroke_color: StyleOverride::Inherit,
            fill_color: StyleOverride::Inherit,
        }
    }
}

/// The cascade: each field of the node's overrides decides on its own whether the
/// parent's resolved value is taken, cleared or replaced.
pub open spec fn combine(o: OverrideView, parent: StyleView) -> StyleView {
    StyleView {
        fill: resolve(o.fill_color, parent.fill),
        stroke: resolve(o.stroke_color, parent.stroke),
        stroke_width: resolve(o.stroke_width, parent.stroke_width),
    }
}

/// The style overrides of one node of a drawing.
#[derive(Debug, PartialEq)]
pub struct InheritedDrawStyle {
    pub stroke_width: StyleOverride<Fixed>,
    pub stroke_color: StyleOverride<Paint>,
    pub fill_color: StyleOverride<Paint>,
}

impl View for InheritedDrawStyle {
    type V = OverrideView;

    open spec fn view(&self) -> OverrideView {
        OverrideView {
            stroke_width: self.stroke_width,
            stroke_color: override_of_paint(self.stroke_color),
            fill_color: override_of_paint(self.fill_color),
        }
    }
}

impl InheritedDrawStyle {
    pub fn new(
        stroke_width: StyleOverride<Fixed>,
        stroke_color: StyleOverride<Paint>,
        fill_color: StyleOverride<Paint>,
    ) -> (s: InheritedDrawStyle)
        ensures
            s@ == (OverrideView {
                stroke_width,
                stroke_color: override_of_paint(stroke_color),
                fill_color: override_of_paint(fill_color),
            }),
    {
        InheritedDrawStyle { stroke_width, stroke_color, fill_color }
    }

    /// Overrides nothing: every field is inherited.
    pub fn inherit_all() -> (s: InheritedDrawStyle)
        ensures
            s@ == OverrideView::inherit_all(),
    {
        InheritedDrawStyle {
            stroke_width: StyleOverride::Inherit,
            stroke_color: StyleOverride::Inherit,
            fill_color: StyleOverride::Inherit,
        }
    }

    /// Sets every field explicitly to the value, or the absence of a value, that the
    /// style holds.
    pub fn from_style(style: DrawStyle) -> (s: InheritedDrawStyle)
        ensures
            s@ == explicit_overrides(style@),
    {
        InheritedDrawStyle {
            stroke_width: match style.stroke_width {
                None => StyleOverride::ExplicitlyAbsent,
                Some(w) => StyleOverride::ExplicitlyValue(w),
            },
            stroke_color: match style.stroke {
                None => StyleOverride::ExplicitlyAbsent,
                Some(p) => StyleOverride::ExplicitlyValue(p),
            },
            fill_color: match style.fill {
                None => StyleOverride::ExplicitlyAbsent,
                Some(p) => StyleOverride::ExplicitlyValue(p),
            },
        }
    }

    pub fn set_fill(&mut self, fill: StyleOverride<Paint>)
        ensures
            final(self)@ == (OverrideView { fill_color: override_of_paint(fill), ..old(self)@ }),
    {
        self.fill_color = fill;
    }

    pub fn set_stroke(&mut self, stroke: StyleOverride<Paint>)
        ensures
            final(self)@ == (OverrideView {
                stroke_color: override_of_paint(stroke),
                ..old(self)@
            }),
    {
        self.stroke_color = stroke;
    }

    pub fn set_stroke_width(&mut self, stroke_width: StyleOverride<Fixed>)
        ensures
            final(self)@ == (OverrideView { stroke_width, ..old(self)@ }),
    {
        self.stroke_width = stroke_width;
    }

    /// An override record equal to this one.
    pub fn copy(&self) -> (s: InheritedDrawStyle)
        ensures
            s@ == self@,
    {
        InheritedDrawStyle {
            stroke_width: copy_width_override(&self.stroke_width),
            stroke_color: copy_paint_override(&self.stroke_color),
            fill_color: copy_paint_override(&self.fill_color),
        }
    }

    /// The style of a node with these overrides whose parent resolved to `parent`.
    pub fn combine_styles(&self, parent: &DrawStyle) -> (s: DrawStyle)
        ensures
            s@ == combine(self@, parent@),
    {
        let fill = match &self.fill_color {
            StyleOverride::Inherit => copy_paint_option(&parent.fill),
            StyleOverride::ExplicitlyAbsent => None,
            StyleOverride::ExplicitlyValue(p) => Some(p.copy()),
        };
        let stroke = match &self.stroke_color {
            StyleOverride::Inherit => copy_paint_option(&parent.stroke),
            StyleOverride::ExplicitlyAbsent => None,
            StyleOverride::ExplicitlyValue(p) => Some(p.copy()),
        };
        let stroke_width = match &self.stroke_width {
            StyleOverride::Inherit => parent.stroke_width,
            StyleOverride::ExplicitlyAbsent => None,
            StyleOverride::ExplicitlyValue(w) => Some(*w),
        };
        DrawStyle { fill, stroke, stroke_width }
    }
}

/// Overrides that set every field to what `s` holds.
pub open spec fn explicit_overrides(s: StyleView) -> OverrideView {
    OverrideView {
        stroke_width: match s.stroke_width {
            None => StyleOverride::ExplicitlyAbsent,
            Some(w) => StyleOverride::ExplicitlyValue(w),
        },
        stroke_color: match s.stroke {
            None => StyleOverride::ExplicitlyAbsent,
            Some(p) => StyleOverride::ExplicitlyValue(p),
        },
        fill_color: match s.fill {
            None => StyleOverride::ExplicitlyAbsent,
            Some(p) => StyleOverride::ExplicitlyValue(p),
        },
    }
}

/// For every field on its own: a node without an override reports its parent's
/// resolved value, an explicit clearing reports no value whatever the parent holds,
/// and an explicit value replaces the parent's.
pub proof fn lemma_cascade_per_field(o: OverrideView, parent: StyleView)
    ensures
        o.fill_color is Inherit ==> combine(o, parent).fill == parent.fill,
        o.fill_color is ExplicitlyAbsent ==> combine(o, parent).fill is None,
        o.fill_color matches StyleOverride::ExplicitlyValue(v) ==> combine(o, parent).fill
            == Some(v),
        o.stroke_color is Inherit ==> combine(o, parent).stroke == parent.stroke,
        o.stroke_color is ExplicitlyAbsent ==> combine(o, parent).stroke is None,
        o.stroke_color matches StyleOverride::ExplicitlyValue(v) ==> combine(o, parent).stroke
            == Some(v),
        o.stroke_width is Inherit ==> combine(o, parent).stroke_width == parent.stroke_width,
        o.stroke_width is ExplicitlyAbsent ==> combine(o, parent).stroke_width is None,
        o.stroke_width matches StyleOverride::ExplicitlyValue(v) ==> combine(
            o,
            parent,
        ).stroke_width == Some(v),
{
}

/// The value an explicit override sets: nothing for a clearing, the value otherwise.
pub open spec fn explicit_value<T>(o: StyleOverride<T>) -> Option<T> {
    match o {
        StyleOverride::ExplicitlyValue(v) => Some(v),
        _ => None,
    }
}

/// One field resolved down a chain of overrides, from the root (first) to the node
/// (last), the root inheriting from nothing.
pub open spec fn resolve_chain<T>(fs: Seq<StyleOverride<T>>) -> Option<T>
    decreases fs.len(),
{
    if fs.len() == 0 {
        None
    } else {
        resolve(fs.last(), resolve_chain(fs.drop_last()))
    }
}

/// Down a chain of overrides, a field takes what the nearest override that does not
/// inherit sets (its value, or nothing for a clearing), and nothing when every
/// override of the chain inherits.
pub proof fn lemma_resolve_chain_nearest<T>(fs: Seq<StyleOverride<T>>)
    ensures
        (forall|j: int| 0 <= j < fs.len() ==> (#[trigger] fs[j]) is Inherit) ==> resolve_chain(fs)
            is None,
        forall|j: int|
            0 <= j < fs.len() && !((#[trigger] fs[j]) is Inherit) && (forall|k: int|
                j < k < fs.len() ==> (#[trigger] fs[k]) is Inherit) ==> resolve_chain(fs)
                == explicit_value(fs[j]),
    decreases fs.len(),
{
    if fs.len() > 0 {
        let t = fs.drop_last();
        lemma_resolve_chain_nearest(t);
        assert forall|j: int| 0 <= j < t.len() implies #[trigger] t[j] == fs[j] by {}
        assert forall|j: int|
            0 <= j < fs.len() && !((#[trigger] fs[j]) is Inherit) && (forall|k: int|
                j < k < fs.len() ==> (#[trigger] fs[k]) is Inherit) implies resolve_chain(fs)
            == explicit_value(fs[j]) by {
            if j < fs.len() - 1 {
                assert(fs[fs.len() - 1] is Inherit);
                assert forall|k: int| j < k < t.len() implies (#[trigger] t[k]) is Inherit by {
                    assert(t[k] == fs[k]);
                }
                assert(t[j] == fs[j]);
            }
        }
        if forall|j: int| 0 <= j < fs.len() ==> (#[trigger] fs[j]) is Inherit {
            assert forall|j: int| 0 <= j < t.len() implies (#[trigger] t[j]) is Inherit by {
                assert(t[j] == fs[j]);
            }
            assert(fs[fs.len() - 1] is Inherit);
        }
    }
}

/// The resolved style at the end of a chain of overrides, from the root (first) to
/// the node (last), the root inheriting from nothing.
pub open spec fn cascade(os: Seq<OverrideView>) -> StyleView
    decreases os.len(),
{
    if os.len() == 0 {
        StyleView::empty()
    } else {
        combine(os.last(), cascade(os.drop_last()))
    }
}

/// Each field of the cascaded style is that field resolved down the chain on its
/// own: the fields never influence each other.
pub proof fn lemma_cascade_by_field(os: Seq<OverrideView>)
    ensures
        cascade(os).fill == resolve_chain(os.map_values(|o: OverrideView| o.fill_color)),
        cascade(os).stroke == resolve_chain(os.map_values(|o: OverrideView| o.stroke_color)),
        cascade(os).stroke_width == resolve_chain(
            os.map_values(|o: OverrideView| o.stroke_width),
        ),
    decreases os.len(),
{
    if os.len() > 0 {
        let t = os.drop_last();
        lemma_cascade_by_field(t);
        assert(os.map_values(|o: OverrideView| o.fill_color).drop_last() =~= t.map_values(
            |o: OverrideView| o.fill_color,
        ));
        assert(os.map_values(|o: OverrideView| o.stroke_color).drop_last() =~= t.map_values(
            |o: OverrideView| o.stroke_color,
        ));
        assert(os.map_values(|o: OverrideView| o.stroke_width).drop_last() =~= t.map_values(
            |o: OverrideView| o.stroke_width,
        ));
    }
}

} // verus!
