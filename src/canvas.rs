//! The capability every backend offers: the calls a drawing is dispatched to.
use vstd::prelude::*;

use crate::debug::Dbg;
use crate::drawing::{instructions_of, is_unsupported, DrawCommand, Drawing};
use crate::geometry::{Circle, Point, Rectangle};
use crate::image::ImageSource;
use crate::number::Fixed;
use crate::path::Path;
use crate::style::DrawStyle;
use crate::svg::{Styled, Svg, SvgError};

verus! {

/// A medium that shapes are drawn onto. The style is only borrowed for the call.
pub trait Canvas {
    /// What a failed call reports.
    type Error;

    fn path(&mut self, style: &DrawStyle, path: &Path);

    fn circle(&mut self, style: &DrawStyle, point: Point, radius: Fixed);

    fn text(&mut self, style: &DrawStyle, text: &str) -> Result<(), Self::Error>;

    fn image(&mut self, src: &ImageSource) -> Result<(), Self::Error>;

    /// Draws the rectangle as the closed five-command outline through its rotated
    /// corners; nothing is drawn when a corner leaves the range of [`Fixed`].
    fn rectangle(&mut self, style: &DrawStyle, rectangle: &Rectangle) {
        if let Some(path) = rectangle.to_path() {
            self.path(style, &path);
        }
    }
}

impl Canvas for Svg {
    type Error = SvgError;

    fn path(&mut self, style: &DrawStyle, path: &Path) {
        Svg::path(self, style, path);
    }

    fn circle(&mut self, style: &DrawStyle, point: Point, radius: Fixed) {
        Svg::circle(self, style, point, radius);
    }

    fn text(&mut self, style: &DrawStyle, text: &str) -> Result<(), SvgError> {
        Svg::text(self, style, text)
    }

    fn image(&mut self, src: &ImageSource) -> Result<(), SvgError> {
        Svg::image(self, src)
    }
}

/// Something that can be drawn onto a canvas: a styled shape, or a whole drawing.
pub trait Draw<C: Canvas> {
    fn draw(&self, canvas: &mut C);
}

impl<C: Canvas> Draw<C> for Styled<Circle> {
    fn draw(&self, canvas: &mut C) {
        canvas.circle(&self.style, self.shape.position, self.shape.radius);
    }
}

impl<C: Canvas> Draw<C> for Styled<Path> {
    fn draw(&self, canvas: &mut C) {
        canvas.path(&self.style, &self.shape);
    }
}

impl<C: Canvas> Draw<C> for Styled<Rectangle> {
    fn draw(&self, canvas: &mut C) {
        canvas.rectangle(&self.style, &self.shape);
    }
}

/// Records the name of each call, then passes the call on to the wrapped canvas.
impl<T: Canvas> Canvas for Dbg<T> {
    type Error = T::Error;

    fn path(&mut self, style: &DrawStyle, path: &Path) {
        self.record("path".to_owned());
        self.inner.path(style, path);
    }

    fn circle(&mut self, style: &DrawStyle, point: Point, radius: Fixed) {
        self.record("circle".to_owned());
        self.inner.circle(style, point, radius);
    }

    fn text(&mut self, style: &DrawStyle, text: &str) -> Result<(), T::Error> {
        self.record("text".to_owned());
        self.inner.text(style, text)
    }

    fn image(&mut self, src: &ImageSource) -> Result<(), T::Error> {
        self.record("image".to_owned());
        self.inner.image(src)
    }

    fn rectangle(&mut self, style: &DrawStyle, rectangle: &Rectangle) {
        self.record("rectangle".to_owned());
        self.inner.rectangle(style, rectangle);
    }
}

/// Dispatches every instruction of the drawing, in the order of the walk, to the
/// canvas; the first failed call stops the pass and is returned. Paths and circles
/// cannot fail, so a drawing without text or images always succeeds.
pub fn render<C: Canvas>(drawing: &Drawing, canvas: &mut C) -> (r: Result<(), C::Error>)
    ensures
        (forall|i: int|
            0 <= i < instructions_of(*drawing).len() ==> !is_unsupported(
                #[trigger] instructions_of(*drawing)[i],
            )) ==> r is Ok,
{
    let ins = drawing.instructions();
    let ghost all = instructions_of(*drawing);
    let mut k: usize = 0;
    while k < ins.len()
        invariant
            k <= ins@.len(),
            all == instructions_of(*drawing),
            ins@.len() == all.len(),
            forall|i: int| 0 <= i < ins@.len() ==> #[trigger] ins@[i]@ == all[i],
        decreases ins@.len() - k,
    {
        let instruction = &ins[k];
        proof {
            assert(ins@[k as int]@ == all[k as int]);
        }
        match instruction.command {
            DrawCommand::Path(path) => canvas.path(&instruction.style, path),
            DrawCommand::Circle { position, radius } => {
                canvas.circle(&instruction.style, *position, *radius)
            },
            DrawCommand::Text { text, start: _, end: _, font: _ } => {
                let r = canvas.text(&instruction.style, text.as_str());
                if r.is_err() {
                    assert(is_unsupported(all[k as int]));
                    return r;
                }
            },
            DrawCommand::Image { src, props: _ } => {
                let r = canvas.image(src);
                if r.is_err() {
                    assert(is_unsupported(all[k as int]));
                    return r;
                }
            },
        }
        k = k + 1;
    }
    Ok(())
}

} // verus!
