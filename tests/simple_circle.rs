use drawme::color::{Paint, Rgb};
use drawme::geometry::{Circle, Point};
use drawme::number::Fixed;
use drawme::style::{DrawStyle, Fill};

#[test]
fn simple_circle() {
    // A circle with a radius of 3 at position x: 5, y: 5
    let circle = Circle::new(Point::new(Fixed::whole(5), Fixed::whole(5)), Fixed::whole(3));
    let black = Paint::from_rgb(Rgb::new(0, 0, 0));
    let svg = circle.with_style(DrawStyle::from_fill(Fill::new(black))).draw_onto_canvas();

    assert_eq!(
        svg.build().unwrap(),
        r#"<svg xmlns="http://www.w3.org/2000/svg" viewBox="0 0 8 8"><circle cx="5" cy="5" r="3" fill="rgb(0, 0, 0)"/></svg>"#
    );
}
