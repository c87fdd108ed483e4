use drawme::canvas::{render, Canvas, Draw};
use drawme::color::{Gradient, Paint, Rgb, Rgba, SolidColor};
use drawme::debug::Dbg;
use drawme::drawing::{DrawCommand, Drawing};
use drawme::geometry::{Circle, Point, Rectangle, Rotation};
use drawme::image::{ImageProps, ImageSource, ImageSourceError};
use drawme::number::Fixed;
use drawme::path::{Path, PathCommand};
use drawme::placement::{Axes, Direction, RelativeXOrigin, RelativeYOrigin};
use drawme::style::{DrawStyle, Fill, InheritedDrawStyle, StrokeColor, StyleOverride};
use drawme::svg::{path_data_text, Svg, SvgError};
use drawme::text::{FontEngineError, PresetFont, TextBuilder};
use drawme::xml::{XmlChild, XmlNode};

fn pt(x: i32, y: i32) -> Point {
    Point::new(Fixed::whole(x), Fixed::whole(y))
}

fn gradient() -> Gradient {
    Gradient::linear(
        Rotation::identity(),
        vec![
            (SolidColor::Opaque(Rgb::new(255, 0, 0)), Fixed::zero()),
            (SolidColor::Alpha(Rgba::new(0, 0, 255, Fixed::from_hundredths(50))), Fixed::one()),
        ],
    )
}

fn other_gradient() -> Gradient {
    Gradient::linear(
        Rotation::new(Fixed::zero(), Fixed::one()),
        vec![(SolidColor::Opaque(Rgb::new(0, 0, 0)), Fixed::from_hundredths(25))],
    )
}

#[test]
fn fixed_text_is_shortest_decimal() {
    assert_eq!(Fixed::whole(5).to_text(), "5");
    assert_eq!(Fixed::from_hundredths(250).to_text(), "2.5");
    assert_eq!(Fixed::from_hundredths(-25).to_text(), "-0.25");
    assert_eq!(Fixed::from_hundredths(7).to_text(), "0.07");
    assert_eq!(Fixed::from_hundredths(-1200).to_text(), "-12");
    assert_eq!(Fixed::zero().to_text(), "0");
}

#[test]
fn css_of_colors() {
    assert_eq!(Rgb::new(0, 0, 0).css(), "rgb(0, 0, 0)");
    assert_eq!(Rgb::new(255, 128, 7).css(), "rgb(255, 128, 7)");
    assert_eq!(Rgba::new(1, 2, 3, Fixed::from_hundredths(50)).css(), "rgba(1, 2, 3, 0.5)");
    assert_eq!(SolidColor::Opaque(Rgb::new(9, 8, 7)).css(), "rgb(9, 8, 7)");
    assert_eq!(Rgb::new(1, 2, 3).into_tuple(), (1, 2, 3));
}

#[test]
fn cascade_inheritance_per_field() {
    let parent = DrawStyle::new(
        Some(Paint::from_rgb(Rgb::new(1, 1, 1))),
        Some(Paint::from_rgb(Rgb::new(2, 2, 2))),
        Some(Fixed::whole(4)),
    );
    let inherit = InheritedDrawStyle::inherit_all();
    assert_eq!(inherit.combine_styles(&parent), parent);

    let cleared = InheritedDrawStyle::new(
        StyleOverride::ExplicitlyAbsent,
        StyleOverride::ExplicitlyAbsent,
        StyleOverride::ExplicitlyAbsent,
    );
    assert_eq!(cleared.combine_styles(&parent), DrawStyle::empty());

    let set = InheritedDrawStyle::new(
        StyleOverride::ExplicitlyValue(Fixed::whole(9)),
        StyleOverride::Inherit,
        StyleOverride::ExplicitlyValue(Paint::from_rgb(Rgb::new(3, 3, 3))),
    );
    assert_eq!(
        set.combine_styles(&parent),
        DrawStyle::new(
            Some(Paint::from_rgb(Rgb::new(3, 3, 3))),
            Some(Paint::from_rgb(Rgb::new(2, 2, 2))),
            Some(Fixed::whole(9)),
        )
    );
}

#[test]
fn traversal_is_preorder() {
    let circle = |x: i32| DrawCommand::circle(pt(x, 0), Fixed::whole(1));
    let mut root = Drawing::new(circle(1), InheritedDrawStyle::inherit_all());
    let mut group = Drawing::from_style(InheritedDrawStyle::inherit_all());
    group.add_child(Drawing::new(circle(2), InheritedDrawStyle::inherit_all()));
    group.add_child(Drawing::new(circle(3), InheritedDrawStyle::inherit_all()));
    root.add_child(group);
    root.add_child(Drawing::new(circle(4), InheritedDrawStyle::inherit_all()));

    let xs: Vec<i32> = root
        .instructions()
        .iter()
        .map(|i| match i.command() {
            DrawCommand::Circle { position, .. } => position.x.hundredths / 100,
            _ => panic!("only circles were drawn"),
        })
        .collect();
    assert_eq!(xs, vec![1, 2, 3, 4]);

    let mut it = root.iter();
    assert!(it.next().is_some());
    assert!(it.next().is_some());
    assert!(it.next().is_some());
    assert!(it.next().is_some());
    assert!(it.next().is_none());
}

#[test]
fn empty_tree_yields_nothing_and_empty_view_box() {
    let root = Drawing::empty();
    assert_eq!(root.instructions().len(), 0);

    let mut svg = Svg::new();
    assert_eq!(svg.draw(&root), Ok(()));
    assert_eq!(
        svg.build().unwrap(),
        r#"<svg xmlns="http://www.w3.org/2000/svg" viewBox="0 0 0 0"/>"#
    );
}

#[test]
fn bounding_box_grows_and_never_shrinks() {
    let mut svg = Svg::new();
    let style = DrawStyle::empty();
    svg.circle(&style, pt(10, 1), Fixed::whole(1));
    assert_eq!(svg.bounding_box(), (1100, 200));
    svg.circle(&style, pt(1, 10), Fixed::whole(2));
    assert_eq!(svg.bounding_box(), (1100, 1200));
    svg.circle(&style, pt(0, 0), Fixed::whole(1));
    assert_eq!(svg.bounding_box(), (1100, 1200));
    let mut path = Path::new();
    path.move_to(pt(-5, -5));
    path.line_to(pt(20, 3));
    svg.path(&style, &path);
    assert_eq!(svg.bounding_box(), (2000, 1200));
}

#[test]
fn equal_gradients_share_one_definition() {
    let mut svg = Svg::new();
    let a = DrawStyle::from_fill(Fill::new(Paint::from_gradient(gradient())));
    let b = DrawStyle::from_fill(Fill::new(Paint::from_gradient(gradient())));
    svg.circle(&a, pt(1, 1), Fixed::whole(1));
    svg.circle(&b, pt(2, 2), Fixed::whole(1));
    let out = svg.build().unwrap();
    assert_eq!(
        out,
        r#"<svg xmlns="http://www.w3.org/2000/svg" viewBox="0 0 3 3"><defs><linearGradient x1="0.00%" y1="50.00%" x2="100.00%" y2="50.00%" id="fill0"><stop offset="0.00%" stop-color="rgb(255, 0, 0)"/><stop offset="100.00%" stop-color="rgb(0, 0, 255)" stop-opacity="0.5"/></linearGradient></defs><circle cx="1" cy="1" r="1" fill="url(#fill0)"/><circle cx="2" cy="2" r="1" fill="url(#fill0)"/></svg>"#
    );
}

#[test]
fn distinct_gradients_get_increasing_indices() {
    let mut svg = Svg::new();
    let a = DrawStyle::from_stroke(StrokeColor::new(Paint::from_gradient(gradient())));
    let b = DrawStyle::from_stroke(StrokeColor::new(Paint::from_gradient(other_gradient())));
    svg.circle(&a, pt(1, 1), Fixed::whole(1));
    svg.circle(&b, pt(1, 1), Fixed::whole(1));
    svg.circle(&a, pt(1, 1), Fixed::whole(1));
    let out = svg.build().unwrap();
    assert!(out.contains(r#"id="stroke0""#));
    assert!(out.contains(r#"id="stroke1""#));
    assert!(!out.contains(r#"id="stroke2""#));
    assert!(out.contains(
        r#"<linearGradient x1="50.00%" y1="100.00%" x2="50.00%" y2="0.00%" id="stroke1"><stop offset="25.00%" stop-color="rgb(0, 0, 0)"/></linearGradient>"#
    ));
    let refs: Vec<&str> = out.matches("url(#stroke").collect();
    assert_eq!(refs.len(), 3);
    assert!(out.contains(r#"stroke="url(#stroke0)"/><circle cx="1" cy="1" r="1" stroke="url(#stroke1)"/><circle cx="1" cy="1" r="1" stroke="url(#stroke0)"/>"#));
}

#[test]
fn rectangle_decomposes_into_five_commands() {
    let rect = Rectangle::new(pt(0, 0), pt(4, 4));
    let path = rect.to_path().unwrap();
    assert_eq!(
        path.commands(),
        &[
            PathCommand::MoveTo(pt(0, 0)),
            PathCommand::LineTo(pt(4, 0)),
            PathCommand::LineTo(pt(4, 4)),
            PathCommand::LineTo(pt(0, 4)),
            PathCommand::LineTo(pt(0, 0)),
        ]
    );

    let mut svg = Svg::new();
    svg.rectangle(&DrawStyle::from_width(Fixed::from_hundredths(150)), &rect);
    assert_eq!(
        svg.build().unwrap(),
        r#"<svg xmlns="http://www.w3.org/2000/svg" viewBox="0 0 4 4"><path d="M 0 0 L 4 0 L 4 4 L 0 4 L 0 0" stroke-width="1.5"/></svg>"#
    );
}

#[test]
fn path_data_and_bounding_box() {
    let mut path = Path::new();
    assert!(path.bounding_box().is_none());
    path.move_to(pt(1, 2));
    path.quad_to(pt(3, -4), pt(5, 6));
    path.curve_to(pt(-1, 0), pt(2, 2), Point::new(Fixed::from_hundredths(50), Fixed::whole(9)));
    assert_eq!(
        path_data_text(&path),
        "M 1 2 Q 3 -4 5 6 C -1 0 2 2 0.5 9"
    );
    let b = path.bounding_box().unwrap();
    assert_eq!(b.top_left, pt(-1, -4));
    assert_eq!(b.bottom_right, pt(5, 9));
    assert_eq!(path.len(), 3);
    assert_eq!(path.commands()[1].get_min(), pt(3, -4));
    assert_eq!(path.commands()[1].get_max(), pt(5, 6));
}

#[test]
fn text_and_images_fail_the_pass() {
    let mut root = Drawing::from_style(InheritedDrawStyle::inherit_all());
    root.add_child(Drawing::new(
        DrawCommand::Text {
            text: "hi".to_owned(),
            start: pt(0, 0),
            end: pt(1, 0),
            font: "Roboto".to_owned(),
        },
        InheritedDrawStyle::inherit_all(),
    ));
    let mut svg = Svg::new();
    assert_eq!(svg.draw(&root), Err(SvgError::NotImplemented));
    assert_eq!(svg.build(), Err(SvgError::NotImplemented));

    let src = ImageSource::parse("https://example.com/a.png").unwrap();
    let mut svg = Svg::new();
    assert_eq!(svg.image(&src), Err(SvgError::NotImplemented));
    assert_eq!(svg.build(), Err(SvgError::NotImplemented));
}

#[test]
fn image_sources_parse_urls() {
    let src = ImageSource::parse("https://example.com/a.png").unwrap();
    assert_eq!(src.as_str(), "https://example.com/a.png");
    assert_eq!(ImageSource::parse("not a url").unwrap_err(), ImageSourceError::InvalidUrl);
    let props = ImageProps::empty();
    assert_eq!(props.offset(), Point::origin());
    assert_eq!(props.image_width(), None);
}

#[test]
fn xml_escapes_text_and_attribute_values() {
    let mut node = XmlNode::new("text");
    node.push_attribute("title", "a<b & \"c\"".to_owned());
    node.push_child(XmlChild::text("1 < 2 > 0 & 'x'"));
    assert_eq!(
        node.write(),
        "<text title=\"a&lt;b &amp; &quot;c&quot;\">1 &lt; 2 &gt; 0 &amp; &apos;x&apos;</text>"
    );
}

#[test]
fn xml_attributes_keep_place_and_last_write_wins() {
    let mut node = XmlNode::new("a");
    node.push_attribute("x", "1".to_owned());
    node.push_attribute("y", "2".to_owned());
    node.push_attribute("x", "3".to_owned());
    assert_eq!(node.write(), r#"<a x="3" y="2"/>"#);
    assert_eq!(node.get_attribute("y").map(|s| s.as_str()), Some("2"));
    assert_eq!(node.get_attribute("z"), None);
    let mut outer = XmlNode::new("b");
    outer.push_child(XmlChild::Element(XmlNode::new("c")));
    outer.prepend_child(XmlChild::Element(node));
    assert_eq!(outer.write(), r#"<b><a x="3" y="2"/><c/></b>"#);
}

#[test]
fn placement_axes_and_directions() {
    let mut axes = Axes::default();
    assert_eq!(axes.positive_x(), Direction::East);
    assert_eq!(axes.positive_y(), Direction::South);
    axes.set_positive_y(Direction::North);
    assert_eq!(axes, Axes::new(Direction::East, Direction::North));
    axes.set_positive_x(Direction::West);
    assert_eq!(axes.positive_x(), Direction::West);
    assert_eq!(Direction::North.opposite(), Direction::South);
    assert_eq!(Direction::East.next_coords(pt(1, 1)), pt(2, 1));
    assert_eq!(Direction::South.next_coords(pt(1, 1)), pt(1, 0));
    assert_eq!(RelativeXOrigin::from_name("center"), Some(RelativeXOrigin::Center));
    assert_eq!(RelativeXOrigin::from_name("middle"), None);
    assert_eq!(RelativeYOrigin::Bottom.name(), "bottom");
    assert_eq!(RelativeYOrigin::from_name("top"), Some(RelativeYOrigin::Top));
}

#[test]
fn text_presets_and_errors() {
    let all = PresetFont::all();
    assert_eq!(all.len(), 8);
    assert_eq!(all[0], PresetFont::Title);
    assert_eq!(all[7], PresetFont::Italic);
    assert!(matches!(FontEngineError::primitive(), FontEngineError::PrimitiveCastF32));
    let text = TextBuilder::new().with_str("hello").build();
    assert_eq!(text.inner, "hello");
}

#[test]
fn drawing_locations_in_document_order() {
    let mut root = Drawing::new(
        DrawCommand::circle(pt(1, 1), Fixed::whole(1)),
        InheritedDrawStyle::inherit_all(),
    );
    let mut path = Path::new();
    path.move_to(pt(2, 2));
    path.line_to(pt(3, 3));
    root.add_child(Drawing::new(DrawCommand::path(path), InheritedDrawStyle::inherit_all()));
    let circle = Circle::new(pt(0, 0), Fixed::one());
    assert_eq!(circle.radius, Fixed::one());
    assert_eq!(root.command().unwrap().locations(), vec![pt(1, 1)]);
    assert_eq!(root.children().len(), 1);
}

#[test]
fn drawing_bounding_box_and_size() {
    let mut root = Drawing::from_style(InheritedDrawStyle::inherit_all());
    assert!(root.bounding_box().is_none());
    root.add_child(Drawing::new(
        DrawCommand::circle(pt(3, -2), Fixed::whole(1)),
        InheritedDrawStyle::inherit_all(),
    ));
    let mut path = Path::new();
    path.move_to(pt(-1, 4));
    path.line_to(pt(7, 0));
    let mut group = Drawing::from_style(InheritedDrawStyle::inherit_all());
    group.add_child(Drawing::new(DrawCommand::path(path), InheritedDrawStyle::inherit_all()));
    root.add_child(group);
    assert_eq!(root.num_drawings(), 4);
    assert_eq!(root.locations(), vec![pt(3, -2), pt(-1, 4), pt(7, 0)]);
    let b = root.bounding_box().unwrap();
    assert_eq!(b.top_left, pt(-1, -2));
    assert_eq!(b.bottom_right, pt(7, 4));
}

#[test]
fn render_through_the_canvas_capability() {
    let mut root = Drawing::from_style(InheritedDrawStyle::new(
        StyleOverride::ExplicitlyValue(Fixed::whole(2)),
        StyleOverride::ExplicitlyValue(Paint::from_rgb(Rgb::new(1, 2, 3))),
        StyleOverride::Inherit,
    ));
    root.add_child(Drawing::new(
        DrawCommand::circle(pt(1, 1), Fixed::whole(1)),
        InheritedDrawStyle::inherit_all(),
    ));
    let mut svg = Svg::new();
    assert_eq!(render(&root, &mut svg), Ok(()));
    assert_eq!(
        svg.build().unwrap(),
        r#"<svg xmlns="http://www.w3.org/2000/svg" viewBox="0 0 2 2"><circle cx="1" cy="1" r="1" stroke="rgb(1, 2, 3)" stroke-width="2"/></svg>"#
    );

    let mut svg = Svg::new();
    Canvas::rectangle(&mut svg, &DrawStyle::empty(), &Rectangle::new(pt(1, 1), pt(2, 3)));
    assert_eq!(
        svg.build().unwrap(),
        r#"<svg xmlns="http://www.w3.org/2000/svg" viewBox="0 0 2 3"><path d="M 1 1 L 2 1 L 2 3 L 1 3 L 1 1"/></svg>"#
    );
}

#[test]
fn fill_and_stroke_wrappers() {
    let fill = Fill::new(Paint::from_rgb(Rgb::new(4, 5, 6)));
    assert_eq!(fill.paint_ref(), &Paint::from_rgb(Rgb::new(4, 5, 6)));
    let style = DrawStyle::from_fill(fill);
    assert_eq!(style.fill(), Some(&Paint::from_rgb(Rgb::new(4, 5, 6))));
    assert_eq!(style.stroke(), None);
    let stroke = StrokeColor::new(Paint::from_rgb(Rgb::new(7, 8, 9)));
    let style = DrawStyle::from_stroke(stroke);
    assert_eq!(style.stroke_width(), None);
    assert_eq!(style.stroke(), Some(&Paint::from_rgb(Rgb::new(7, 8, 9))));
}

#[test]
fn extreme_values_format_and_extend() {
    assert_eq!(Fixed::from_hundredths(i32::MIN).to_text(), "-21474836.48");
    assert_eq!(Fixed::from_hundredths(i32::MAX).to_text(), "21474836.47");
    let far = Fixed::from_hundredths(i32::MAX);
    let mut svg = Svg::new();
    svg.circle(&DrawStyle::empty(), Point::new(far, far), far);
    assert_eq!(svg.bounding_box(), (2 * i32::MAX as i64, 2 * i32::MAX as i64));
    let out = svg.build().unwrap();
    assert!(out.contains(r#"viewBox="0 0 42949672.94 42949672.94""#));
}

#[test]
fn points_translate_rotate_and_scale() {
    let quarter = Rotation::new(Fixed::zero(), Fixed::one());
    assert_eq!(pt(1, 0).rotate(&quarter), Some(pt(0, 1)));
    assert_eq!(pt(2, 1).rotate_around(&quarter, &pt(1, 1)), Some(pt(1, 2)));
    assert_eq!(pt(3, 4).rotate(&Rotation::identity()), Some(pt(3, 4)));
    assert_eq!(
        pt(2, -1).scale(Fixed::from_hundredths(250)),
        Some(Point::new(Fixed::whole(5), Fixed::from_hundredths(-250)))
    );
    let tiny = Point::new(Fixed::from_hundredths(1), Fixed::from_hundredths(-1));
    assert_eq!(
        tiny.scale(Fixed::from_hundredths(50)),
        Some(Point::new(Fixed::zero(), Fixed::from_hundredths(-1)))
    );
    assert_eq!(pt(1, 2).translate(Fixed::whole(3), Fixed::whole(-4)), Some(pt(4, -2)));
    let edge = Point::new(Fixed::from_hundredths(i32::MAX), Fixed::zero());
    assert_eq!(edge.translate(Fixed::from_hundredths(1), Fixed::zero()), None);
    assert_eq!(edge.scale(Fixed::whole(2)), None);
}

#[test]
fn logging_canvas_records_each_call() {
    let mut root = Drawing::new(
        DrawCommand::circle(pt(1, 1), Fixed::whole(1)),
        InheritedDrawStyle::inherit_all(),
    );
    root.add_child(Drawing::new(DrawCommand::path(Path::new()), InheritedDrawStyle::inherit_all()));
    let mut canvas = Dbg::new(Svg::new());
    assert_eq!(render(&root, &mut canvas), Ok(()));
    Canvas::rectangle(&mut canvas, &DrawStyle::empty(), &Rectangle::zero());
    assert_eq!(canvas.logs, vec!["circle".to_owned(), "path".to_owned(), "rectangle".to_owned()]);
    assert_eq!(canvas.count(), 3);
    let svg = canvas.into_inner();
    assert!(svg.build().unwrap().starts_with(r#"<svg xmlns="http://www.w3.org/2000/svg" viewBox="0 0 2 2"><circle"#));
}

#[test]
fn styled_shapes_draw_through_any_canvas() {
    let shape = Rectangle::new(pt(0, 0), pt(1, 1)).with_style(DrawStyle::empty());
    let mut canvas = Dbg::new(Svg::new());
    Draw::draw(&shape, &mut canvas);
    let circle = Circle::new(pt(2, 2), Fixed::whole(1)).with_style(DrawStyle::empty());
    Draw::draw(&circle, &mut canvas);
    assert_eq!(canvas.logs, vec!["rectangle".to_owned(), "circle".to_owned()]);
    assert_eq!(canvas.into_inner().bounding_box(), (300, 300));
}

#[test]
fn min_and_max_are_defining_points() {
    let quad = PathCommand::quad_to(pt(0, 5), pt(5, 0));
    assert_eq!(quad.get_min(), pt(5, 0));
    assert_eq!(quad.get_max(), pt(5, 0));
    let curve = PathCommand::curve_to(pt(1, 1), pt(3, 3), pt(2, 2));
    assert_eq!(curve.get_min(), pt(1, 1));
    assert_eq!(curve.get_max(), pt(3, 3));
    assert_eq!(PathCommand::line_to(pt(4, -4)).get_min(), pt(4, -4));
    assert_eq!(PathCommand::move_to(pt(4, -4)).get_max(), pt(4, -4));
}

#[test]
fn locations_mut_moves_points_in_place() {
    let mut path = Path::new();
    path.move_to(pt(0, 0));
    path.quad_to(pt(1, 1), pt(2, 2));
    let mut root = Drawing::new(DrawCommand::path(path), InheritedDrawStyle::inherit_all());
    let mut group = Drawing::from_style(InheritedDrawStyle::inherit_all());
    group.add_child(Drawing::new(
        DrawCommand::circle(pt(5, 5), Fixed::whole(1)),
        InheritedDrawStyle::inherit_all(),
    ));
    root.add_child(group);
    {
        let points = root.locations_mut();
        assert_eq!(points.len(), 4);
        for p in points {
            *p = p.translate(Fixed::whole(10), Fixed::zero()).unwrap();
        }
    }
    assert_eq!(root.locations(), vec![pt(10, 0), pt(11, 1), pt(12, 2), pt(15, 5)]);
    assert_eq!(root.num_drawings(), 3);

    let mut command = DrawCommand::circle(pt(1, 2), Fixed::whole(3));
    *command.locations_mut()[0] = pt(7, 7);
    assert_eq!(command, DrawCommand::circle(pt(7, 7), Fixed::whole(3)));
}

#[test]
fn rotated_rectangle_corners_turn_about_the_center() {
    let quarter = Rotation::new(Fixed::zero(), Fixed::one());
    let rect = Rectangle::new(pt(0, 0), pt(4, 2)).with_rotation(quarter);
    assert_eq!(rect.absolute_center(), pt(2, 1));
    assert_eq!(rect.top_left(), Some(pt(3, -1)));
    assert_eq!(rect.bottom_right(), Some(pt(1, 3)));
    assert_eq!(rect.top_left_raw(), pt(0, 0));
    let path = rect.to_path().unwrap();
    assert_eq!(path.commands()[0], PathCommand::MoveTo(pt(3, -1)));
    assert_eq!(path.commands()[4], PathCommand::LineTo(pt(3, -1)));
    let plain = Rectangle::new(pt(0, 0), pt(4, 2));
    assert_eq!(plain.top_left(), Some(pt(0, 0)));
    assert_eq!(plain.rotation(), Rotation::identity());
}

#[test]
fn shallow_clones_borrow_and_promotion_copies() {
    let owned = Paint::from_gradient(gradient());
    let shallow = owned.clone_shallow();
    assert!(shallow.is_borrowed());
    let again = shallow.clone_shallow();
    assert!(again.is_borrowed());
    assert_eq!(again.into_owned(), Paint::from_gradient(gradient()));
    assert!(!Paint::from_rgb(Rgb::new(1, 2, 3)).clone_shallow().is_borrowed());

    let style = DrawStyle::new(Some(Paint::from_gradient(gradient())), None, Some(Fixed::one()));
    let snapshot = style.clone_shallow();
    assert!(snapshot.fill.as_ref().unwrap().is_borrowed());
    assert_eq!(DrawStyle::from_style_ref(&snapshot), style);
    assert_eq!(snapshot.into_owned(), style);
}
