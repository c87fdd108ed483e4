use drawme::color::{Paint, Rgb};
use drawme::drawing::{DrawCommand, Drawing};
use drawme::number::Fixed;
use drawme::path::Path;
use drawme::style::{DrawStyle, InheritedDrawStyle, StyleOverride};

fn green() -> Paint {
    Paint::from_rgb(Rgb::new(0, 255, 0))
}

fn red() -> Paint {
    Paint::from_rgb(Rgb::new(255, 0, 0))
}

fn blue() -> Paint {
    Paint::from_rgb(Rgb::new(0, 0, 255))
}

fn empty_path() -> DrawCommand {
    DrawCommand::path(Path::new())
}

#[test]
fn test_drawingiter_style_inheritance() {
    // all drawings have a command to show up in the tree.
    let mut root = Drawing::new(
        empty_path(),
        InheritedDrawStyle::new(
            StyleOverride::ExplicitlyValue(Fixed::whole(3)),
            StyleOverride::ExplicitlyValue(green()),
            StyleOverride::ExplicitlyAbsent,
        ),
    );

    let mut child_1 = Drawing::new(
        empty_path(),
        InheritedDrawStyle::new(
            StyleOverride::Inherit,
            StyleOverride::ExplicitlyValue(red()),
            StyleOverride::Inherit,
        ),
    );

    let child_1_1 = Drawing::new(
        empty_path(),
        InheritedDrawStyle::new(
            StyleOverride::Inherit,
            StyleOverride::Inherit,
            StyleOverride::ExplicitlyValue(red()),
        ),
    );

    let child_1_2 = Drawing::new(empty_path(), InheritedDrawStyle::inherit_all());

    child_1.extend_children(vec![child_1_1, child_1_2]);

    let child_2 = Drawing::new(
        empty_path(),
        InheritedDrawStyle::new(
            StyleOverride::ExplicitlyValue(Fixed::whole(1)),
            StyleOverride::Inherit,
            StyleOverride::ExplicitlyValue(blue()),
        ),
    );

    root.extend_children(vec![child_1, child_2]);

    // DrawStyle::new takes (fill, stroke, stroke width)
    let expected_styles = [
        DrawStyle::new(None, Some(green()), Some(Fixed::whole(3))), // root
        DrawStyle::new(None, Some(red()), Some(Fixed::whole(3))),   // child_1
        DrawStyle::new(Some(red()), Some(red()), Some(Fixed::whole(3))), // child_1_1
        DrawStyle::new(None, Some(red()), Some(Fixed::whole(3))),   // child_1_2
        DrawStyle::new(Some(blue()), Some(green()), Some(Fixed::whole(1))), // child_2
    ];

    let instructions = root.instructions();
    assert_eq!(instructions.len(), expected_styles.len());
    for (instruction, exp_style) in instructions.iter().zip(expected_styles.iter()) {
        println!("Instruction: {:#?}", instruction);

        assert_eq!(instruction.style(), exp_style);
    }
}

#[test]
fn test_drawingiter_instruction_yield() {
    // root and child_1 do not have a command, so they are not yielded by the iterator.
    // however, their styles are still inherited by their children.
    let mut root = Drawing::from_style(InheritedDrawStyle::new(
        StyleOverride::ExplicitlyValue(Fixed::whole(3)),
        StyleOverride::ExplicitlyValue(green()),
        StyleOverride::ExplicitlyAbsent,
    ));

    let mut child_1 = Drawing::from_style(InheritedDrawStyle::new(
        StyleOverride::Inherit,
        StyleOverride::ExplicitlyValue(red()),
        StyleOverride::Inherit,
    ));

    let child_1_1 = Drawing::new(
        empty_path(),
        InheritedDrawStyle::new(
            StyleOverride::Inherit,
            StyleOverride::Inherit,
            StyleOverride::ExplicitlyValue(red()),
        ),
    );

    let child_1_2 = Drawing::new(empty_path(), InheritedDrawStyle::inherit_all());

    child_1.extend_children(vec![child_1_1, child_1_2]);

    let child_2 = Drawing::new(
        empty_path(),
        InheritedDrawStyle::new(
            StyleOverride::ExplicitlyValue(Fixed::whole(1)),
            StyleOverride::Inherit,
            StyleOverride::ExplicitlyValue(blue()),
        ),
    );

    root.extend_children(vec![child_1, child_2]);

    let expected_styles = [
        DrawStyle::new(Some(red()), Some(red()), Some(Fixed::whole(3))), // child_1_1
        DrawStyle::new(None, Some(red()), Some(Fixed::whole(3))),        // child_1_2
        DrawStyle::new(Some(blue()), Some(green()), Some(Fixed::whole(1))), // child_2
    ];

    let instructions = root.instructions();
    assert_eq!(instructions.len(), expected_styles.len());
    for (instruction, exp_style) in instructions.iter().zip(expected_styles.iter()) {
        println!("Instruction: {:#?}", instruction);

        assert_eq!(instruction.style(), exp_style);
    }
}
