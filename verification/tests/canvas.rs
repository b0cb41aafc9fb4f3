use tarts::buffer::{Buffer, Cell};
use tarts::canvas::Canvas;
use tarts::effect::TerminalEffect;
use tarts::render_loop::{frame, resize};
use tarts::style::{Attribute, Color};

#[test]
fn a_canvas_hands_out_what_was_painted() {
    let mut canvas = Canvas::new((4, 3));
    assert!(canvas.get_diff().is_empty());
    let dot = Cell::new('o', Color::Yellow, Attribute::Bold);
    let mut scene = canvas.blank();
    assert_eq!(scene.get_size(), (4, 3));
    scene.set(2, 1, dot);
    canvas.paint(scene);
    assert_eq!(canvas.get_diff(), vec![(2, 1, dot)]);
    assert!(canvas.get_diff().is_empty());
    assert_eq!(canvas.buffer().get(2, 1), dot);
    canvas.update();
    assert!(canvas.get_diff().is_empty());

    let mut scene = canvas.blank();
    scene.set(0, 0, dot);
    canvas.paint(scene);
    assert_eq!(frame(&mut canvas), vec![(0u16, 0u16, dot), (2u16, 1u16, Cell::default())]);
}

#[test]
fn a_canvas_is_built_anew_for_a_new_size() {
    let mut canvas = Canvas::new((4, 3));
    let mut scene = canvas.blank();
    scene.fill_with(&Cell::new('x', Color::Red, Attribute::Reset));
    canvas.paint(scene);
    assert_eq!(canvas.get_diff().len(), 12);
    resize(&mut canvas, 2, 2);
    assert_eq!(canvas.get_size(), (2, 2));
    assert_eq!(canvas.buffer().get_size(), (2, 2));
    assert!(Buffer::new(2, 2).diff(canvas.buffer()).is_empty());
    assert!(canvas.get_diff().is_empty());
    resize(&mut canvas, 0, 5);
    assert_eq!(canvas.get_size(), (2, 2));
    let one = Canvas::new((1, 1));
    assert_eq!(one.blank().buffer.len(), 1);
}
