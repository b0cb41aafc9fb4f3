use tarts::buffer::{Buffer, Cell};
use tarts::crab::{draw_frame, facing, get_frame_index, Direction};
use tarts::donut::{luminance, paint_output};
use tarts::style::{Attribute, Color};

#[test]
fn crab_pictures() {
    assert_eq!(get_frame_index(true, Direction::Right, 7), 2);
    assert_eq!(get_frame_index(true, Direction::Left, 0), 5);
    assert_eq!(get_frame_index(false, Direction::Right, 0), 0);
    assert_eq!(get_frame_index(false, Direction::Right, 1), 1);
    assert_eq!(get_frame_index(false, Direction::Right, 2), 0);
    assert_eq!(get_frame_index(false, Direction::Left, 0), 3);
    assert_eq!(get_frame_index(false, Direction::Left, 5), 4);
    assert_eq!(facing(0), Direction::Right);
    assert_eq!(facing(1500), Direction::Right);
    assert_eq!(facing(-1), Direction::Left);
}

#[test]
fn crab_is_stamped_onto_the_screen() {
    let lines: Vec<Vec<char>> = vec![" ab".chars().collect(), "c d e".chars().collect(), "".chars().collect(), "f".chars().collect()];
    let red = Color::Rgb { r: 200, g: 50, b: 50 };
    let mut buf = Buffer::new(5, 4);
    let old = Cell::new('.', Color::Blue, Attribute::Dim);
    buf.fill_with(&old);
    draw_frame(&mut buf, 2, 1, &lines, red);
    let cell = |c: char| Cell::new(c, red, Attribute::Bold);
    let mut expected = Buffer::new(5, 4);
    expected.fill_with(&old);
    expected.set(3, 1, cell('a'));
    expected.set(4, 1, cell('b'));
    expected.set(2, 2, cell('c'));
    expected.set(4, 2, cell('d'));
    assert!(expected.diff(&buf).is_empty());
    assert_eq!(Buffer::new(5, 4).diff(&buf).len(), 20);

    let mut buf = Buffer::new(5, 4);
    draw_frame(&mut buf, usize::MAX, usize::MAX, &lines, red);
    assert!(Buffer::new(5, 4).diff(&buf).is_empty());
    draw_frame(&mut buf, 0, 0, &lines, red);
    assert_eq!(Buffer::new(5, 4).diff(&buf).len(), 6);
    assert_eq!(buf.get(0, 3), cell('f'));
}

#[test]
fn donut_glyphs_are_painted_in_their_shade() {
    let glyphs: Vec<char> = vec!['.', ',', '-', '~', ':', ';', '=', '!', '*', '#', '$', '@'];
    assert_eq!(luminance(&glyphs, '.'), 0);
    assert_eq!(luminance(&glyphs, '='), 6);
    assert_eq!(luminance(&glyphs, '@'), 11);
    assert_eq!(luminance(&glyphs, 'x'), 0);
    assert_eq!(luminance(&vec!['a', 'b', 'a'], 'a'), 0);
    let output: Vec<char> = " .=@x~".chars().collect();
    let mut buf = Buffer::new(3, 2);
    paint_output(&mut buf, &output, &glyphs);
    assert_eq!(buf.get(0, 0), Cell::default());
    assert_eq!(buf.get(1, 0), Cell::new('.', Color::Rgb { r: 213, g: 196, b: 161 }, Attribute::Bold));
    assert_eq!(buf.get(2, 0), Cell::new('=', Color::Rgb { r: 69, g: 133, b: 136 }, Attribute::Bold));
    assert_eq!(buf.get(0, 1), Cell::new('@', Color::Rgb { r: 204, g: 36, b: 29 }, Attribute::Bold));
    assert_eq!(buf.get(1, 1), Cell::new('x', Color::Rgb { r: 213, g: 196, b: 161 }, Attribute::Bold));
    assert_eq!(buf.get(2, 1), Cell::new('~', Color::Rgb { r: 213, g: 196, b: 161 }, Attribute::Bold));
    let long: Vec<char> = "abcdefghijklmn".chars().collect();
    let mut buf = Buffer::new(1, 1);
    paint_output(&mut buf, &vec!['m'], &long);
    assert_eq!(buf.get(0, 0).color, Color::Rgb { r: 213, g: 196, b: 161 });
    paint_output(&mut buf, &vec!['f'], &long);
    assert_eq!(buf.get(0, 0).color, Color::Rgb { r: 251, g: 241, b: 199 });
}
