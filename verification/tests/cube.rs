use tarts::buffer::{Buffer, Cell};
use tarts::cube::{cube_edges, draw_ascii, draw_braille, draw_braille_line, draw_line, Edge};
use tarts::style::{Attribute, Color};

fn marks(buf: &Buffer) -> Vec<(usize, usize)> {
    let mut out = vec![];
    for (i, cell) in buf.iter().enumerate() {
        if *cell != Cell::default() {
            out.push(buf.pos_of(i));
        }
    }
    out
}

#[test]
fn straight_and_slanted_lines() {
    let block = Cell::new('█', Color::Green, Attribute::Bold);
    let mut buf = Buffer::new(6, 4);
    draw_line(1, 2, 4, 2, &mut buf);
    assert_eq!(marks(&buf), vec![(1, 2), (2, 2), (3, 2), (4, 2)]);
    assert_eq!(buf.get(1, 2), block);

    let mut buf = Buffer::new(6, 4);
    draw_line(3, 3, 0, 0, &mut buf);
    assert_eq!(marks(&buf), vec![(0, 0), (1, 1), (2, 2), (3, 3)]);

    let mut buf = Buffer::new(6, 4);
    draw_line(0, 0, 5, 2, &mut buf);
    assert_eq!(marks(&buf), vec![(0, 0), (1, 0), (2, 1), (3, 1), (4, 2), (5, 2)]);

    let mut buf = Buffer::new(6, 4);
    draw_line(2, 1, 2, 1, &mut buf);
    assert_eq!(marks(&buf), vec![(2, 1)]);
}

#[test]
fn lines_are_cut_at_the_edge() {
    let mut buf = Buffer::new(4, 3);
    draw_line(-3, 1, 8, 1, &mut buf);
    assert_eq!(marks(&buf), vec![(0, 1), (1, 1), (2, 1), (3, 1)]);
    let mut buf = Buffer::new(4, 3);
    draw_line(-5, -5, -1, -1, &mut buf);
    assert!(marks(&buf).is_empty());
    let mut buf = Buffer::new(2, 2);
    draw_line(i32::MIN, 0, i32::MIN + 3, 1, &mut buf);
    assert!(marks(&buf).is_empty());
}

#[test]
fn braille_lines_set_dots() {
    let mut buf = Buffer::new(3, 2);
    draw_braille_line(0, 0, 5, 0, &mut buf);
    let top = Cell::new('\u{2803}', Color::Green, Attribute::Bold);
    assert_eq!(buf.get(0, 0), top);
    assert_eq!(buf.get(1, 0), top);
    assert_eq!(buf.get(2, 0), top);
    assert_eq!(marks(&buf).len(), 3);

    let mut buf = Buffer::new(3, 2);
    draw_braille_line(1, 0, 1, 7, &mut buf);
    assert_eq!(buf.get(0, 0), Cell::new('\u{28aa}', Color::Green, Attribute::Bold));
    assert_eq!(buf.get(0, 1), Cell::new('\u{28aa}', Color::Green, Attribute::Bold));
    assert_eq!(marks(&buf).len(), 2);

    let mut buf = Buffer::new(3, 2);
    draw_braille_line(4, 5, 4, 5, &mut buf);
    assert_eq!(marks(&buf), vec![(2, 1)]);
    assert_eq!(buf.get(2, 1).symbol, '\u{2804}');
}

#[test]
fn a_wire_frame() {
    let edges = cube_edges();
    assert_eq!(edges.len(), 12);
    assert_eq!((edges[3].v1, edges[3].v2), (3, 0));
    assert_eq!((edges[7].v1, edges[7].v2), (7, 4));
    assert_eq!((edges[10].v1, edges[10].v2), (2, 6));
    let corners = vec![(1, 1), (6, 1), (6, 4), (1, 4), (3, 2), (8, 2), (8, 5), (3, 5)];
    let mut buf = Buffer::new(10, 7);
    buf.set(0, 0, Cell::new('x', Color::Red, Attribute::Bold));
    draw_ascii(&corners, &edges, &mut buf);
    assert_eq!(buf.get(0, 0), Cell::default());
    for (x, y) in corners.iter() {
        assert_eq!(buf.get(*x as usize, *y as usize).symbol, '█');
    }
    assert_eq!(buf.get(3, 1).symbol, '█');
    assert_eq!(buf.get(9, 6), Cell::default());

    let mut buf = Buffer::new(10, 7);
    draw_braille(&corners, &vec![Edge { v1: 0, v2: 1 }], &mut buf);
    assert_eq!(marks(&buf), vec![(0, 0), (1, 0), (2, 0), (3, 0)]);
}
