use tarts::buffer::{Buffer, Cell};
use tarts::style::{Attribute, Color};

#[test]
fn buffer_create_new() {
    let buf = Buffer::new(5, 4);
    assert_eq!(buf.width, 5);
    assert_eq!(buf.height, 4);

    let size = buf.buffer.len();
    assert_eq!(size, 20);
}

#[test]
fn diff() {
    let mut buf = Buffer::new(3, 3);
    let point = buf.index_of(0, 0);
    buf.buffer[point] = Cell::new('b', Color::Green, Attribute::NormalIntensity);
    let point = buf.index_of(0, 1);
    buf.buffer[point] = Cell::new('a', Color::Green, Attribute::NormalIntensity);

    let mut next_buf = Buffer::new(3, 3);
    let point = buf.index_of(0, 0);
    next_buf.buffer[point] = Cell::new('c', Color::DarkGreen, Attribute::NormalIntensity);
    let point = buf.index_of(0, 1);
    next_buf.buffer[point] = Cell::new('b', Color::Green, Attribute::NormalIntensity);
    let point = buf.index_of(0, 2);
    next_buf.buffer[point] = Cell::new('a', Color::Green, Attribute::NormalIntensity);

    let diff = buf.diff(&next_buf);
    assert_eq!(diff.len(), 3);
}

#[test]
fn diff_lists_changes_row_by_row() {
    let prev = Buffer::new(3, 2);
    let mut next = Buffer::new(3, 2);
    let a = Cell::new('a', Color::Red, Attribute::Bold);
    let b = Cell::new('b', Color::Blue, Attribute::Reset);
    next.set(2, 1, b);
    next.set(1, 0, a);
    let diff = prev.diff(&next);
    assert_eq!(diff, vec![(1, 0, a), (2, 1, b)]);
}

#[test]
fn diff_sees_each_field() {
    let mut prev = Buffer::new(2, 2);
    let mut next = Buffer::new(2, 2);
    prev.fill_with(&Cell::new('x', Color::Green, Attribute::Bold));
    next.fill_with(&Cell::new('x', Color::Green, Attribute::Bold));
    next.set(0, 0, Cell::new('y', Color::Green, Attribute::Bold));
    next.set(1, 0, Cell::new('x', Color::DarkGreen, Attribute::Bold));
    next.set(0, 1, Cell::new('x', Color::Green, Attribute::Dim));
    let diff = prev.diff(&next);
    assert_eq!(diff.len(), 3);
    assert_eq!(diff[0], (0, 0, Cell::new('y', Color::Green, Attribute::Bold)));
    assert_eq!(diff[1], (1, 0, Cell::new('x', Color::DarkGreen, Attribute::Bold)));
    assert_eq!(diff[2], (0, 1, Cell::new('x', Color::Green, Attribute::Dim)));
}

#[test]
fn diff_with_itself_is_empty() {
    let mut buf = Buffer::new(7, 5);
    buf.set(3, 2, Cell::new('q', Color::Rgb { r: 1, g: 2, b: 3 }, Attribute::Italic));
    assert!(buf.diff(&buf).is_empty());
    assert!(buf.diff(&buf.clone()).is_empty());
}

#[test]
fn fill_with_reaches_every_cell() {
    let mut buf = Buffer::new(4, 3);
    let c = Cell::new('#', Color::Green, Attribute::Reset);
    buf.fill_with(&c);
    for y in 0..3 {
        for x in 0..4 {
            assert_eq!(buf.get(x, y), c);
        }
    }
    assert!(buf.diff(&buf).is_empty());
    assert_eq!(Buffer::new(4, 3).diff(&buf).len(), 12);
}

#[test]
fn new_buffer_is_blank() {
    let buf = Buffer::new(2, 2);
    assert_eq!(buf.get_size(), (2, 2));
    for cell in buf.iter() {
        assert_eq!(*cell, Cell::default());
    }
    assert_eq!(Cell::default(), Cell::new(' ', Color::Black, Attribute::Reset));
}

#[test]
fn one_by_one_buffer() {
    let mut buf = Buffer::new(1, 1);
    let c = Cell::new('z', Color::White, Attribute::Bold);
    buf.set(0, 0, c);
    assert_eq!(buf.get(0, 0), c);
    assert_eq!(buf.index_of(0, 0), 0);
    assert_eq!(buf.pos_of(0), (0, 0));
}

#[test]
fn zero_sized_buffer_is_rejected() {
    assert!(Buffer::try_new(0, 5).is_none());
    assert!(Buffer::try_new(5, 0).is_none());
    assert!(Buffer::try_new(0, 0).is_none());
    assert!(Buffer::try_new(usize::MAX, 2).is_none());
    let buf = Buffer::try_new(1, 1).unwrap();
    assert_eq!(buf.buffer.len(), 1);
}

#[test]
fn index_and_position_agree() {
    let buf = Buffer::new(5, 4);
    assert_eq!(buf.index_of(3, 2), 13);
    assert_eq!(buf.pos_of(13), (3, 2));
    for i in 0..20 {
        let (x, y) = buf.pos_of(i);
        assert_eq!(buf.index_of(x, y), i);
    }
}

#[test]
fn set_changes_one_cell_only() {
    let mut buf = Buffer::new(3, 2);
    let old = Cell::new('.', Color::Grey, Attribute::Dim);
    buf.fill_with(&old);
    let new = Cell::new('n', Color::Cyan, Attribute::Bold);
    buf.set(1, 1, new);
    for y in 0..2 {
        for x in 0..3 {
            assert_eq!(buf.get(x, y), if (x, y) == (1, 1) { new } else { old });
        }
    }
}
