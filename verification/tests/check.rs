use tarts::buffer::Cell;
use tarts::check::{Check, CheckOptions};
use tarts::effect::TerminalEffect;
use tarts::style::{Attribute, Color};

#[test]
fn some_test() {}

#[test]
fn check_fills_the_screen() {
    let mut check = Check::new(CheckOptions { screen_size: (3, 2) });
    let diff = check.get_diff();
    assert_eq!(diff.len(), 6);
    for (k, (x, y, cell)) in diff.iter().enumerate() {
        assert_eq!((*x, *y), (k % 3, k / 3));
        assert_eq!(*cell, Cell::new('#', Color::Green, Attribute::Reset));
    }
    check.update();
    assert!(check.get_diff().is_empty());
    check.update_size(1, 1);
    check.reset();
    assert_eq!(check.get_diff().len(), 1);
}
