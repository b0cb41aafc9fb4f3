use tarts::matrix::charworm::{VerticalWorm, VerticalWormStyle};
use tarts::matrix::matrix::{pick_style, GlyphStyle};
use tarts::matrix::{Matrix, QueueItems, MAX_WORMS};
use tarts::style::Color;

#[test]
fn mod_create_new() {}

#[test]
fn draw() {}

#[test]
fn mod_update() {}

#[test]
fn run_loop() {}

#[test]
fn charworm_create_new_and_reset() {
    let mut rng = rand::rng();
    let mut new_worm = VerticalWorm::new(100, 100, 1 as usize, &mut rng);
    assert_eq!(new_worm.body.len(), 1);
    assert_eq!(new_worm.finish, false);

    new_worm.reset(100, 100, &mut rng);
    assert_eq!(new_worm.fy, 0);
    assert_eq!(new_worm.body.len(), 1);
}

#[test]
fn charworm_generate_a_lot_of_worms() {
    let mut rng = rand::rng();
    let mut worms = vec![];
    for index in 1..=1000 {
        worms.push(VerticalWorm::new(100, 100, index, &mut rng));
    }
    assert_eq!(worms.len(), 1000);
    for worm in worms.iter() {
        assert!(worm.fx % 1000 == 0 && worm.fx / 1000 < 100);
        assert!(worm.fy % 1000 == 0 && worm.fy / 1000 < 50);
        assert!(10 <= worm.max_length && worm.max_length <= 50);
        assert!(2 <= worm.speed && worm.speed <= 20);
    }
}

#[test]
fn to_points() {
    let new_worm =
        VerticalWorm::from_values(1, vec!['a'], VerticalWormStyle::Gradient, 10_300, 10_800, 20, 10, false);
    let (x, y) = new_worm.to_points();
    assert_eq!(x, 10);
    assert_eq!(y, 11);
}

#[test]
fn charworm_grow() {
    let mut rng = rand::rng();
    let mut new_worm =
        VerticalWorm::from_values(1, vec!['a'], VerticalWormStyle::Front, 10_300, 10_800, 20, 10, false);
    new_worm.grow(10, &mut rng);
    assert_eq!(new_worm.body.len(), 2);
    assert_eq!(new_worm.body.get(1), Some(&'a'));

    let mut new_worm =
        VerticalWorm::from_values(1, vec!['b'], VerticalWormStyle::Middle, 10_300, 10_800, 20, 4, false);
    new_worm.grow(12, &mut rng);
    assert_eq!(new_worm.body.len(), 2);
    assert_eq!(new_worm.body.get(1), Some(&'b'));
    new_worm.grow(11, &mut rng);
    assert_eq!(new_worm.body.len(), 2);

    let mut new_worm = VerticalWorm::from_values(1, vec!['c'], VerticalWormStyle::Back, 10_300, 10_800, 3, 4, false);
    new_worm.grow(12, &mut rng);
    new_worm.grow(12, &mut rng);
    new_worm.grow(12, &mut rng);
    new_worm.grow(12, &mut rng);
    assert_eq!(new_worm.body.len(), 3);
}

#[test]
fn charworm_update() {
    let mut rng = rand::rng();

    // nothing special worm update
    let mut new_worm = VerticalWorm::from_values(1, vec!['c'], VerticalWormStyle::Back, 10_300, 10_800, 3, 8, false);
    new_worm.update(30, 30, 1000, &mut rng);
    assert_eq!(new_worm.to_points().1, 19);
    assert_eq!(new_worm.body.len(), 2);

    // edge case when body len is 0
    let mut new_worm = VerticalWorm::from_values(1, vec![], VerticalWormStyle::Middle, 10_300, 10_800, 3, 8, false);
    new_worm.update(30, 30, 1000, &mut rng);
    assert_eq!(new_worm.body.len(), 1);
    assert_eq!(new_worm.fy, 0); // should be reseted

    // when tail_y < 0
    let mut new_worm = VerticalWorm::from_values(
        1,
        vec!['a', 'b', 'c', 'd'],
        VerticalWormStyle::Fading,
        10_000,
        2_000,
        5,
        2,
        false,
    );
    new_worm.update(30, 30, 1000, &mut rng);
    assert_eq!(new_worm.body.len(), 5);
    assert_eq!(new_worm.fy < 1000 * new_worm.body.len() as u64, true);

    // when head_y > screen height
    let mut new_worm = VerticalWorm::from_values(
        1,
        vec!['a', 'b', 'c', 'd'],
        VerticalWormStyle::Fading,
        10_000,
        30_800,
        5,
        2,
        false,
    );
    new_worm.update(30, 30, 1000, &mut rng);
    assert_eq!(new_worm.body.len(), 3);
    assert_eq!(new_worm.fy < 30_000, true);
    assert_eq!(new_worm.vw_style, VerticalWormStyle::Back);
    assert_eq!(new_worm.max_length, 4);
    assert!(new_worm.finish);

    // when head_y > screen height and body len is 2
    let mut new_worm =
        VerticalWorm::from_values(1, vec!['a', 'b'], VerticalWormStyle::Fading, 10_000, 30_800, 5, 2, false);
    new_worm.update(30, 30, 1000, &mut rng);
    assert_eq!(new_worm.body.len(), 1);
    assert_eq!(new_worm.fy, 29_000);
    new_worm.update(30, 30, 1000, &mut rng);
    assert_eq!(new_worm.fy, 0); // should be reseted there
}

#[test]
fn worm_styles() {
    let bold_white = GlyphStyle { color: Color::White, bold: true };
    let plain = |color: Color| GlyphStyle { color, bold: false };
    assert_eq!(pick_style(&VerticalWormStyle::Front, 0), bold_white);
    assert_eq!(pick_style(&VerticalWormStyle::Front, 1), plain(Color::White));
    assert_eq!(pick_style(&VerticalWormStyle::Front, 4), plain(Color::Green));
    assert_eq!(pick_style(&VerticalWormStyle::Front, 7), plain(Color::DarkGreen));
    assert_eq!(pick_style(&VerticalWormStyle::Front, 12), plain(Color::Grey));
    assert_eq!(pick_style(&VerticalWormStyle::Front, 13), plain(Color::DarkGrey));
    assert_eq!(pick_style(&VerticalWormStyle::Middle, 0), plain(Color::White));
    assert_eq!(pick_style(&VerticalWormStyle::Middle, 3), plain(Color::Green));
    assert_eq!(pick_style(&VerticalWormStyle::Middle, 5), plain(Color::DarkGreen));
    assert_eq!(pick_style(&VerticalWormStyle::Middle, 10), plain(Color::Grey));
    assert_eq!(pick_style(&VerticalWormStyle::Middle, 11), plain(Color::DarkGrey));
    assert_eq!(pick_style(&VerticalWormStyle::Back, 0), plain(Color::Green));
    assert_eq!(pick_style(&VerticalWormStyle::Back, 3), plain(Color::DarkGreen));
    assert_eq!(pick_style(&VerticalWormStyle::Back, 5), plain(Color::Grey));
    assert_eq!(pick_style(&VerticalWormStyle::Back, 6), plain(Color::DarkGrey));
    assert_eq!(pick_style(&VerticalWormStyle::Fading, 4), plain(Color::Grey));
    assert_eq!(pick_style(&VerticalWormStyle::Fading, 5), plain(Color::DarkGrey));
    assert_eq!(pick_style(&VerticalWormStyle::Gradient, 0), bold_white);
    assert_eq!(pick_style(&VerticalWormStyle::Gradient, 1), plain(Color::Rgb { r: 0, g: 243, b: 0 }));
    assert_eq!(pick_style(&VerticalWormStyle::Gradient, 21), plain(Color::Rgb { r: 0, g: 3, b: 0 }));
    assert_eq!(pick_style(&VerticalWormStyle::Gradient, 22), plain(Color::Rgb { r: 0, g: 0, b: 0 }));
}

#[test]
fn matrix_draws_worms_over_cleared_cells() {
    let mut matrix = Matrix::new(6, 8, 3);
    assert_eq!(matrix.worm_count(), 3);
    let queue = matrix.draw();
    let clears = queue.iter().filter(|item| **item == QueueItems::ClearChar).count();
    let prints = queue.iter().filter(|item| matches!(item, QueueItems::PrintChar(_, _, _))).count();
    let moves = queue.iter().filter(|item| matches!(item, QueueItems::MoveTo(_, _))).count();
    assert_eq!(moves, clears + prints);
    assert!(1 <= prints && prints <= 3);
    assert!(48 - 9 <= clears && clears <= 48 - 1);
    for pair in queue.chunks(2) {
        match (pair[0], pair[1]) {
            (QueueItems::MoveTo(x, y), QueueItems::ClearChar) => assert!(x < 6 && y < 8),
            (QueueItems::MoveTo(x, y), QueueItems::PrintChar(_, pos, glyph)) => {
                assert!(x < 6 && y < 4);
                assert_eq!(pos, 0);
                assert!(glyph != ' ');
            }
            _ => panic!("each command follows a move of the cursor"),
        }
    }
}

#[test]
fn matrix_update_keeps_worms_on_the_map() {
    let mut matrix = Matrix::new(20, 30, 10);
    for _ in 0..300 {
        matrix.update();
        let queue = matrix.draw();
        assert_eq!(queue.len() % 2, 0);
        for item in queue.iter() {
            if let QueueItems::MoveTo(x, y) = item {
                assert!(*x < 20 && *y < 30);
            }
        }
        assert!(10 <= matrix.worm_count() && matrix.worm_count() <= MAX_WORMS);
    }
    assert!(matrix.worm_count() > 10);
}

#[test]
fn matrix_on_one_cell() {
    let mut matrix = Matrix::new(1, 1, 2);
    for _ in 0..50 {
        matrix.update();
        let queue = matrix.draw();
        assert!(queue.len() <= 4);
    }
}

#[test]
fn a_worm_is_added_when_asked_for_and_there_is_room() {
    let mut matrix = Matrix::new(20, 30, MAX_WORMS - 2);
    matrix.add_one_when(false);
    assert_eq!(matrix.worm_count(), MAX_WORMS - 2);
    matrix.add_one_when(true);
    assert_eq!(matrix.worm_count(), MAX_WORMS - 1);
    matrix.add_one_when(true);
    assert_eq!(matrix.worm_count(), MAX_WORMS);
    matrix.add_one_when(true);
    assert_eq!(matrix.worm_count(), MAX_WORMS);
    for _ in 0..50 {
        matrix.add_one();
    }
    assert_eq!(matrix.worm_count(), MAX_WORMS);
}
