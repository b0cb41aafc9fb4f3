use tarts::buffer::{Buffer, Cell};
use tarts::effect::TerminalEffect;
use tarts::life::{get_neighbors_by_coords, get_neighbors_by_index, ConwayLife, ConwayLifeOptions, LifeCell};
use tarts::style::{Attribute, Color};

#[test]
fn conway_life_empty_neighbors_by_index() {
    let buf = Buffer::new(3, 3);

    for x in 0..3 {
        for y in 0..3 {
            let res = get_neighbors_by_index(&buf, buf.index_of(x, y));
            assert!(res.is_empty());
        }
    }
}

#[test]
fn conway_life_survive_neighbors_by_index() {
    let mut buf = Buffer::new(3, 3);
    let cell = Cell::new('*', Color::Blue, Attribute::Bold);
    buf.set(0, 0, cell);
    buf.set(0, 1, cell);
    buf.set(0, 2, cell);

    let res = get_neighbors_by_index(&buf, buf.index_of(1, 1));
    assert_eq!(res.len(), 3);

    let res = get_neighbors_by_index(&buf, buf.index_of(0, 0));
    assert_eq!(res.len(), 1);
}

#[test]
fn effect_empty_neighbors_by_index() {
    let buf = Buffer::new(3, 3);

    for x in 0..3 {
        for y in 0..3 {
            let res = get_neighbors_by_index(&buf, buf.index_of(x, y));
            assert!(res.is_empty());
        }
    }
}

#[test]
fn effect_survive_neighbors_by_index() {
    let mut buf = Buffer::new(3, 3);
    let cell = Cell::new('*', Color::Blue, Attribute::Bold);
    buf.set(0, 0, cell);
    buf.set(0, 1, cell);
    buf.set(0, 2, cell);

    let res = get_neighbors_by_index(&buf, buf.index_of(1, 1));
    assert_eq!(res.len(), 3);

    let res = get_neighbors_by_index(&buf, buf.index_of(0, 0));
    assert_eq!(res.len(), 1);
}

#[test]
fn neighbors_come_column_by_column() {
    let mut buf = Buffer::new(4, 3);
    let a = Cell::new('a', Color::Blue, Attribute::Bold);
    let b = Cell::new('b', Color::Red, Attribute::Bold);
    buf.set(2, 0, a);
    buf.set(0, 1, b);
    buf.set(1, 1, a);
    buf.set(3, 2, b);
    let res = get_neighbors_by_index(&buf, buf.index_of(1, 1));
    assert_eq!(res, vec![(4, b), (2, a)]);
    let res = get_neighbors_by_index(&buf, buf.index_of(2, 1));
    assert_eq!(res, vec![(5, a), (2, a), (11, b)]);
    let res = get_neighbors_by_coords(&buf, 0, 0);
    assert_eq!(res, vec![(0, 1, b), (1, 0, Cell::default()), (1, 1, a)]);
    assert_eq!(get_neighbors_by_coords(&buf, 1, 1).len(), 8);
    assert_eq!(get_neighbors_by_coords(&buf, 3, 2).len(), 3);
    assert_eq!(get_neighbors_by_coords(&Buffer::new(1, 1), 0, 0).len(), 0);
}

#[test]
fn life_starts_with_stars() {
    let mut life = ConwayLife::new(ConwayLifeOptions { initial_cells: 40 }, (10, 8));
    let population = life.population();
    assert!(1 <= population && population <= 40);
    let diff = life.get_diff();
    assert_eq!(diff.len(), population);
    for (x, y, cell) in diff.iter() {
        assert!(*x < 10 && *y < 8);
        assert_eq!(*cell, Cell::new('*', Color::Rgb { r: 0, g: 255, b: 0 }, Attribute::Bold));
    }
    assert!(life.get_diff().is_empty());
    assert_eq!(LifeCell::new('*'), LifeCell { character: '*', color: Color::Rgb { r: 0, g: 255, b: 0 } });
}

#[test]
fn life_follows_the_rules_on_a_small_board() {
    // on a board of four by four no gliders are dropped
    for _ in 0..50 {
        let mut life = ConwayLife::new(ConwayLifeOptions { initial_cells: 6 }, (4, 4));
        let _ = life.get_diff();
        let before: Vec<bool> = life.buffer().iter().map(|c| c.symbol != ' ').collect();
        life.update();
        assert_eq!(life.current_gen, 1);
        let _ = life.get_diff();
        let after: Vec<Cell> = life.buffer().iter().cloned().collect();
        for y in 0..4i32 {
            for x in 0..4i32 {
                let mut around = 0;
                for dy in -1..=1 {
                    for dx in -1..=1 {
                        let (nx, ny) = (x + dx, y + dy);
                        if (dx, dy) != (0, 0) && 0 <= nx && nx < 4 && 0 <= ny && ny < 4 && before[(ny * 4 + nx) as usize] {
                            around += 1;
                        }
                    }
                }
                let i = (y * 4 + x) as usize;
                let lives = if before[i] { around == 2 || around == 3 } else { around == 3 };
                assert_eq!(after[i].symbol != ' ', lives);
                if lives {
                    assert_eq!(after[i].color, Color::Rgb { r: 0, g: 254, b: 0 });
                    assert_eq!(after[i].attr, Attribute::Bold);
                }
            }
        }
    }
}

#[test]
fn life_drops_gliders_on_a_large_board() {
    let mut life = ConwayLife::new(ConwayLifeOptions { initial_cells: 0 }, (20, 20));
    assert_eq!(life.population(), 0);
    life.update();
    let population = life.population();
    assert!(5 <= population && population <= 45);
    let diff = life.get_diff();
    assert_eq!(diff.len(), population);
    for (_, _, cell) in diff.iter() {
        assert_eq!(*cell, Cell::new('0', Color::Rgb { r: 0, g: 254, b: 0 }, Attribute::Bold));
    }
    for _ in 0..300 {
        life.update();
        let _ = life.get_diff();
    }
    assert_eq!(life.current_gen, 46);
}

#[test]
fn life_on_one_cell_and_reset() {
    let mut life = ConwayLife::new(ConwayLifeOptions { initial_cells: 3 }, (1, 1));
    assert_eq!(life.get_diff().len(), 1);
    life.update();
    assert_eq!(life.population(), 0);
    life.update_size(6, 5);
    life.reset();
    assert_eq!(life.buffer().get_size(), (6, 5));
    assert_eq!(life.current_gen, 0);
}

#[test]
fn life_keeps_its_options_over_a_reset() {
    let mut life = ConwayLife::new(ConwayLifeOptions { initial_cells: 5 }, (8, 8));
    assert!(1 <= life.population() && life.population() <= 5);
    assert_eq!(life.get_size(), (8, 8));
    assert_eq!(life.buffer().get_size(), (8, 8));
    life.update_size(3, 3);
    life.reset();
    assert!(1 <= life.population() && life.population() <= 5);
    assert_eq!(life.buffer().get_size(), (3, 3));
    let empty = ConwayLife::new(ConwayLifeOptions { initial_cells: 0 }, (8, 8));
    assert_eq!(empty.population(), 0);
}
