use tarts::glyphs::{random_life_glyph, random_rain_glyph, random_wall_glyph};
use tarts::random::{chance, draw, shuffled_indices};

#[test]
fn draws_stay_in_their_range_and_vary() {
    let mut rng = rand::rng();
    let mut seen = vec![];
    for _ in 0..500 {
        let n = draw(&mut rng, 5, 1000);
        assert!(5 <= n && n < 1000);
        seen.push(n);
    }
    assert!(seen.iter().any(|n| *n != 5));
    assert!(seen.iter().any(|n| *n != seen[0]));
    for _ in 0..100 {
        assert_eq!(draw(&mut rng, 7, 8), 7);
    }
}

#[test]
fn draws_from_an_empty_range_give_its_start() {
    let mut rng = rand::rng();
    assert_eq!(draw(&mut rng, 5, 5), 5);
    assert_eq!(draw(&mut rng, 9, 3), 9);
    assert_eq!(draw(&mut rng, 0, 0), 0);
}

#[test]
fn sure_and_hopeless_chances() {
    let mut rng = rand::rng();
    for _ in 0..100 {
        assert!(chance(&mut rng, 10, 10));
        assert!(chance(&mut rng, 11, 10));
        assert!(!chance(&mut rng, 0, 10));
        assert!(!chance(&mut rng, 3, 0));
    }
    let hits = (0..2000).filter(|_| chance(&mut rng, 3, 10)).count();
    assert!(300 < hits && hits < 900);
}

#[test]
fn shuffled_indices_are_a_permutation() {
    let mut rng = rand::rng();
    let mut moved = false;
    for _ in 0..50 {
        let order = shuffled_indices(&mut rng, 10);
        let mut sorted = order.clone();
        sorted.sort();
        assert_eq!(sorted, (0..10).collect::<Vec<usize>>());
        if order != sorted {
            moved = true;
        }
    }
    assert!(moved);
    assert!(shuffled_indices(&mut rng, 0).is_empty());
    assert_eq!(shuffled_indices(&mut rng, 1), vec![0]);
}

#[test]
fn glyphs_come_from_their_tables() {
    let mut rng = rand::rng();
    let rain = "012345789:・.\"=*+-<>ﾊﾐﾋｰｳｼﾅﾓﾆｻﾜﾂｵﾘｱﾎﾃﾏｹﾒｴｶｷﾑﾕﾗｾﾈｽﾀﾇﾍ¦çﾘｸ";
    let wall = ":.\"=*+-<>ﾊﾐﾋｰｳｼﾅﾓﾆｻﾜﾂｵﾘｱﾎﾃﾏｹﾒｴｶｷﾑﾕﾗｾﾈｽﾀﾇﾍ¦çﾘｸ";
    let life = "ﾊﾐﾋｰｳｼﾅﾓﾆｻﾜﾂｵﾘｱﾎﾃﾏｹﾒｴｶｷﾑﾕﾗｾﾈｽﾀﾇﾍ";
    let mut seen = vec![];
    for _ in 0..300 {
        let glyph = random_rain_glyph(&mut rng);
        assert!(rain.contains(glyph));
        seen.push(glyph);
        assert!(wall.contains(random_wall_glyph(&mut rng)));
        assert!(life.contains(random_life_glyph(&mut rng)));
    }
    assert!(seen.iter().any(|glyph| *glyph != seen[0]));
    assert!(!wall.contains('0') && !life.contains(':'));
}
