use tarts::effect::TerminalEffect;
use tarts::rain::digital_rain::DigitalRain;
use tarts::rain::draw::{pick_color, pick_style};
use tarts::rain::gradient::{two_step_color_gradient, Color};
use tarts::order::sort_by_rank;
use tarts::rain::rain_drop::{phase, Phase, RainDrop, RainDropStyle};
use tarts::rain::rain_options::{DigitalRainOptions, DigitalRainOptionsBuilder};
use tarts::style;

fn get_sane_default_options() -> DigitalRainOptions {
    DigitalRainOptionsBuilder::new((100, 100)).drops_range((20, 30)).speed_range((10, 20)).build()
}

fn hundred() -> DigitalRainOptions {
    DigitalRainOptionsBuilder::new((100, 100)).build()
}

fn thirty() -> DigitalRainOptions {
    DigitalRainOptionsBuilder::new((30, 30)).build()
}

#[test]
fn builder_test() {
    let foo = DigitalRainOptions { size: (100, 100), drops_range: (100, 200), speed_range: (5, 15) };
    let foo_from_builder =
        DigitalRainOptionsBuilder::new((100, 100)).drops_range((100, 200)).speed_range((5, 15)).build();

    assert_eq!(foo, foo_from_builder);
}

#[test]
fn builder_defaults_and_getters() {
    let options = DigitalRainOptionsBuilder::new((80, 40)).build();
    assert_eq!(options.get_width(), 80);
    assert_eq!(options.get_height(), 40);
    assert_eq!(options.get_min_drops_number(), 10);
    assert_eq!(options.get_max_drops_number(), 100);
    assert_eq!(options.get_min_speed(), 4);
    assert_eq!(options.get_max_speed(), 16);
}

#[test]
fn default_options_follow_the_screen() {
    let options = DigitalRain::default_options(80, 40);
    assert_eq!(options, DigitalRainOptions { size: (80, 40), drops_range: (20, 40), speed_range: (2, 16) });
    let options = DigitalRain::default_options(200, 300);
    assert_eq!(options, DigitalRainOptions { size: (200, 300), drops_range: (375, 750), speed_range: (15, 30) });
    let options = DigitalRain::default_options(1, 1);
    assert_eq!(options, DigitalRainOptions { size: (1, 1), drops_range: (10, 20), speed_range: (2, 16) });
    let options = DigitalRain::default_options(640, 180);
    assert_eq!(options, DigitalRainOptions { size: (640, 180), drops_range: (720, 1440), speed_range: (9, 18) });
    let options = DigitalRain::default_options(65_535, 65_535);
    assert_eq!(options.drops_range, (65_535, 65_535));
    assert_eq!(options.speed_range, (3276, 6553));
}

#[test]
fn digital_rain_create_new() {
    let foo = DigitalRain::new(get_sane_default_options());
    assert_eq!(foo.rain_drops().len(), 20);
}

#[test]
fn no_diff() {
    let mut foo = DigitalRain::new(get_sane_default_options());
    let _ = foo.get_diff();
    let q = foo.get_diff();
    assert!(q.is_empty());
}

#[test]
fn same_diff_and_update() {
    let mut foo = DigitalRain::new(get_sane_default_options());
    foo.update();
    let q = foo.get_diff();
    assert!(!q.is_empty());
}

#[test]
fn rain_on_thirty_by_thirty() {
    let options = DigitalRainOptionsBuilder::new((30, 30)).drops_range((20, 20)).speed_range((20, 40)).build();
    let mut rain = DigitalRain::new(options);
    assert_eq!(rain.rain_drops().len(), 20);
    let first = rain.get_diff();
    assert!(!first.is_empty());
    assert!(first.len() < 900);
    assert!(first.len() <= 20);
    assert!(rain.get_diff().is_empty());
    rain.update();
    assert_eq!(rain.rain_drops().len(), 20);
    let second = rain.get_diff();
    assert!(second.len() < 900);
    assert!(second.len() != first.len());
    assert!(second.len() > first.len());
}

#[test]
fn rain_reset_repaints() {
    let options = DigitalRainOptionsBuilder::new((30, 30)).drops_range((20, 25)).speed_range((20, 40)).build();
    let mut rain = DigitalRain::new(options);
    let _ = rain.get_diff();
    for _ in 0..40 {
        rain.update();
        let diff = rain.get_diff();
        for (x, y, _) in diff.iter() {
            assert!(*x < 30 && *y < 30);
        }
        assert!(rain.rain_drops().len() <= 25);
    }
    rain.update_size(10, 12);
    rain.reset();
    assert_eq!(rain.rain_drops().len(), 20);
    let diff = rain.get_diff();
    assert!(!diff.is_empty());
    assert!(diff.len() <= 20);
    for (x, y, cell) in diff.iter() {
        assert!(*x < 10 && *y < 12);
        assert!(cell.symbol != ' ');
    }
}

#[test]
fn rain_on_one_cell() {
    let options = DigitalRainOptionsBuilder::new((1, 1)).drops_range((3, 5)).speed_range((2, 16)).build();
    let mut rain = DigitalRain::new(options);
    for _ in 0..200 {
        let diff = rain.get_diff();
        assert!(diff.len() <= 1);
        rain.update();
    }
}

#[test]
fn rain_drop_create_new_and_reset() {
    let mut rng = rand::rng();
    let mut new_worm = RainDrop::new(&hundred(), 1 as usize, &mut rng);
    assert_eq!(new_worm.body.len(), 1);
    assert_eq!(new_worm.speed > 0, true);

    new_worm.reset(&hundred(), &mut rng);
    assert_eq!(new_worm.fy, 1000);
    assert_eq!(new_worm.body.len(), 1);
}

#[test]
fn rain_drop_generate_a_lot_of_worms() {
    let mut rng = rand::rng();
    let mut worms = vec![];
    for index in 1..=1000 {
        worms.push(RainDrop::new(&hundred(), index, &mut rng));
    }
    assert_eq!(worms.len(), 1000);
    for worm in worms.iter() {
        assert!(worm.fx < 100);
        assert!(worm.fy % 1000 == 0 && worm.fy / 1000 < 50);
        assert!(worm.max_length <= 66);
        assert!(4 <= worm.speed && worm.speed <= 16);
        assert_eq!(worm.body.len(), 1);
        assert!(worm.body[0] != ' ');
    }
}

#[test]
fn to_point() {
    let new_worm = RainDrop::from_values(1, vec!['a'], RainDropStyle::Gradient, 10, 10_800, 20, 10);
    let (x, y) = new_worm.to_point();
    assert_eq!(x, 10);
    assert_eq!(y, 11);
}

#[test]
fn to_point_rounds_half_down_the_screen() {
    let at = |fy: u64| RainDrop::from_values(1, vec!['a'], RainDropStyle::Gradient, 3, fy, 20, 10).to_point();
    assert_eq!(at(0), (3, 0));
    assert_eq!(at(499), (3, 0));
    assert_eq!(at(500), (3, 1));
    assert_eq!(at(10_499), (3, 10));
    assert_eq!(at(10_500), (3, 11));
    assert_eq!(at(u64::MAX), (3, 65535));
}

#[test]
fn to_point_vec() {
    let new_worm = RainDrop::from_values(1, vec!['a', 'b', 'c'], RainDropStyle::Fading, 10, 10_000, 10, 8);
    let points = new_worm.to_points_vec();
    assert_eq!(points.len(), 3);
    assert_eq!(points, vec![(10, 10, 'a'), (10, 9, 'b'), (10, 8, 'c')]);
}

#[test]
fn to_points_vec_stops_at_the_top() {
    let worm = RainDrop::from_values(1, vec!['a', 'b', 'c', 'd'], RainDropStyle::Fading, 7, 1_000, 10, 8);
    assert_eq!(worm.to_points_vec(), vec![(7, 1, 'a'), (7, 0, 'b')]);
    let worm = RainDrop::from_values(1, vec!['a', 'b'], RainDropStyle::Fading, 7, 40_000_000, 10, 8);
    assert_eq!(worm.to_points_vec(), vec![(7, 40_000, 'a'), (7, 39_999, 'b')]);
    let worm = RainDrop::from_values(1, vec![], RainDropStyle::Fading, 7, 5_000, 10, 8);
    assert!(worm.to_points_vec().is_empty());
}

#[test]
fn rain_drop_grow() {
    let mut rng = rand::rng();
    let mut new_worm = RainDrop::from_values(1, vec!['a'], RainDropStyle::Front, 10, 10_800, 20, 10);
    new_worm.grow(10, &mut rng);
    assert_eq!(new_worm.body.len(), 2);
    assert_eq!(new_worm.body.get(1), Some(&'a'));

    let mut new_worm = RainDrop::from_values(1, vec!['b'], RainDropStyle::Middle, 10, 10_800, 20, 4);
    new_worm.grow(12, &mut rng);
    assert_eq!(new_worm.body.len(), 2);
    assert_eq!(new_worm.body.get(1), Some(&'b'));
    new_worm.grow(11, &mut rng);
    assert_eq!(new_worm.body.len(), 2);

    let mut new_worm = RainDrop::from_values(1, vec!['c'], RainDropStyle::Back, 10, 10_800, 3, 4);
    new_worm.grow(12, &mut rng);
    new_worm.grow(12, &mut rng);
    new_worm.grow(12, &mut rng);
    new_worm.grow(12, &mut rng);
    assert_eq!(new_worm.body.len(), 3);
}

#[test]
fn rain_drop_update() {
    let mut rng = rand::rng();

    // nothing special worm update
    let mut new_worm = RainDrop::from_values(1, vec!['c'], RainDropStyle::Back, 10, 10_800, 3, 8);
    new_worm.update(&thirty(), 1000, &mut rng);
    assert_eq!(new_worm.to_point().1, 19);
    assert_eq!(new_worm.fy, 18_800);
    assert_eq!(new_worm.body.len(), 2);

    // edge case when body len is 0
    let mut new_worm = RainDrop::from_values(1, vec![], RainDropStyle::Middle, 10, 10_800, 3, 8);
    new_worm.update(&thirty(), 1000, &mut rng);
    assert_eq!(new_worm.body.len(), 1);
    assert_eq!(new_worm.fy, 1000);

    // when tail_y < 0
    let mut new_worm = RainDrop::from_values(1, vec!['a', 'b', 'c', 'd'], RainDropStyle::Fading, 10, 2_000, 5, 2);
    new_worm.update(&thirty(), 1000, &mut rng);
    assert_eq!(new_worm.body.len(), 5);
    assert_eq!(new_worm.fy < 1000 * new_worm.body.len() as u64, true);

    // when head_y > screen height
    let mut new_worm = RainDrop::from_values(1, vec!['a', 'b', 'c', 'd'], RainDropStyle::Fading, 10, 30_800, 5, 2);
    new_worm.update(&thirty(), 1000, &mut rng);
    assert_eq!(new_worm.body.len(), 4);
    assert_eq!(new_worm.fy > 30_000, true);

    // when head_y > screen height and body len is 2
    let mut new_worm = RainDrop::from_values(1, vec!['a', 'b'], RainDropStyle::Fading, 10, 29_000, 5, 2);
    new_worm.update(&thirty(), 1000, &mut rng);
    assert_eq!(new_worm.body.len(), 2);
    assert_eq!(new_worm.fy, 31_000);
    new_worm.update(&thirty(), 1000, &mut rng);
    assert_eq!(new_worm.fy, 1000); // should be reseted there
}

#[test]
fn phases_of_a_drop() {
    assert_eq!(phase(2_000, 4, 30), Phase::Entering);
    assert_eq!(phase(4_000, 4, 30), Phase::Entering);
    assert_eq!(phase(5_000, 4, 30), Phase::Falling);
    assert_eq!(phase(29_000, 4, 30), Phase::Falling);
    assert_eq!(phase(30_000, 4, 30), Phase::Leaving);
    assert_eq!(phase(33_000, 4, 30), Phase::Leaving);
    assert_eq!(phase(34_000, 4, 30), Phase::Gone);
    assert_eq!(phase(39_999_000, 4, 40_000), Phase::Falling);
    assert_eq!(phase(40_000_000, 4, 40_000), Phase::Leaving);
    assert_eq!(phase(40_003_000, 4, 40_000), Phase::Leaving);
    assert_eq!(phase(40_004_000, 4, 40_000), Phase::Gone);
    assert_eq!(phase(u64::MAX, 4, 65_535), Phase::Gone);
    assert_eq!(phase(0, 0, 30), Phase::Entering);
}

#[test]
fn styles_along_a_drop() {
    assert_eq!(pick_style(&RainDropStyle::Front, 9), style::Attribute::Bold);
    assert_eq!(pick_style(&RainDropStyle::Middle, 4), style::Attribute::Bold);
    assert_eq!(pick_style(&RainDropStyle::Middle, 5), style::Attribute::NormalIntensity);
    assert_eq!(pick_style(&RainDropStyle::Back, 0), style::Attribute::Bold);
    assert_eq!(pick_style(&RainDropStyle::Fading, 0), style::Attribute::NormalIntensity);
    assert_eq!(pick_style(&RainDropStyle::Gradient, 0), style::Attribute::NormalIntensity);
}

#[test]
fn colors_along_a_drop() {
    let gradients = vec![vec![], vec![], vec![Color { r: 1, g: 2, b: 3 }, Color { r: 4, g: 5, b: 6 }]];
    assert_eq!(pick_color(&RainDropStyle::Gradient, 0, &gradients), style::Color::White);
    assert_eq!(pick_color(&RainDropStyle::Gradient, 1, &gradients), style::Color::Rgb { r: 0, g: 243, b: 0 });
    assert_eq!(pick_color(&RainDropStyle::Gradient, 21, &gradients), style::Color::Rgb { r: 0, g: 3, b: 0 });
    assert_eq!(pick_color(&RainDropStyle::Gradient, 22, &gradients), style::Color::Rgb { r: 0, g: 255, b: 0 });
    assert_eq!(pick_color(&RainDropStyle::Front, 0, &gradients), style::Color::White);
    assert_eq!(pick_color(&RainDropStyle::Front, 1, &gradients), style::Color::Rgb { r: 0, g: 245, b: 0 });
    assert_eq!(pick_color(&RainDropStyle::Front, 3, &gradients), style::Color::Rgb { r: 0, g: 245, b: 0 });
    assert_eq!(pick_color(&RainDropStyle::Front, 4, &gradients), style::Color::Rgb { r: 0, g: 239, b: 0 });
    assert_eq!(pick_color(&RainDropStyle::Front, 15, &gradients), style::Color::Rgb { r: 0, g: 30, b: 0 });
    assert_eq!(pick_color(&RainDropStyle::Front, 16, &gradients), style::Color::Rgb { r: 0, g: 255, b: 0 });
    assert_eq!(pick_color(&RainDropStyle::Back, 1, &gradients), style::Color::Rgb { r: 4, g: 5, b: 6 });
    assert_eq!(pick_color(&RainDropStyle::Middle, 7, &gradients), style::Color::DarkGrey);
    assert_eq!(pick_color(&RainDropStyle::Fading, 7, &gradients), style::Color::DarkGrey);
}

fn lerp(a: u8, b: u8, t: f32) -> u8 {
    (a as f32 * (1.0 - t) + b as f32 * t).round() as u8
}

#[test]
fn gradient_values() {
    let white = Color { r: 255, g: 255, b: 255 };
    let green = Color { r: 0, g: 255, b: 0 };
    let dark = Color { r: 10, g: 10, b: 10 };
    let gradient = two_step_color_gradient(white, green, dark, 4, 10);
    assert_eq!(gradient.len(), 10);
    assert_eq!(gradient[0], Color { r: 191, g: 255, b: 191 });
    assert_eq!(gradient[1], Color { r: 128, g: 255, b: 128 });
    assert_eq!(gradient[3], green);
    assert_eq!(gradient[4], Color { r: 3, g: 194, b: 3 });
    assert_eq!(gradient[7], dark);
    assert_eq!(gradient[9], Color { r: 15, g: 0, b: 15 });
    assert!(two_step_color_gradient(white, green, dark, 4, 0).is_empty());
    assert_eq!(two_step_color_gradient(white, green, dark, 0, 2), vec![Color { r: 0, g: 0, b: 0 }; 2]);
}

#[test]
fn gradient_matches_blending_in_floating_point() {
    let starts = [Color { r: 255, g: 255, b: 255 }, Color { r: 200, g: 200, b: 200 }];
    let middles = [Color { r: 0, g: 255, b: 0 }, Color { r: 0, g: 250, b: 0 }, Color { r: 0, g: 200, b: 0 }];
    let end = Color { r: 10, g: 10, b: 10 };
    let mut compared = 0;
    let mut apart = 0;
    for height in 1usize..=120 {
        for (start, middle, middle_point) in
            [(starts[0], middles[0], 4), (starts[1], middles[1], 6), (starts[1], middles[2], height / 2)]
        {
            let gradient = two_step_color_gradient(start, middle, end, middle_point, 3 * height / 2);
            for (k, color) in gradient.iter().enumerate() {
                let i = k + 1;
                let (from, to, t) = if i <= middle_point {
                    (start, middle, i as f32 / middle_point as f32)
                } else {
                    (middle, end, (i - middle_point) as f32 / middle_point as f32)
                };
                let expected = Color { r: lerp(from.r, to.r, t), g: lerp(from.g, to.g, t), b: lerp(from.b, to.b, t) };
                compared += 1;
                let off = |a: u8, b: u8| (a as i32 - b as i32).abs();
                assert!(off(color.r, expected.r) <= 1 && off(color.g, expected.g) <= 1 && off(color.b, expected.b) <= 1);
                if *color != expected {
                    apart += 1;
                }
            }
        }
    }
    assert!(compared > 30000);
    assert!(apart * 100 <= compared);
    println!("{} of {} colours are one step apart", apart, compared);
}

#[test]
fn drops_are_sorted_by_speed_and_keep_their_order() {
    let speeds = [7u16, 3, 9, 3, 7, 1, 9, 3];
    let mut drops: Vec<RainDrop> = speeds
        .iter()
        .enumerate()
        .map(|(id, speed)| RainDrop::from_values(id, vec!['a'], RainDropStyle::Back, 0, 0, 1, *speed))
        .collect();
    sort_by_rank(&mut drops);
    let order: Vec<(u16, usize)> = drops.iter().map(|d| (d.speed, d.drop_id)).collect();
    assert_eq!(order, vec![(1, 5), (3, 1), (3, 3), (3, 7), (7, 0), (7, 4), (9, 2), (9, 6)]);
}

#[test]
fn slow_drops_cover_fast_drops() {
    let gradients = vec![vec![], vec![], vec![]];
    let mut buffer = tarts::buffer::Buffer::new(4, 4);
    let mut drops = vec![
        RainDrop::from_values(1, vec!['f', 'g'], RainDropStyle::Fading, 2, 2_000, 5, 9),
        RainDrop::from_values(2, vec!['s'], RainDropStyle::Middle, 2, 1_000, 5, 3),
        RainDrop::from_values(3, vec!['o'], RainDropStyle::Front, 9, 1_000, 5, 1),
    ];
    DigitalRain::fill_buffer(&mut drops, &mut buffer, &gradients);
    assert_eq!(drops[0].drop_id, 3);
    assert_eq!(drops[2].drop_id, 1);
    assert_eq!(buffer.get(2, 2), tarts::buffer::Cell::new('f', style::Color::DarkGrey, style::Attribute::NormalIntensity));
    assert_eq!(buffer.get(2, 1), tarts::buffer::Cell::new('s', style::Color::DarkGrey, style::Attribute::Bold));
    assert_eq!(buffer.get(2, 0), tarts::buffer::Cell::default());
    assert_eq!(tarts::buffer::Buffer::new(4, 4).diff(&buffer).len(), 2);
}

#[test]
fn a_drop_is_added_when_asked_for_and_there_is_room() {
    let options = DigitalRainOptionsBuilder::new((30, 30)).drops_range((2, 4)).speed_range((5, 9)).build();
    let mut rain = DigitalRain::new(options);
    assert_eq!(rain.rain_drops().len(), 2);
    rain.add_one_when(false);
    assert_eq!(rain.rain_drops().len(), 2);
    rain.add_one_when(true);
    assert_eq!(rain.rain_drops().len(), 3);
    assert_eq!(rain.rain_drops()[2].drop_id, 3);
    assert_eq!(rain.rain_drops()[2].body.len(), 1);
    assert!(rain.rain_drops()[2].fx < 30);
    rain.add_one_when(true);
    assert_eq!(rain.rain_drops().len(), 4);
    rain.add_one_when(true);
    assert_eq!(rain.rain_drops().len(), 4);
    for _ in 0..50 {
        rain.add_one();
    }
    assert_eq!(rain.rain_drops().len(), 4);
}

#[test]
fn add_one_adds_a_drop_now_and_then() {
    let options = DigitalRainOptionsBuilder::new((30, 30)).drops_range((0, 500)).speed_range((5, 9)).build();
    let mut rain = DigitalRain::new(options);
    for _ in 0..1000 {
        let before = rain.rain_drops().len();
        rain.add_one();
        let after = rain.rain_drops().len();
        assert!(after == before || after == before + 1);
    }
    let drops = rain.rain_drops().len();
    assert!(150 < drops && drops < 450);
}

#[test]
fn a_drop_starts_anew_below_a_tall_screen() {
    let mut rng = rand::rng();
    let options = DigitalRainOptionsBuilder::new((10, 40_000)).build();
    let mut drop = RainDrop::from_values(1, vec!['a', 'b', 'c'], RainDropStyle::Fading, 3, 39_999_000, 5, 2);
    drop.update(&options, 1000, &mut rng);
    assert_eq!(drop.fy, 40_001_000);
    assert_eq!(drop.body.len(), 3);
    drop.update(&options, 1000, &mut rng);
    assert_eq!(drop.fy, 1000);
    assert_eq!(drop.body.len(), 1);
    assert!(drop.fx < 10);

    let mut slow = RainDrop::from_values(1, vec!['a'], RainDropStyle::Fading, 3, 35_000_000, 5, 2);
    slow.grow(35_001, &mut rng);
    assert_eq!(slow.body.len(), 2);
    slow.grow(35_000, &mut rng);
    assert_eq!(slow.body.len(), 2);
}

#[test]
fn the_frame_of_a_rain_has_the_shape_of_its_screen() {
    let mut rain = DigitalRain::new(get_sane_default_options());
    assert_eq!(rain.get_size(), (100, 100));
    assert_eq!(rain.buffer().get_size(), (100, 100));
    let diff = rain.get_diff();
    assert_eq!(tarts::buffer::Buffer::new(100, 100).diff(rain.buffer()), diff);
    rain.update_size(7, 9);
    assert_eq!(rain.get_size(), (7, 9));
    assert_eq!(rain.buffer().get_size(), (100, 100));
    rain.reset();
    assert_eq!(rain.buffer().get_size(), (7, 9));
}
