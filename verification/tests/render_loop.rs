use tarts::blank::{Blank, BlankOptions};
use tarts::buffer::Cell;
use tarts::effect::TerminalEffect;
use tarts::render_loop::{frame, frame_rest, is_quit, resize, Event, Key, RenderLoop};
use tarts::style::{Attribute, Color};

fn frames_run(budget: Option<usize>, quit_at: Option<usize>) -> usize {
    let mut state = RenderLoop::new(budget);
    let mut frames = 0;
    while state.is_running() && frames < 1000 {
        let event = if Some(frames) == quit_at {
            Some(Event::Key { key: Key::Char('q'), plain: true })
        } else {
            None
        };
        state.process_input(event);
        frames += 1;
        state.end_frame();
    }
    frames
}

#[test]
fn budget_of_n_runs_n_plus_one_frames() {
    assert_eq!(frames_run(Some(0), None), 1);
    assert_eq!(frames_run(Some(3), None), 4);
    assert_eq!(frames_run(Some(10), None), 11);
}

#[test]
fn no_budget_runs_until_quit() {
    assert_eq!(frames_run(None, None), 1000);
    assert_eq!(frames_run(None, Some(4)), 5);
    assert_eq!(frames_run(Some(10), Some(2)), 3);
}

#[test]
fn quit_keys() {
    assert!(is_quit(Event::Key { key: Key::Char('q'), plain: true }));
    assert!(is_quit(Event::Key { key: Key::Esc, plain: true }));
    assert!(!is_quit(Event::Key { key: Key::Char('q'), plain: false }));
    assert!(!is_quit(Event::Key { key: Key::Esc, plain: false }));
    assert!(!is_quit(Event::Key { key: Key::Char('Q'), plain: true }));
    assert!(!is_quit(Event::Key { key: Key::Other, plain: true }));
    assert!(!is_quit(Event::Resize(80, 24)));
    assert!(!is_quit(Event::Other));
}

#[test]
fn blank_test() {}

#[test]
fn blank_paints_the_whole_screen_once() {
    let mut blank = Blank::new(BlankOptions {}, (4, 3));
    let first = blank.get_diff();
    assert_eq!(first.len(), 12);
    assert_eq!(first[5], (1, 1, Cell::new('#', Color::Green, Attribute::Reset)));
    blank.update();
    assert!(blank.get_diff().is_empty());
}

#[test]
fn resize_rebuilds_the_effect() {
    let mut blank = Blank::new(BlankOptions {}, (4, 3));
    let _ = blank.get_diff();
    resize(&mut blank, 2, 2);
    let draws = frame(&mut blank);
    assert_eq!(draws.len(), 4);
    assert_eq!(draws[3], (1u16, 1u16, Cell::new('#', Color::Green, Attribute::Reset)));
    resize(&mut blank, 0, 7);
    assert!(frame(&mut blank).is_empty());
}

#[test]
fn one_by_one_effect() {
    let mut blank = Blank::new(BlankOptions {}, (1, 1));
    assert_eq!(blank.get_diff().len(), 1);
    blank.update();
    blank.reset();
    assert_eq!(blank.get_diff().len(), 1);
}

#[test]
fn rest_of_a_frame() {
    assert_eq!(frame_rest(4_000_000, 16_666_666), 12_666_666);
    assert_eq!(frame_rest(16_666_666, 16_666_666), 0);
    assert_eq!(frame_rest(20_000_000, 16_666_666), 0);
    assert_eq!(frame_rest(0, 0), 0);
}
