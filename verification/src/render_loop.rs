//! The decisions of the render loop. The loop itself reads the terminal,
//! draws and sleeps outside this library; what it decides on the way is
//! decided here.

use vstd::prelude::*;
use crate::buffer::{lemma_changes_bounds, Cell, Change};
use crate::effect::{diff_post, ready, TerminalEffect};

verus! {

/// A key, as far as the loop tells keys apart.
#[derive(Clone, Copy, Debug, PartialEq, Eq, Structural)]
pub enum Key {
    Char(char),
    Esc,
    Other,
}

/// What the terminal reported.
#[derive(Clone, Copy, Debug, PartialEq, Eq, Structural)]
pub enum Event {
    /// A key; `plain` where it was pressed with no modifier held.
    Key { key: Key, plain: bool },
    /// The terminal now has this many columns and rows.
    Resize(u16, u16),
    Other,
}

/// The event asks to leave: the key `q` or Escape, pressed plainly.
pub open spec fn quits(event: Event) -> bool {
    event matches Event::Key { key, plain } && plain && (key == Key::Char('q') || key == Key::Esc)
}

pub fn is_quit(event: Event) -> (quit: bool)
    ensures
        quit == quits(event),
{
    match event {
        Event::Key { key, plain } => plain && match key {
            Key::Char(c) => c == 'q',
            Key::Esc => true,
            Key::Other => false,
        },
        _ => false,
    }
}

/// One cell to draw, with its column and row as the terminal counts them.
pub type Draw = (u16, u16, Cell);

/// Whether the loop goes on, and how many frames it has counted against its
/// budget.
#[derive(Clone, Copy, Debug)]
pub struct RenderLoop {
    pub running: bool,
    pub iters: usize,
    pub iterations: Option<usize>,
}

impl RenderLoop {
    /// The state before the first frame.
    pub open spec fn start(iterations: Option<usize>) -> RenderLoop {
        RenderLoop { running: true, iters: 0, iterations }
    }

    /// The state after the input of a frame was seen.
    pub open spec fn after_input(self, event: Option<Event>) -> RenderLoop {
        RenderLoop { running: !(event matches Some(e) && quits(e)), ..self }
    }

    /// The state after a frame was drawn: with a budget, the frame is
    /// counted, and the loop stops once the count is above the budget.
    pub open spec fn after_frame(self) -> RenderLoop {
        match self.iterations {
            Some(budget) => {
                let iters = if self.iters < usize::MAX {
                    (self.iters + 1) as usize
                } else {
                    self.iters
                };
                RenderLoop { running: self.running && iters <= budget, iters, ..self }
            },
            None => self,
        }
    }

    /// The state after `frames` whole frames in which nothing was typed.
    pub open spec fn after_quiet_frames(self, frames: nat) -> RenderLoop
        decreases frames,
    {
        if frames == 0 {
            self
        } else {
            self.after_quiet_frames((frames - 1) as nat).after_input(None).after_frame()
        }
    }

    pub fn new(iterations: Option<usize>) -> (state: RenderLoop)
        ensures
            state == RenderLoop::start(iterations),
    {
        RenderLoop { running: true, iters: 0, iterations }
    }

    pub fn is_running(&self) -> (running: bool)
        ensures
            running == self.running,
    {
        self.running
    }

    /// Takes in what the poll at the start of a frame brought. A quit key
    /// lets the frame finish and stops the loop after it.
    pub fn process_input(&mut self, event: Option<Event>)
        ensures
            *final(self) == old(self).after_input(event),
    {
        self.running = match event {
            Some(e) => !is_quit(e),
            None => true,
        };
    }

    /// Counts the frame that was just drawn against the budget.
    pub fn end_frame(&mut self)
        ensures
            *final(self) == old(self).after_frame(),
    {
        if let Some(budget) = self.iterations {
            if self.iters < usize::MAX {
                self.iters = self.iters + 1;
            }
            if self.iters > budget {
                self.running = false;
            }
        }
    }
}

/// With a budget of `budget` frames and nothing typed, the loop runs
/// `budget + 1` frames: it is still running after each of the first
/// `budget` frames and has stopped after the next.
pub proof fn lemma_budget_runs_one_more(budget: usize)
    requires
        budget < usize::MAX,
    ensures
        forall|frames: nat|
            frames <= budget ==> (#[trigger] RenderLoop::start(Some(budget)).after_quiet_frames(frames)).running,
        !RenderLoop::start(Some(budget)).after_quiet_frames((budget + 1) as nat).running,
{
    assert forall|frames: nat| frames <= budget implies (#[trigger] RenderLoop::start(
        Some(budget),
    ).after_quiet_frames(frames)).running by {
        lemma_quiet_frames(budget, frames);
    }
    lemma_quiet_frames(budget, (budget + 1) as nat);
}

proof fn lemma_quiet_frames(budget: usize, frames: nat)
    requires
        frames <= budget + 1,
        budget < usize::MAX,
    ensures
        RenderLoop::start(Some(budget)).after_quiet_frames(frames).iters == frames,
        RenderLoop::start(Some(budget)).after_quiet_frames(frames).iterations == Some(budget),
        RenderLoop::start(Some(budget)).after_quiet_frames(frames).running == (frames <= budget),
    decreases frames,
{
    if frames > 0 {
        lemma_quiet_frames(budget, (frames - 1) as nat);
    }
}

/// Without a budget, and with nothing typed, the loop never stops.
pub proof fn lemma_no_budget_runs_on(frames: nat)
    ensures
        RenderLoop::start(None).after_quiet_frames(frames) == RenderLoop::start(None),
    decreases frames,
{
    if frames > 0 {
        lemma_no_budget_runs_on((frames - 1) as nat);
    }
}

/// The time to sleep at the end of a frame that took `elapsed` of a budget
/// of `target`, both in nanoseconds: what is left of the budget.
pub fn frame_rest(elapsed: u128, target: u128) -> (rest: u128)
    ensures
        rest == if elapsed < target {
            target - elapsed
        } else {
            0
        },
{
    if elapsed < target {
        target - elapsed
    } else {
        0
    }
}

/// Takes in a new terminal size: the effect stores it and is built anew for
/// it. A size without cells is passed over, and the effect stays as it is.
pub fn resize<E: TerminalEffect>(effect: &mut E, width: u16, height: u16)
    requires
        old(effect).wf(),
    ensures
        width >= 1 && height >= 1 ==> {
            &&& ready(final(effect))
            &&& final(effect).size() == (width, height)
            &&& final(effect).shown() == crate::buffer::uniform(
                crate::effect::area((width, height)),
                Cell::blank(),
            )
            &&& !final(effect).finished()
        },
        width == 0 || height == 0 ==> *final(effect) == *old(effect),
{
    if width >= 1 && height >= 1 {
        effect.update_size(width, height);
        effect.reset();
    }
}

/// The cells to draw for the next frame: the changes that the effect hands
/// out, with their positions as the terminal counts them.
pub fn frame<E: TerminalEffect>(effect: &mut E) -> (draws: Vec<Draw>)
    requires
        ready(old(effect)),
    ensures
        exists|diff: Seq<Change>| #[trigger]
            diff_post(old(effect), final(effect), diff) && draws@.len() == diff.len() && forall|k: int|
                0 <= k < diff.len() ==> diff[k] == #[trigger] as_change(draws@[k]),
        forall|k: int|
            0 <= k < draws@.len() ==> (#[trigger] draws@[k]).0 < old(effect).size().0 && draws@[k].1 < old(
                effect,
            ).size().1,
{
    let ghost size = effect.size();
    let ghost shown = effect.shown();
    let ghost scene = effect.scene();
    let ghost done = effect.finished();
    let diff = effect.get_diff();
    proof {
        assert(diff_post(old(effect), effect, diff@));
        if !done {
            lemma_changes_bounds(shown, scene, size.0 as int, size.1 as int);
        }
    }
    let mut draws: Vec<Draw> = Vec::new();
    let mut k: usize = 0;
    while k < diff.len()
        invariant
            k <= diff.len(),
            draws@.len() == k,
            forall|j: int| 0 <= j < diff@.len() ==> (#[trigger] diff@[j]).0 < size.0 && diff@[j].1 < size.1,
            forall|j: int| 0 <= j < k ==> diff@[j] == #[trigger] as_change(draws@[j]),
            forall|j: int| 0 <= j < k ==> (#[trigger] draws@[j]).0 < size.0 && draws@[j].1 < size.1,
        decreases diff.len() - k,
    {
        let (x, y, cell) = diff[k];
        draws.push((x as u16, y as u16, cell));
        k += 1;
    }
    draws
}

/// The change that a drawing instruction stands for.
pub open spec fn as_change(draw: Draw) -> Change {
    (draw.0 as usize, draw.1 as usize, draw.2)
}

} // verus!
