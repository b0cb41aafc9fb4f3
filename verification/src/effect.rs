//! What every screen saver offers, and what follows from it for any of them.

use vstd::prelude::*;
use crate::buffer::{changes, lemma_no_changes, lemma_repaint_length, marked, uniform, Cell, Change};

verus! {

/// Number of cells of a screen of the given size.
pub open spec fn area(size: (u16, u16)) -> nat {
    (size.0 * size.1) as nat
}

/// A screen saver: a simulation that paints one frame after another and
/// hands out, for each frame, only the cells that changed.
///
/// Beside its four operations an effect says what state it is in: which
/// frame it handed out last, which frame it wants on the screen, and for
/// which screen it was built.
pub trait TerminalEffect {
    /// The effect's own data is consistent.
    spec fn wf(&self) -> bool;

    /// The effect was built for the screen size that it stores.
    spec fn fits(&self) -> bool;

    /// The screen size that the next `reset` builds the effect for.
    spec fn size(&self) -> (u16, u16);

    /// The frame that was handed out last.
    spec fn shown(&self) -> Seq<Cell>;

    /// The frame that the simulation wants on the screen now.
    spec fn scene(&self) -> Seq<Cell>;

    /// The simulation has run to its end; the next `get_diff` starts it anew
    /// instead of drawing.
    spec fn finished(&self) -> bool;

    /// The cells of the scene that differ from the frame handed out last;
    /// the scene then counts as handed out and stays as it is. A finished
    /// effect starts anew on a blank screen and hands out nothing.
    fn get_diff(&mut self) -> (diff: Vec<Change>)
        requires
            old(self).wf(),
            old(self).fits(),
            old(self).size().0 >= 1,
            old(self).size().1 >= 1,
            old(self).shown().len() == area(old(self).size()),
            old(self).scene().len() == area(old(self).size()),
        ensures
            final(self).wf(),
            final(self).fits(),
            final(self).shown().len() == area(final(self).size()),
            final(self).scene().len() == area(final(self).size()),
            final(self).size() == old(self).size(),
            old(self).finished() ==> {
                &&& diff@ == Seq::<Change>::empty()
                &&& final(self).shown() == uniform(area(old(self).size()), Cell::blank())
                &&& !final(self).finished()
            },
            !old(self).finished() ==> {
                &&& diff@ == changes(old(self).shown(), old(self).scene(), old(self).size().0 as int)
                &&& final(self).shown() == old(self).scene()
                &&& final(self).scene() == old(self).scene()
                &&& !final(self).finished()
            },
    ;

    /// Advances the simulation by one tick. The frame handed out last stays.
    fn update(&mut self)
        requires
            old(self).wf(),
            old(self).fits(),
            old(self).size().0 >= 1,
            old(self).size().1 >= 1,
            old(self).shown().len() == area(old(self).size()),
            old(self).scene().len() == area(old(self).size()),
        ensures
            final(self).wf(),
            final(self).fits(),
            final(self).shown().len() == area(final(self).size()),
            final(self).scene().len() == area(final(self).size()),
            final(self).size() == old(self).size(),
            final(self).shown() == old(self).shown(),
    ;

    /// Stores a new screen size for the next `reset`.
    fn update_size(&mut self, width: u16, height: u16)
        requires
            old(self).wf(),
        ensures
            final(self).wf(),
            final(self).size() == (width, height),
            final(self).shown() == old(self).shown(),
    ;

    /// Builds the effect anew for the stored screen size, on a blank screen.
    fn reset(&mut self)
        requires
            old(self).wf(),
            old(self).size().0 >= 1,
            old(self).size().1 >= 1,
        ensures
            final(self).wf(),
            final(self).fits(),
            final(self).shown().len() == area(final(self).size()),
            final(self).scene().len() == area(final(self).size()),
            final(self).size() == old(self).size(),
            final(self).shown() == uniform(area(old(self).size()), Cell::blank()),
            !final(self).finished(),
    ;
}

/// The effect is consistent and was built for its screen, which has at
/// least one cell; its frames have the shape of that screen.
pub open spec fn ready<E: TerminalEffect>(effect: &E) -> bool {
    &&& effect.wf()
    &&& effect.fits()
    &&& effect.size().0 >= 1
    &&& effect.size().1 >= 1
    &&& effect.shown().len() == area(effect.size())
    &&& effect.scene().len() == area(effect.size())
}

/// What one call of `get_diff` does: it leads from the state `pre` to the
/// state `post` and hands out `diff`.
pub open spec fn diff_post<E: TerminalEffect>(pre: &E, post: &E, diff: Seq<Change>) -> bool {
    &&& ready(post)
    &&& post.size() == pre.size()
    &&& pre.finished() ==> {
        &&& diff == Seq::<Change>::empty()
        &&& post.shown() == uniform(area(pre.size()), Cell::blank())
        &&& !post.finished()
    }
    &&& !pre.finished() ==> {
        &&& diff == changes(pre.shown(), pre.scene(), pre.size().0 as int)
        &&& post.shown() == pre.scene()
        &&& post.scene() == pre.scene()
        &&& !post.finished()
    }
}

/// Asking an effect for its changes twice in a row, with no tick in
/// between, hands out nothing the second time: `first` and `second` are
/// what the two calls hand out, on the way from `start` over `middle` to
/// `end`. This holds of an effect that has not run to its end: one that has
/// starts anew at the first call.
pub proof fn lemma_second_diff_empty<E: TerminalEffect>(
    start: &E,
    middle: &E,
    end: &E,
    first: Seq<Change>,
    second: Seq<Change>,
)
    requires
        !start.finished(),
        diff_post(start, middle, first),
        diff_post(middle, end, second),
    ensures
        second == Seq::<Change>::empty(),
{
    lemma_no_changes(middle.scene(), middle.size().0 as int, middle.scene().len() as int);
}

/// The first changes that an effect hands out on a blank screen, as after
/// `reset`, paint its whole scene: there is one change for each cell of the
/// scene that is not blank.
pub proof fn lemma_first_diff_repaints<E: TerminalEffect>(start: &E, end: &E, diff: Seq<Change>)
    requires
        !start.finished(),
        start.shown() == uniform(start.scene().len(), Cell::blank()),
        diff_post(start, end, diff),
    ensures
        diff.len() == marked(start.scene()),
{
    lemma_repaint_length(start.scene(), start.size().0 as int);
}

} // verus!
