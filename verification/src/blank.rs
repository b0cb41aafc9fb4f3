//! The simplest screen saver: a screen full of green hash signs.

use vstd::prelude::*;
use crate::buffer::{uniform, Buffer, Cell, Change};
use crate::effect::{area, TerminalEffect};
use crate::style::{Attribute, Color};

verus! {

/// `Blank` takes no options.
#[derive(Clone, Copy, Debug, Default)]
pub struct BlankOptions {}

pub struct Blank {
    screen_size: (u16, u16),
    options: BlankOptions,
    buffer: Buffer,
}

/// The cell that fills the screen.
pub open spec fn hash_cell() -> Cell {
    Cell { symbol: '#', color: Color::Green, attr: Attribute::Reset }
}

impl Blank {
    pub closed spec fn frame(&self) -> Buffer {
        self.buffer
    }

    pub closed spec fn screen(&self) -> (u16, u16) {
        self.screen_size
    }

    /// A blank-screen effect for a screen of the given size, with nothing
    /// handed out yet.
    pub fn new(options: BlankOptions, screen_size: (u16, u16)) -> (effect: Blank)
        requires
            screen_size.0 >= 1,
            screen_size.1 >= 1,
        ensures
            effect.wf(),
            effect.fits(),
            effect.scene().len() == area(effect.size()),
            effect.size() == screen_size,
            effect.shown() == uniform(area(screen_size), Cell::blank()),
    {
        assert(screen_size.0 * screen_size.1 <= usize::MAX) by (nonlinear_arith)
            requires screen_size.0 <= 0xffff, screen_size.1 <= 0xffff, usize::MAX >= 0xffff_ffff;
        let buffer = Buffer::new(screen_size.0 as usize, screen_size.1 as usize);
        Blank { screen_size, options, buffer }
    }
}

impl TerminalEffect for Blank {
    open spec fn wf(&self) -> bool {
        self.frame().wf()
    }

    open spec fn size(&self) -> (u16, u16) {
        self.screen()
    }

    open spec fn fits(&self) -> bool {
        self.frame().width == self.screen().0 && self.frame().height == self.screen().1
    }


    open spec fn shown(&self) -> Seq<Cell> {
        self.frame()@
    }

    open spec fn scene(&self) -> Seq<Cell> {
        uniform(area(self.size()), hash_cell())
    }

    open spec fn finished(&self) -> bool {
        false
    }


    fn get_diff(&mut self) -> (diff: Vec<Change>)
    {
        proof {
            assert(self.screen_size.0 * self.screen_size.1 <= usize::MAX) by (nonlinear_arith)
                requires self.screen_size.0 <= 0xffff, self.screen_size.1 <= 0xffff, usize::MAX >= 0xffff_ffff;
        }
        let mut curr_buffer = Buffer::new(self.screen_size.0 as usize, self.screen_size.1 as usize);
        curr_buffer.fill_with(&Cell { symbol: '#', color: Color::Green, attr: Attribute::Reset });
        let diff = self.buffer.diff(&curr_buffer);
        self.buffer = curr_buffer;
        diff
    }

    /// A screen of hash signs has nothing to move.
    fn update(&mut self)
        ensures
            *final(self) == *old(self),
    {
    }

    fn update_size(&mut self, width: u16, height: u16)
        ensures
            final(self).frame() == old(self).frame(),
    {
        self.screen_size = (width, height);
    }

    fn reset(&mut self) {
        *self = Blank::new(self.options, self.screen_size);
    }
}

} // verus!
