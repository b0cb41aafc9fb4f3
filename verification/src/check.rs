//! A screen of hash signs, used to see whether drawing works at all.

use vstd::prelude::*;
use crate::buffer::{uniform, Buffer, Cell, Change};
use crate::effect::{area, TerminalEffect};
use crate::style::{Attribute, Color};

verus! {

/// The size of the screen, in columns and rows.
#[derive(Clone, Copy, Debug, Default)]
pub struct CheckOptions {
    pub screen_size: (usize, usize),
}

pub struct Check {
    options: CheckOptions,
    buffer: Buffer,
}

/// The cell that fills the screen.
pub open spec fn check_cell() -> Cell {
    Cell { symbol: '#', color: Color::Green, attr: Attribute::Reset }
}

/// The size lies between one cell and the greatest size of a terminal.
pub open spec fn screen_sized(size: (usize, usize)) -> bool {
    1 <= size.0 <= 0xffff && 1 <= size.1 <= 0xffff
}

impl Check {
    pub closed spec fn built_from(&self) -> CheckOptions {
        self.options
    }

    pub closed spec fn frame(&self) -> Buffer {
        self.buffer
    }

    /// A check screen of the size in `options`, with nothing handed out
    /// yet.
    pub fn new(options: CheckOptions) -> (effect: Check)
        requires
            screen_sized(options.screen_size),
        ensures
            effect.wf(),
            effect.fits(),
            effect.scene().len() == area(effect.size()),
            effect.built_from() == options,
            effect.shown() == uniform((options.screen_size.0 * options.screen_size.1) as nat, Cell::blank()),
    {
        assert(options.screen_size.0 * options.screen_size.1 <= usize::MAX) by (nonlinear_arith)
            requires
                options.screen_size.0 <= 0xffff,
                options.screen_size.1 <= 0xffff,
                usize::MAX >= 0xffff_ffff,
        ;
        let buffer = Buffer::new(options.screen_size.0, options.screen_size.1);
        Check { options, buffer }
    }
}

impl TerminalEffect for Check {
    open spec fn wf(&self) -> bool {
        self.frame().wf() && self.built_from().screen_size.0 <= 0xffff && self.built_from().screen_size.1 <= 0xffff
    }

    open spec fn fits(&self) -> bool {
        self.frame().width == self.built_from().screen_size.0 && self.frame().height
            == self.built_from().screen_size.1
    }

    open spec fn size(&self) -> (u16, u16) {
        (self.built_from().screen_size.0 as u16, self.built_from().screen_size.1 as u16)
    }

    open spec fn shown(&self) -> Seq<Cell> {
        self.frame()@
    }

    open spec fn scene(&self) -> Seq<Cell> {
        uniform(area(self.size()), check_cell())
    }

    open spec fn finished(&self) -> bool {
        false
    }



    fn get_diff(&mut self) -> (diff: Vec<Change>) {
        assert(self.options.screen_size.0 * self.options.screen_size.1 <= usize::MAX) by (nonlinear_arith)
            requires
                self.options.screen_size.0 <= 0xffff,
                self.options.screen_size.1 <= 0xffff,
                usize::MAX >= 0xffff_ffff,
        ;
        let mut curr_buffer = Buffer::new(self.options.screen_size.0, self.options.screen_size.1);
        curr_buffer.fill_with(&Cell { symbol: '#', color: Color::Green, attr: Attribute::Reset });
        let diff = self.buffer.diff(&curr_buffer);
        self.buffer = curr_buffer;
        diff
    }

    /// A screen of hash signs has nothing to move.
    fn update(&mut self)
        ensures
            *final(self) == *old(self),
    {
    }

    fn update_size(&mut self, width: u16, height: u16)
        ensures
            final(self).frame() == old(self).frame(),
            final(self).built_from().screen_size == (width as usize, height as usize),
    {
        self.options.screen_size = (width as usize, height as usize);
    }

    fn reset(&mut self) {
        *self = Check::new(self.options);
    }
}

} // verus!
