//! A canvas for effects that are worked out elsewhere: it keeps the frame
//! that was handed out last and the scene that was painted since, and hands
//! out what changed between them.

use vstd::prelude::*;
use crate::buffer::{uniform, Buffer, Cell, Change};
use crate::effect::{area, TerminalEffect};

verus! {

pub struct Canvas {
    screen_size: (u16, u16),
    shown: Buffer,
    scene: Buffer,
}

impl Canvas {
    /// The frame that was handed out last.
    pub closed spec fn frame(&self) -> Buffer {
        self.shown
    }

    /// The scene that was painted last.
    pub closed spec fn painting(&self) -> Buffer {
        self.scene
    }

    pub closed spec fn screen(&self) -> (u16, u16) {
        self.screen_size
    }

    /// A canvas for a screen of the given size, with nothing painted and
    /// nothing handed out yet.
    pub fn new(screen_size: (u16, u16)) -> (canvas: Canvas)
        requires
            screen_size.0 >= 1,
            screen_size.1 >= 1,
        ensures
            canvas.wf(),
            canvas.fits(),
            canvas.size() == screen_size,
            canvas.shown() == uniform(area(screen_size), Cell::blank()),
            canvas.scene() == uniform(area(screen_size), Cell::blank()),
    {
        assert(screen_size.0 * screen_size.1 <= usize::MAX) by (nonlinear_arith)
            requires screen_size.0 <= 0xffff, screen_size.1 <= 0xffff, usize::MAX >= 0xffff_ffff;
        let shown = Buffer::new(screen_size.0 as usize, screen_size.1 as usize);
        let scene = Buffer::new(screen_size.0 as usize, screen_size.1 as usize);
        Canvas { screen_size, shown, scene }
    }

    /// A blank frame of the shape that the canvas was built for, to paint
    /// the next scene on.
    pub fn blank(&self) -> (buffer: Buffer)
        requires
            self.wf(),
        ensures
            buffer.wf(),
            buffer.same_shape(&self.frame()),
            buffer@ == uniform(self.frame()@.len(), Cell::blank()),
    {
        assert(self.shown.buffer.len() == self.shown.width * self.shown.height);
        Buffer::new(self.shown.width, self.shown.height)
    }

    /// Takes `scene` for the scene to hand out next. It must have the shape
    /// that the canvas was built for.
    pub fn paint(&mut self, scene: Buffer)
        requires
            old(self).wf(),
            scene.wf(),
            scene.same_shape(&old(self).frame()),
        ensures
            final(self).wf(),
            final(self).fits() == old(self).fits(),
            final(self).size() == old(self).size(),
            final(self).frame() == old(self).frame(),
            final(self).painting() == scene,
    {
        self.scene = scene;
    }

    /// The frame that was handed out last. On a canvas that was built for
    /// its screen it has the shape of that screen.
    pub fn buffer(&self) -> (buffer: &Buffer)
        ensures
            *buffer == self.frame(),
            self.wf() && self.fits() ==> buffer.wf() && buffer.width == self.size().0 && buffer.height
                == self.size().1,
    {
        &self.shown
    }

    /// The screen size that the next `reset` builds the canvas for.
    pub fn get_size(&self) -> (size: (u16, u16))
        ensures
            size == self.size(),
    {
        self.screen_size
    }
}

impl TerminalEffect for Canvas {
    /// Both frames have one shape, which a terminal can have.
    open spec fn wf(&self) -> bool {
        &&& self.frame().wf()
        &&& self.painting().wf()
        &&& self.frame().same_shape(&self.painting())
        &&& self.frame().width <= 0xffff
        &&& self.frame().height <= 0xffff
    }

    open spec fn fits(&self) -> bool {
        self.frame().width == self.screen().0 && self.frame().height == self.screen().1
    }

    open spec fn size(&self) -> (u16, u16) {
        self.screen()
    }

    open spec fn shown(&self) -> Seq<Cell> {
        self.frame()@
    }

    open spec fn scene(&self) -> Seq<Cell> {
        self.painting()@
    }

    open spec fn finished(&self) -> bool {
        false
    }

    /// The difference between the frame handed out last and the scene
    /// painted last.
    fn get_diff(&mut self) -> (diff: Vec<Change>)
        ensures
            final(self).painting() == old(self).painting(),
    {
        let diff = self.shown.diff(&self.scene);
        self.shown = self.scene.clone();
        diff
    }

    /// A canvas has nothing to move: what is painted on it is moved
    /// elsewhere.
    fn update(&mut self)
        ensures
            *final(self) == *old(self),
    {
    }

    fn update_size(&mut self, width: u16, height: u16)
        ensures
            final(self).frame() == old(self).frame(),
            final(self).painting() == old(self).painting(),
    {
        self.screen_size = (width, height);
    }

    /// Builds the canvas anew for the stored screen size, with nothing
    /// painted.
    fn reset(&mut self)
        ensures
            final(self).scene() == uniform(area(old(self).size()), Cell::blank()),
    {
        *self = Canvas::new(self.screen_size);
    }
}

} // verus!
