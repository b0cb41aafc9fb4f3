//! What a digital rain is built from.

use vstd::prelude::*;

verus! {

/// Screen size, number of drops and speed of the drops, each range given by
/// its least and its greatest value.
#[derive(Debug, Clone, Copy, PartialEq, Eq)]
pub struct DigitalRainOptions {
    pub size: (u16, u16),
    pub drops_range: (u16, u16),
    pub speed_range: (u16, u16),
}

#[derive(Debug, Clone, Copy, Default)]
pub struct DigitalRainOptionsBuilder {
    size: (u16, u16),
    drops_range: (u16, u16),
    speed_range: (u16, u16),
}

impl DigitalRainOptions {
    #[inline]
    pub fn get_width(&self) -> (width: u16)
        ensures
            width == self.size.0,
    {
        self.size.0
    }

    #[inline]
    pub fn get_height(&self) -> (height: u16)
        ensures
            height == self.size.1,
    {
        self.size.1
    }

    #[inline]
    pub fn get_min_drops_number(&self) -> (number: u16)
        ensures
            number == self.drops_range.0,
    {
        self.drops_range.0
    }

    #[inline]
    pub fn get_max_drops_number(&self) -> (number: u16)
        ensures
            number == self.drops_range.1,
    {
        self.drops_range.1
    }

    #[inline]
    pub fn get_min_speed(&self) -> (speed: u16)
        ensures
            speed == self.speed_range.0,
    {
        self.speed_range.0
    }

    #[inline]
    pub fn get_max_speed(&self) -> (speed: u16)
        ensures
            speed == self.speed_range.1,
    {
        self.speed_range.1
    }
}

impl DigitalRainOptionsBuilder {
    /// The options that `build` will make.
    pub closed spec fn options(self) -> DigitalRainOptions {
        DigitalRainOptions { size: self.size, drops_range: self.drops_range, speed_range: self.speed_range }
    }

    /// A builder for a screen of the given size, with 10 to 100 drops at
    /// speeds from 4 to 16.
    pub fn new(size: (u16, u16)) -> (builder: DigitalRainOptionsBuilder)
        ensures
            builder.options() == (DigitalRainOptions { size, drops_range: (10, 100), speed_range: (4, 16) }),
    {
        DigitalRainOptionsBuilder { size, drops_range: (10, 100), speed_range: (4, 16) }
    }

    pub fn drops_range(self, range: (u16, u16)) -> (builder: DigitalRainOptionsBuilder)
        ensures
            builder.options() == (DigitalRainOptions { drops_range: range, ..self.options() }),
    {
        let mut builder = self;
        builder.drops_range = range;
        builder
    }

    pub fn speed_range(self, range: (u16, u16)) -> (builder: DigitalRainOptionsBuilder)
        ensures
            builder.options() == (DigitalRainOptions { speed_range: range, ..self.options() }),
    {
        let mut builder = self;
        builder.speed_range = range;
        builder
    }

    pub fn build(self) -> (options: DigitalRainOptions)
        ensures
            options == self.options(),
    {
        DigitalRainOptions { size: self.size, drops_range: self.drops_range, speed_range: self.speed_range }
    }
}

} // verus!
