//! One falling column of glyphs.
//!
//! A drop keeps the height of its head in thousandths of a row, so that it
//! can fall by less than a row in one tick. Its body holds the glyphs from
//! the head upwards.

use vstd::prelude::*;
use rand::rngs::ThreadRng;
use crate::order::Ranked;
use crate::glyphs::{lemma_rain_glyphs, rain_glyphs, random_rain_glyph};
use crate::rain::rain_options::DigitalRainOptions;
use crate::random::draw;

verus! {

/// How a drop is coloured and lit.
#[derive(Debug, Clone, Copy, PartialEq, Eq, Structural)]
pub enum RainDropStyle {
    Front,
    Middle,
    Back,
    Fading,
    Gradient,
}

pub struct RainDrop {
    pub drop_id: usize,
    pub body: Vec<char>,
    pub style: RainDropStyle,
    pub fx: u16,
    /// Height of the head, in thousandths of a row.
    pub fy: u64,
    pub max_length: usize,
    pub speed: u16,
}

/// A drop as a plain value.
pub struct DropView {
    pub drop_id: usize,
    pub body: Seq<char>,
    pub style: RainDropStyle,
    pub fx: u16,
    pub fy: u64,
    pub max_length: usize,
    pub speed: u16,
}

impl View for RainDrop {
    type V = DropView;

    open spec fn view(&self) -> DropView {
        DropView {
            drop_id: self.drop_id,
            body: self.body@,
            style: self.style,
            fx: self.fx,
            fy: self.fy,
            max_length: self.max_length,
            speed: self.speed,
        }
    }
}

/// Where a moving drop is, seen from a screen of some height.
#[derive(Debug, Clone, Copy, PartialEq, Eq, Structural)]
pub enum Phase {
    /// The tail has not come down from the top edge yet.
    Entering,
    /// The whole drop is on the screen.
    Falling,
    /// The head is below the bottom edge, the tail still above it.
    Leaving,
    /// The whole drop is below the bottom edge.
    Gone,
}

/// The style that a roll of 1 to 100 stands for: one roll in ten gives a
/// drop in the front, one in ten a drop in the middle, two in ten a drop in
/// the back, one in ten a fading drop, and the rest a gradient.
pub open spec fn style_of_roll(roll: int) -> RainDropStyle {
    if 1 <= roll <= 10 {
        RainDropStyle::Front
    } else if 11 <= roll <= 20 {
        RainDropStyle::Middle
    } else if 21 <= roll <= 40 {
        RainDropStyle::Back
    } else if 41 <= roll <= 50 {
        RainDropStyle::Fading
    } else {
        RainDropStyle::Gradient
    }
}

/// The row nearest to a height given in thousandths; a half rounds down the
/// screen.
pub open spec fn nearest_row(fy: int) -> int {
    (fy + 500) / 1000
}

/// The row of the head, which counts no further than row 65535.
pub open spec fn head_row(fy: int) -> int {
    if nearest_row(fy) > 0xffff {
        0xffff
    } else {
        nearest_row(fy)
    }
}

/// The height of a head that fell from `fy` at `speed` rows a second for
/// `dt` milliseconds.
pub open spec fn fallen(fy: int, speed: int, dt: int) -> int {
    if fy + speed * dt > u64::MAX {
        u64::MAX as int
    } else {
        fy + speed * dt
    }
}

/// The phase of a drop of `len` glyphs with its head in row `row`, on a
/// screen of `height` rows. The tail of the drop ends above row `row - len`.
pub open spec fn phase_of(row: int, len: int, height: int) -> Phase {
    if row - len <= 0 {
        Phase::Entering
    } else if row < height {
        Phase::Falling
    } else if row - len < height {
        Phase::Leaving
    } else {
        Phase::Gone
    }
}

/// A body after growing: with `glyph` as its new head where it `grows`, and
/// cut at the tail to `max_length` glyphs.
pub open spec fn grown(body: Seq<char>, glyph: char, grows: bool, max_length: int) -> Seq<char> {
    let longer = if grows {
        seq![glyph] + body
    } else {
        body
    };
    if longer.len() > max_length {
        longer.subrange(0, max_length)
    } else {
        longer
    }
}

/// A number that `draw` may hand out for `low..high`.
pub open spec fn drawn(n: int, low: int, high: int) -> bool {
    if low < high {
        low <= n < high
    } else {
        n == low
    }
}

impl DropView {
    /// The drop grows when its head comes to the row `head_y`: a fast drop
    /// always, a slow one where that row lies below its head.
    pub open spec fn grows(self, head_y: int) -> bool {
        self.speed > 8 || head_y > nearest_row(self.fy as int)
    }

    /// The glyphs of the drop that lie at or below the top edge, from the
    /// head upwards, each with its column and row.
    pub open spec fn points(self) -> Seq<(u16, u16, char)> {
        let head = head_row(self.fy as int);
        Seq::new(
            if self.body.len() <= head {
                self.body.len()
            } else {
                (head + 1) as nat
            },
            |i: int| (self.fx, (head - i) as u16, self.body[i]),
        )
    }

    /// The drop was just put at the top of a screen: one glyph long, its
    /// head in row 1, with a column, a speed and a greatest length inside
    /// what `options` allow.
    pub open spec fn at_top(self, options: DigitalRainOptions) -> bool {
        &&& self.body.len() == 1
        &&& rain_glyphs().contains(self.body[0])
        &&& self.fy == 1000
        &&& drawn(self.fx as int, 0, options.size.0 as int)
        &&& drawn(self.speed as int, options.speed_range.0 as int, options.speed_range.1 + 1)
        &&& drawn(self.max_length as int, options.size.1 / 4 + 1, options.size.1 / 2 + 1)
    }

    /// The drop was just made for a screen: one glyph long, its head on a
    /// whole row in the upper half, with a column, a speed and a greatest
    /// length inside what `options` allow.
    pub open spec fn newly_made(self, options: DigitalRainOptions) -> bool {
        &&& self.body.len() == 1
        &&& rain_glyphs().contains(self.body[0])
        &&& self.fy % 1000 == 0
        &&& drawn((self.fy / 1000) as int, 0, (options.size.1 / 2) as int)
        &&& drawn(self.fx as int, 0, options.size.0 as int)
        &&& drawn(self.speed as int, options.speed_range.0 as int, options.speed_range.1 + 1)
        &&& drawn(self.max_length as int, 0, 2 * options.size.1 / 3 + 1)
    }

    /// What one tick of `dt` milliseconds may lead to from this drop.
    pub open spec fn ticks_to(self, next: DropView, options: DigitalRainOptions, dt: int) -> bool {
        let fy = fallen(self.fy as int, self.speed as int, dt);
        let head = head_row(fy);
        if self.body.len() == 0 {
            next.at_top(options) && next.drop_id == self.drop_id
        } else {
            match phase_of(nearest_row(fy), self.body.len() as int, options.size.1 as int) {
                Phase::Entering | Phase::Falling => exists|glyph: char|
                    rain_glyphs().contains(glyph) && next == (DropView {
                        fy: fy as u64,
                        body: #[trigger] grown(self.body, glyph, self.grows(head), self.max_length as int),
                        ..self
                    }),
                Phase::Leaving => next == (DropView { fy: fy as u64, ..self }),
                Phase::Gone => next.at_top(options) && next.drop_id == self.drop_id,
            }
        }
    }
}

fn style_for(roll: usize) -> (style: RainDropStyle)
    ensures
        style == style_of_roll(roll as int),
{
    if 1 <= roll && roll <= 10 {
        RainDropStyle::Front
    } else if 11 <= roll && roll <= 20 {
        RainDropStyle::Middle
    } else if 21 <= roll && roll <= 40 {
        RainDropStyle::Back
    } else if 41 <= roll && roll <= 50 {
        RainDropStyle::Fading
    } else {
        RainDropStyle::Gradient
    }
}

/// A style picked at random.
pub fn random_style(rng: &mut ThreadRng) -> (style: RainDropStyle)
    ensures
        exists|roll: int| 1 <= roll <= 100 && style == #[trigger] style_of_roll(roll),
{
    let roll = draw(rng, 1, 101);
    style_for(roll)
}

fn nearest(fy: u64) -> (row: u64)
    ensures
        row == nearest_row(fy as int),
{
    if fy % 1000 >= 500 {
        fy / 1000 + 1
    } else {
        fy / 1000
    }
}

/// The phase of a drop of `len` glyphs whose head is `fy` thousandths of a
/// row down a screen of `height` rows.
pub fn phase(fy: u64, len: usize, height: u16) -> (phase: Phase)
    ensures
        phase == phase_of(nearest_row(fy as int), len as int, height as int),
{
    let row: i128 = nearest(fy) as i128;
    let tail: i128 = row - len as i128;
    if tail <= 0 {
        Phase::Entering
    } else if row < height as i128 {
        Phase::Falling
    } else if tail < height as i128 {
        Phase::Leaving
    } else {
        Phase::Gone
    }
}

impl Ranked for RainDrop {
    /// Drops are ranked by their speed.
    open spec fn rank(&self) -> int {
        self.speed as int
    }

    fn rank_of(&self) -> (rank: u64) {
        self.speed as u64
    }
}

impl RainDrop {
    /// A drop for a screen of the size in `options`, put at random into its
    /// upper half.
    pub fn new(options: &DigitalRainOptions, drop_id: usize, rng: &mut ThreadRng) -> (drop: RainDrop)
        ensures
            drop@.newly_made(*options),
            drop.drop_id == drop_id,
    {
        let glyph = random_rain_glyph(rng);
        let mut body: Vec<char> = Vec::new();
        body.push(glyph);
        let style = random_style(rng);
        let fx = draw(rng, 0, options.get_width() as usize) as u16;
        let row = draw(rng, 0, (options.get_height() / 2) as usize) as u64;
        let max_length = draw(rng, 0, (2 * (options.get_height() as usize) / 3) + 1);
        let speed = draw(rng, options.get_min_speed() as usize, options.get_max_speed() as usize + 1) as u16;
        RainDrop::from_values(drop_id, body, style, fx, row * 1000, max_length, speed)
    }

    /// A drop from its values; `fy` is the height of the head in thousandths
    /// of a row.
    #[inline(always)]
    pub fn from_values(
        drop_id: usize,
        body: Vec<char>,
        style: RainDropStyle,
        fx: u16,
        fy: u64,
        max_length: usize,
        speed: u16,
    ) -> (drop: RainDrop)
        ensures
            drop@ == (DropView { drop_id, body: body@, style, fx, fy, max_length, speed }),
    {
        RainDrop { drop_id, body, style, fx, fy, max_length, speed }
    }

    /// Column and row of the head.
    #[inline]
    pub fn to_point(&self) -> (point: (u16, u16))
        ensures
            point.0 == self.fx,
            point.1 == head_row(self.fy as int),
    {
        let row = nearest(self.fy);
        let y: u16 = if row > 0xffff {
            0xffff
        } else {
            row as u16
        };
        (self.fx, y)
    }

    /// Column, row and glyph of each part of the body that lies at or below
    /// the top edge, from the head upwards.
    pub fn to_points_vec(&self) -> (points: Vec<(u16, u16, char)>)
        ensures
            points@ == self@.points(),
    {
        let mut points: Vec<(u16, u16, char)> = Vec::new();
        let (head_x, head_y) = self.to_point();
        let mut index: usize = 0;
        while index < self.body.len() && index <= head_y as usize
            invariant
                index <= self.body.len(),
                index <= head_y + 1,
                head_x == self.fx,
                head_y == head_row(self.fy as int),
                points@ == Seq::new(index as nat, |i: int| (self.fx, (head_y - i) as u16, self.body@[i])),
            decreases self.body.len() - index,
        {
            points.push((head_x, head_y - index as u16, self.body[index]));
            index += 1;
            assert(points@ =~= Seq::new(
                index as nat,
                |i: int| (self.fx, (head_y - i) as u16, self.body@[i]),
            ));
        }
        assert(points@ =~= self@.points());
        points
    }

    /// Puts the drop back to the top of the screen, one glyph long, with a
    /// new column, style, speed and greatest length.
    pub fn reset(&mut self, options: &DigitalRainOptions, rng: &mut ThreadRng)
        ensures
            final(self)@.at_top(*options),
            final(self).drop_id == old(self).drop_id,
    {
        self.body.clear();
        let glyph = random_rain_glyph(rng);
        self.body.insert(0, glyph);
        self.style = random_style(rng);
        self.fy = 1000;
        self.fx = draw(rng, 0, options.get_width() as usize) as u16;
        self.speed = draw(rng, options.get_min_speed() as usize, options.get_max_speed() as usize + 1) as u16;
        self.max_length = draw(
            rng,
            (options.get_height() / 4) as usize + 1,
            (options.get_height() / 2) as usize + 1,
        );
    }

    /// A fast drop grows with every tick.
    pub fn grow_condition(&self) -> (fast: bool)
        ensures
            fast == (self.speed > 8),
    {
        self.speed > 8
    }

    fn grows_at(&self, head_y: u16) -> (grows: bool)
        ensures
            grows == self@.grows(head_y as int),
    {
        self.grow_condition() || head_y as u64 > nearest(self.fy)
    }

    /// Lets the drop grow by one glyph at the head where it grows at all,
    /// and cuts its tail to the greatest length.
    pub fn grow(&mut self, head_y: u16, rng: &mut ThreadRng)
        ensures
            exists|glyph: char|
                rain_glyphs().contains(glyph) && final(self)@ == (DropView {
                    body: #[trigger] grown(
                        old(self)@.body,
                        glyph,
                        old(self)@.grows(head_y as int),
                        old(self).max_length as int,
                    ),
                    ..old(self)@
                }),
    {
        let ghost mut glyph = rain_glyphs()[0];
        proof {
            lemma_rain_glyphs();
        }
        if self.grows_at(head_y) {
            let head = random_rain_glyph(rng);
            self.body.insert(0, head);
            proof {
                glyph = head;
            }
            assert(self.body@ =~= seq![glyph] + old(self).body@);
        }
        if self.body.len() > self.max_length {
            self.body.truncate(self.max_length);
        }
        assert(self@.body == grown(
            old(self)@.body,
            glyph,
            old(self)@.grows(head_y as int),
            old(self).max_length as int,
        ));
    }

    /// Moves the drop on by `dt_millis` milliseconds: it falls, grows while
    /// its head is on the screen, and starts anew at the top once its tail
    /// has left the screen. A drop without a body starts anew at once.
    pub fn update(&mut self, options: &DigitalRainOptions, dt_millis: u64, rng: &mut ThreadRng)
        ensures
            old(self)@.ticks_to(final(self)@, *options, dt_millis as int),
    {
        if self.body.len() == 0 {
            self.reset(options, rng);
            return;
        }
        assert(0 <= self.speed * dt_millis <= 0xffff * 0xffff_ffff_ffff_ffff) by (nonlinear_arith)
            requires 0 <= self.speed <= 0xffff, 0 <= dt_millis <= 0xffff_ffff_ffff_ffff;
        let wide: u128 = self.fy as u128 + self.speed as u128 * dt_millis as u128;
        let fy: u64 = if wide > u64::MAX as u128 {
            u64::MAX
        } else {
            wide as u64
        };
        assert(fy == fallen(self.fy as int, self.speed as int, dt_millis as int));
        let row = nearest(fy);
        let head_y: u16 = if row > 0xffff {
            0xffff
        } else {
            row as u16
        };
        match phase(fy, self.body.len(), options.get_height()) {
            Phase::Entering | Phase::Falling => {
                self.grow(head_y, rng);
                self.fy = fy;
            },
            Phase::Leaving => {
                self.fy = fy;
            },
            Phase::Gone => {
                self.reset(options, rng);
            },
        }
    }
}

} // verus!
