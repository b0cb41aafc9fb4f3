//! One worm: a column of glyphs that crawls down the screen.
//!
//! A worm keeps its column and the height of its head in thousandths of a
//! cell. Its body holds the glyphs from the head upwards.

use vstd::prelude::*;
use rand::rngs::ThreadRng;
use crate::glyphs::{lemma_rain_glyphs, rain_glyphs, random_rain_glyph};
use crate::order::Ranked;
use crate::rain::rain_drop::{drawn, fallen, grown, head_row, nearest_row};
use crate::random::draw;

verus! {

/// How a worm is coloured.
#[derive(Debug, Clone, Copy, PartialEq, Eq, Structural)]
pub enum VerticalWormStyle {
    Front,
    Middle,
    Back,
    Fading,
    Gradient,
}

pub struct VerticalWorm {
    pub worm_id: usize,
    pub body: Vec<char>,
    pub vw_style: VerticalWormStyle,
    /// The column, in thousandths of a cell.
    pub fx: u64,
    /// Height of the head, in thousandths of a row.
    pub fy: u64,
    pub max_length: u16,
    pub finish: bool,
    pub speed: u16,
}

/// A worm as a plain value.
pub struct WormView {
    pub worm_id: usize,
    pub body: Seq<char>,
    pub vw_style: VerticalWormStyle,
    pub fx: u64,
    pub fy: u64,
    pub max_length: u16,
    pub finish: bool,
    pub speed: u16,
}

impl View for VerticalWorm {
    type V = WormView;

    open spec fn view(&self) -> WormView {
        WormView {
            worm_id: self.worm_id,
            body: self.body@,
            vw_style: self.vw_style,
            fx: self.fx,
            fy: self.fy,
            max_length: self.max_length,
            finish: self.finish,
            speed: self.speed,
        }
    }
}

/// The style that a roll of 0 to 6 stands for.
pub open spec fn worm_style_of_roll(roll: int) -> VerticalWormStyle {
    if roll == 0 {
        VerticalWormStyle::Front
    } else if roll == 1 {
        VerticalWormStyle::Middle
    } else if roll == 2 {
        VerticalWormStyle::Back
    } else if roll == 3 {
        VerticalWormStyle::Fading
    } else {
        VerticalWormStyle::Gradient
    }
}

impl WormView {
    /// The worm grows when its head comes to the row `head`: a fast worm
    /// always, a slow one where that row lies below its head.
    pub open spec fn grows(self, head: int) -> bool {
        self.speed > 8 || head > nearest_row(self.fy as int)
    }

    /// The worm was just put onto a screen of `w` by `h` cells: one glyph
    /// long, on a whole column, at a speed from 2 to 20, and at most half
    /// the screen long, but not shorter than 10.
    pub open spec fn placed(self, w: int, h: int) -> bool {
        &&& self.body.len() == 1
        &&& rain_glyphs().contains(self.body[0])
        &&& self.fx % 1000 == 0
        &&& drawn((self.fx / 1000) as int, 0, w)
        &&& drawn(self.speed as int, 2, 21)
        &&& drawn(self.max_length as int, 10, h / 2 + 1)
        &&& !self.finish
    }

    /// The worm was just put to the top of the screen.
    pub open spec fn at_top(self, w: int, h: int) -> bool {
        self.placed(w, h) && self.fy == 0
    }

    /// The worm was just made: put onto a whole row in the upper half of the
    /// screen.
    pub open spec fn newly_made(self, w: int, h: int) -> bool {
        self.placed(w, h) && self.fy % 1000 == 0 && drawn((self.fy / 1000) as int, 0, h / 2)
    }

    /// What one tick of `dt` milliseconds may lead to, on a screen of `w`
    /// by `h` cells: a worm without a body starts anew at the top; a worm
    /// whose head is on the screen, or whose tail has not come down from
    /// the top edge yet, falls and grows; a worm whose head has left the
    /// screen is held at the bottom row and loses a glyph at its tail, and
    /// starts anew at the top once it has lost them all.
    pub open spec fn ticks_to(self, next: WormView, w: int, h: int, dt: int) -> bool {
        let fy = fallen(self.fy as int, self.speed as int, dt);
        let head = head_row(fy);
        let tail = nearest_row(fy) - self.body.len();
        if self.body.len() == 0 {
            next.at_top(w, h) && next.worm_id == self.worm_id && next.vw_style == self.vw_style
        } else if tail <= 0 || head < h {
            exists|glyph: char|
                rain_glyphs().contains(glyph) && next == (WormView {
                    fy: fy as u64,
                    body: #[trigger] grown(self.body, glyph, self.grows(head), self.max_length as int),
                    ..self
                })
        } else if self.body.len() >= 2 {
            next == (WormView {
                finish: true,
                vw_style: VerticalWormStyle::Back,
                max_length: if self.max_length > 0 {
                    (self.max_length - 1) as u16
                } else {
                    0
                },
                body: self.body.subrange(0, self.body.len() - 1),
                fy: if h > 0 {
                    ((h - 1) * 1000) as u64
                } else {
                    0
                },
                ..self
            })
        } else {
            next.at_top(w, h) && next.worm_id == self.worm_id && next.vw_style == VerticalWormStyle::Back
        }
    }
}

fn nearest(f: u64) -> (row: u64)
    ensures
        row == nearest_row(f as int),
{
    if f % 1000 >= 500 {
        f / 1000 + 1
    } else {
        f / 1000
    }
}

fn saturated(row: u64) -> (s: u16)
    ensures
        s == if row > 0xffff {
            0xffff
        } else {
            row as int
        },
{
    if row > 0xffff {
        0xffff
    } else {
        row as u16
    }
}

/// A style picked at random.
pub fn random_worm_style(rng: &mut ThreadRng) -> (style: VerticalWormStyle)
    ensures
        exists|roll: int| 0 <= roll <= 6 && style == #[trigger] worm_style_of_roll(roll),
{
    let roll = draw(rng, 0, 7);
    let style = if roll == 0 {
        VerticalWormStyle::Front
    } else if roll == 1 {
        VerticalWormStyle::Middle
    } else if roll == 2 {
        VerticalWormStyle::Back
    } else if roll == 3 {
        VerticalWormStyle::Fading
    } else {
        VerticalWormStyle::Gradient
    };
    assert(style == worm_style_of_roll(roll as int));
    style
}

impl Ranked for VerticalWorm {
    /// Worms are ranked by the height of their head: the highest first.
    open spec fn rank(&self) -> int {
        self.fy as int
    }

    fn rank_of(&self) -> (rank: u64) {
        self.fy
    }
}

impl VerticalWorm {
    /// A worm for a screen of `w` by `h` cells, put at random into its upper
    /// half.
    pub fn new(w: u16, h: u16, worm_id: usize, rng: &mut ThreadRng) -> (worm: VerticalWorm)
        ensures
            worm@.newly_made(w as int, h as int),
            worm.worm_id == worm_id,
    {
        let glyph = random_rain_glyph(rng);
        let mut body: Vec<char> = Vec::new();
        body.push(glyph);
        let vw_style = random_worm_style(rng);
        let fx = draw(rng, 0, w as usize) as u64 * 1000;
        let fy = draw(rng, 0, (h / 2) as usize) as u64 * 1000;
        let max_length = draw(rng, 10, (h / 2) as usize + 1) as u16;
        let speed = draw(rng, 2, 21) as u16;
        let finish = false;
        VerticalWorm::from_values(worm_id, body, vw_style, fx, fy, max_length, speed, finish)
    }

    /// A worm from its values; `fx` and `fy` are the column and the height
    /// of the head in thousandths of a cell.
    pub fn from_values(
        worm_id: usize,
        body: Vec<char>,
        vw_style: VerticalWormStyle,
        fx: u64,
        fy: u64,
        max_length: u16,
        speed: u16,
        finish: bool,
    ) -> (worm: VerticalWorm)
        ensures
            worm@ == (WormView { worm_id, body: body@, vw_style, fx, fy, max_length, finish, speed }),
    {
        VerticalWorm { worm_id, body, vw_style, fx, fy, max_length, speed, finish }
    }

    /// Column and row of the head.
    pub fn to_points(&self) -> (point: (u16, u16))
        ensures
            point.0 == head_row(self.fx as int),
            point.1 == head_row(self.fy as int),
    {
        (saturated(nearest(self.fx)), saturated(nearest(self.fy)))
    }

    /// Puts the worm back to the top of the screen, one glyph long, with a
    /// new column, speed and greatest length.
    pub fn reset(&mut self, w: u16, h: u16, rng: &mut ThreadRng)
        ensures
            final(self)@.at_top(w as int, h as int),
            final(self).worm_id == old(self).worm_id,
            final(self).vw_style == old(self).vw_style,
    {
        self.body.clear();
        let glyph = random_rain_glyph(rng);
        self.body.insert(0, glyph);
        self.fy = 0;
        self.fx = draw(rng, 0, w as usize) as u64 * 1000;
        self.speed = draw(rng, 2, 21) as u16;
        self.finish = false;
        self.max_length = draw(rng, 10, (h / 2) as usize + 1) as u16;
    }

    /// A fast worm grows with every tick.
    pub fn grow_condition(&self) -> (fast: bool)
        ensures
            fast == (self.speed > 8),
    {
        self.speed > 8
    }

    fn grows_at(&self, head: u16) -> (grows: bool)
        ensures
            grows == self@.grows(head as int),
    {
        self.grow_condition() || head as u64 > nearest(self.fy)
    }

    /// Lets the worm grow by one glyph at the head where it grows at all,
    /// and cuts its tail to the greatest length.
    pub fn grow(&mut self, head: u16, rng: &mut ThreadRng)
        ensures
            exists|glyph: char|
                rain_glyphs().contains(glyph) && final(self)@ == (WormView {
                    body: #[trigger] grown(
                        old(self)@.body,
                        glyph,
                        old(self)@.grows(head as int),
                        old(self).max_length as int,
                    ),
                    ..old(self)@
                }),
    {
        let ghost mut glyph = rain_glyphs()[0];
        proof {
            lemma_rain_glyphs();
        }
        if self.grows_at(head) {
            let first = random_rain_glyph(rng);
            self.body.insert(0, first);
            proof {
                glyph = first;
            }
            assert(self.body@ =~= seq![glyph] + old(self).body@);
        }
        if self.body.len() > self.max_length as usize {
            self.body.truncate(self.max_length as usize);
        }
        assert(self@.body == grown(
            old(self)@.body,
            glyph,
            old(self)@.grows(head as int),
            old(self).max_length as int,
        ));
    }

    /// Moves the worm on by `dt_millis` milliseconds, on a screen of `w` by
    /// `h` cells.
    pub fn update(&mut self, w: u16, h: u16, dt_millis: u64, rng: &mut ThreadRng)
        ensures
            old(self)@.ticks_to(final(self)@, w as int, h as int, dt_millis as int),
    {
        if self.body.len() == 0 {
            self.reset(w, h, rng);
            return;
        }
        assert(0 <= self.speed * dt_millis <= 0xffff * 0xffff_ffff_ffff_ffff) by (nonlinear_arith)
            requires 0 <= self.speed <= 0xffff, 0 <= dt_millis <= 0xffff_ffff_ffff_ffff;
        let wide: u128 = self.fy as u128 + self.speed as u128 * dt_millis as u128;
        let fy: u64 = if wide > u64::MAX as u128 {
            u64::MAX
        } else {
            wide as u64
        };
        let row = nearest(fy);
        let head = saturated(row);
        let tail: i128 = row as i128 - self.body.len() as i128;
        if tail <= 0 || head < h {
            self.grow(head, rng);
            self.fy = fy;
            return;
        }
        self.finish = true;
        self.vw_style = VerticalWormStyle::Back;
        if self.body.len() >= 2 {
            if self.max_length > 0 {
                self.max_length -= 1;
            }
            let new_body_len = self.body.len() - 1;
            self.body.truncate(new_body_len);
            self.fy = if h > 0 {
                (h - 1) as u64 * 1000
            } else {
                0
            };
        } else {
            self.reset(w, h, rng);
        }
    }
}

} // verus!
