//! The digital rain as a screen saver.

use vstd::prelude::*;
use rand::rngs::ThreadRng;
use crate::buffer::{
    flat_index, lemma_flat_index_in_range, lemma_position_in_range, uniform, Buffer, Cell, Change,
};
use crate::effect::{area, TerminalEffect};
use crate::rain::draw::{color_at, has_back_color, pick_color, pick_style, style_at};
use crate::rain::gradient;
use crate::rain::gradient::two_step_color_gradient;
use crate::order::{lemma_sorted_members, lemma_sorted_twice, sort_by_rank, sorted_by_rank};
use crate::rain::rain_drop::{head_row, DropView, RainDrop, RainDropStyle};
use crate::rain::rain_options::{DigitalRainOptions, DigitalRainOptionsBuilder};
use crate::random::chance;

verus! {

/// The cell that shows the glyph at position `index` of a drop's body.
pub open spec fn rain_cell(drop: RainDrop, index: int, gradients: Seq<Vec<gradient::Color>>) -> Cell {
    Cell {
        symbol: drop@.points()[index].2,
        color: color_at(drop.style, index, gradients),
        attr: style_at(drop.style, index),
    }
}

/// The frame after the first `n` glyphs of a drop were painted onto it,
/// from the head upwards. Glyphs outside the grid are left out.
pub open spec fn paint_points(
    frame: Seq<Cell>,
    width: int,
    height: int,
    drop: RainDrop,
    gradients: Seq<Vec<gradient::Color>>,
    n: int,
) -> Seq<Cell>
    decreases n,
{
    if n <= 0 {
        frame
    } else {
        let before = paint_points(frame, width, height, drop, gradients, n - 1);
        let point = drop@.points()[n - 1];
        if point.0 < width && point.1 < height {
            before.update(flat_index(width, point.0 as int, point.1 as int), rain_cell(drop, n - 1, gradients))
        } else {
            before
        }
    }
}

/// The frame after the drops from `from` on were painted onto it, the last
/// drop first, so that a drop covers those that stand behind it.
pub open spec fn paint_drops(
    frame: Seq<Cell>,
    width: int,
    height: int,
    drops: Seq<RainDrop>,
    gradients: Seq<Vec<gradient::Color>>,
    from: int,
) -> Seq<Cell>
    decreases drops.len() - from,
{
    if from >= drops.len() {
        frame
    } else {
        let behind = paint_drops(frame, width, height, drops, gradients, from + 1);
        paint_points(behind, width, height, drops[from], gradients, drops[from]@.points().len() as int)
    }
}

/// Each glyph of a drop in the back that lies inside the grid has its colour
/// in the gradients.
pub open spec fn back_colors_cover(
    drop: RainDrop,
    width: int,
    height: int,
    gradients: Seq<Vec<gradient::Color>>,
) -> bool {
    drop.style == RainDropStyle::Back ==> forall|index: int|
        0 <= index < drop@.points().len() && (#[trigger] drop@.points()[index]).0 < width
            && drop@.points()[index].1 < height ==> has_back_color(gradients, index)
}

/// The length that a body is cut to.
pub open spec fn cut(max_length: int) -> int {
    if max_length < 1 {
        1
    } else {
        max_length
    }
}

/// Number of colours in a gradient for a screen of `height` rows.
pub open spec fn gradient_length(height: int) -> int {
    3 * height / 2
}

/// The body of the drop is no longer than it is cut to, and that is no
/// longer than a gradient for a screen of `height` rows.
pub open spec fn short_enough(drop: DropView, height: int) -> bool {
    drop.body.len() <= cut(drop.max_length as int) <= gradient_length(height)
}

/// A tick keeps a drop short enough for the gradients.
pub proof fn lemma_tick_keeps_short(prev: DropView, next: DropView, options: DigitalRainOptions, dt: int)
    requires
        options.size.1 >= 1,
        short_enough(prev, options.size.1 as int),
        prev.ticks_to(next, options, dt),
    ensures
        short_enough(next, options.size.1 as int),
{
}

/// A drop that was just made is short enough for the gradients.
pub proof fn lemma_new_is_short(drop: DropView, options: DigitalRainOptions)
    requires
        options.size.1 >= 1,
        drop.newly_made(options),
    ensures
        short_enough(drop, options.size.1 as int),
{
}

/// The number of drops for a screen of `cells` cells: one for each `per`
/// cells, but no fewer than `least` and no more than 65535.
pub open spec fn drops_for(cells: int, per: int, least: int) -> int {
    if cells / per < least {
        least
    } else if cells / per > 0xffff {
        0xffff
    } else {
        cells / per
    }
}

fn drops(cells: u32, per: u32, least: u16) -> (number: u16)
    requires
        per > 0,
    ensures
        number == drops_for(cells as int, per as int, least as int),
{
    let n = cells / per;
    if n < least as u32 {
        least
    } else if n > 0xffff {
        0xffff
    } else {
        n as u16
    }
}

/// `after` holds the drops of `before` and behind them one drop that was
/// just made, with the next number.
pub open spec fn one_more(before: Seq<RainDrop>, after: Seq<RainDrop>, options: DigitalRainOptions) -> bool {
    &&& after.len() == before.len() + 1
    &&& after.drop_last() == before
    &&& after.last()@.newly_made(options)
    &&& after.last().drop_id == before.len() + 1
}

pub struct DigitalRain {
    pub screen_size: (u16, u16),
    options: DigitalRainOptions,
    gradients: Vec<Vec<gradient::Color>>,
    rain_drops: Vec<RainDrop>,
    buffer: Buffer,
    rng: ThreadRng,
}

impl DigitalRain {
    /// The options that the rain was built from; their size is the size of
    /// the screen that it was built for.
    pub closed spec fn built_from(&self) -> DigitalRainOptions {
        self.options
    }

    pub closed spec fn drops(&self) -> Seq<RainDrop> {
        self.rain_drops@
    }

    pub closed spec fn colors(&self) -> Seq<Vec<gradient::Color>> {
        self.gradients@
    }

    pub closed spec fn frame(&self) -> Buffer {
        self.buffer
    }

    /// The frame that shows the given drops on a blank screen of the given
    /// size.
    pub open spec fn scene_of(size: (u16, u16), drops: Seq<RainDrop>, colors: Seq<Vec<gradient::Color>>) -> Seq<
        Cell,
    > {
        paint_drops(
            uniform(area(size), Cell::blank()),
            size.0 as int,
            size.1 as int,
            sorted_by_rank(drops),
            colors,
            0,
        )
    }

    /// A rain for the screen size in `options`, with as many drops as the
    /// options ask for at least, and with nothing handed out yet.
    pub fn new(options: DigitalRainOptions) -> (rain: DigitalRain)
        requires
            options.size.0 >= 1,
            options.size.1 >= 1,
        ensures
            rain.wf(),
            rain.fits(),
            rain.scene().len() == area(rain.size()),
            rain.size() == options.size,
            rain.built_from() == options,
            rain.shown() == uniform(area(options.size), Cell::blank()),
            rain.drops().len() == options.drops_range.0,
            forall|k: int|
                0 <= k < rain.drops().len() ==> (#[trigger] rain.drops()[k])@.newly_made(options)
                    && rain.drops()[k].drop_id == k + 1,
    {
        let screen_size = options.size;
        let mut rng = rand::rng();
        let mut rain_drops: Vec<RainDrop> = Vec::new();
        assert(screen_size.0 * screen_size.1 <= usize::MAX) by (nonlinear_arith)
            requires screen_size.0 <= 0xffff, screen_size.1 <= 0xffff, usize::MAX >= 0xffff_ffff;
        let buffer: Buffer = Buffer::new(screen_size.0 as usize, screen_size.1 as usize);
        let mut rain_drop_id: u16 = 0;
        while rain_drop_id < options.get_min_drops_number()
            invariant
                rain_drop_id <= options.drops_range.0,
                rain_drops@.len() == rain_drop_id,
                options.size.1 >= 1,
                forall|k: int|
                    0 <= k < rain_drops@.len() ==> (#[trigger] rain_drops@[k])@.newly_made(options)
                        && rain_drops@[k].drop_id == k + 1,
                forall|k: int| 0 <= k < rain_drops@.len() ==> short_enough(
                    (#[trigger] rain_drops@[k])@,
                    options.size.1 as int,
                ),
            decreases options.drops_range.0 - rain_drop_id,
        {
            rain_drop_id += 1;
            let drop = RainDrop::new(&options, rain_drop_id as usize, &mut rng);
            proof {
                lemma_new_is_short(drop@, options);
            }
            rain_drops.push(drop);
        }
        let length = 3 * screen_size.1 as usize / 2;
        let mut gradients: Vec<Vec<gradient::Color>> = Vec::new();
        gradients.push(
            two_step_color_gradient(
                gradient::Color { r: 255, g: 255, b: 255 },
                gradient::Color { r: 0, g: 255, b: 0 },
                gradient::Color { r: 10, g: 10, b: 10 },
                4,
                length,
            ),
        );
        gradients.push(
            two_step_color_gradient(
                gradient::Color { r: 200, g: 200, b: 200 },
                gradient::Color { r: 0, g: 250, b: 0 },
                gradient::Color { r: 10, g: 10, b: 10 },
                6,
                length,
            ),
        );
        gradients.push(
            two_step_color_gradient(
                gradient::Color { r: 200, g: 200, b: 200 },
                gradient::Color { r: 0, g: 200, b: 0 },
                gradient::Color { r: 10, g: 10, b: 10 },
                screen_size.1 as usize / 2,
                length,
            ),
        );
        let rain = DigitalRain { screen_size, options, gradients, rain_drops, buffer, rng };
        proof {
            rain.lemma_scene_length();
        }
        rain
    }

    /// Paints the drops onto the buffer, the fastest first, so that a slow
    /// drop covers a fast one where they meet. The drops are left in the
    /// order of their speed.
    pub fn fill_buffer(rain_drops: &mut Vec<RainDrop>, buffer: &mut Buffer, gradients: &Vec<Vec<gradient::Color>>)
        requires
            old(buffer).wf(),
            forall|k: int|
                0 <= k < old(rain_drops)@.len() ==> back_colors_cover(
                    #[trigger] old(rain_drops)@[k],
                    old(buffer).width as int,
                    old(buffer).height as int,
                    gradients@,
                ),
        ensures
            final(rain_drops)@ == sorted_by_rank(old(rain_drops)@),
            final(buffer).wf(),
            final(buffer).width == old(buffer).width,
            final(buffer).height == old(buffer).height,
            final(buffer)@ == paint_drops(
                old(buffer)@,
                old(buffer).width as int,
                old(buffer).height as int,
                final(rain_drops)@,
                gradients@,
                0,
            ),
    {
        sort_by_rank(rain_drops);
        proof {
            lemma_sorted_members(old(rain_drops)@);
        }
        let ghost width = buffer.width as int;
        let ghost height = buffer.height as int;
        let mut from: usize = rain_drops.len();
        while from > 0
            invariant
                from <= rain_drops@.len(),
                buffer.wf(),
                buffer.width == width,
                buffer.height == height,
                forall|k: int|
                    0 <= k < rain_drops@.len() ==> back_colors_cover(
                        #[trigger] rain_drops@[k],
                        width,
                        height,
                        gradients@,
                    ),
                buffer@ == paint_drops(old(buffer)@, width, height, rain_drops@, gradients@, from as int),
            decreases from,
        {
            from -= 1;
            let rain_drop = &rain_drops[from];
            let points = rain_drop.to_points_vec();
            let ghost behind = buffer@;
            let mut index: usize = 0;
            while index < points.len()
                invariant
                    index <= points@.len(),
                    points@ == rain_drop@.points(),
                    buffer.wf(),
                    buffer.width == width,
                    buffer.height == height,
                    back_colors_cover(*rain_drop, width, height, gradients@),
                    buffer@ == paint_points(behind, width, height, *rain_drop, gradients@, index as int),
                decreases points@.len() - index,
            {
                let (x, y, character) = points[index];
                let (width, height) = buffer.get_size();
                if (x as usize) < width && (y as usize) < height {
                    buffer.set(
                        x as usize,
                        y as usize,
                        Cell::new(
                            character,
                            pick_color(&rain_drop.style, index, gradients.as_slice()),
                            pick_style(&rain_drop.style, index),
                        ),
                    );
                }
                index += 1;
            }
        }
    }

    /// Adds one more drop, three times out of ten, unless the rain holds as
    /// many drops as the options allow.
    pub fn add_one(&mut self)
        requires
            old(self).wf(),
        ensures
            final(self).wf(),
            final(self).fits() == old(self).fits(),
            final(self).size() == old(self).size(),
            final(self).built_from() == old(self).built_from(),
            final(self).shown() == old(self).shown(),
            final(self).colors() == old(self).colors(),
            final(self).drops() == old(self).drops() || one_more(
                old(self).drops(),
                final(self).drops(),
                old(self).built_from(),
            ),
            old(self).drops().len() >= old(self).built_from().drops_range.1 ==> final(self).drops()
                == old(self).drops(),
    {
        if self.rain_drops.len() >= self.options.get_max_drops_number() as usize {
            return;
        }
        let spawn = chance(&mut self.rng, 3, 10);
        self.add_one_when(spawn);
    }

    /// Adds one more drop, made for the screen of the rain and numbered
    /// after the drops that are there, where `spawn` says so and the rain
    /// holds fewer drops than the options allow. Else the rain stays as it
    /// is.
    pub fn add_one_when(&mut self, spawn: bool)
        requires
            old(self).wf(),
        ensures
            final(self).wf(),
            final(self).fits() == old(self).fits(),
            final(self).size() == old(self).size(),
            final(self).built_from() == old(self).built_from(),
            final(self).shown() == old(self).shown(),
            final(self).colors() == old(self).colors(),
            spawn && old(self).drops().len() < old(self).built_from().drops_range.1 ==> one_more(
                old(self).drops(),
                final(self).drops(),
                old(self).built_from(),
            ),
            !spawn || old(self).drops().len() >= old(self).built_from().drops_range.1 ==> final(self).drops()
                == old(self).drops(),
    {
        if !spawn || self.rain_drops.len() >= self.options.get_max_drops_number() as usize {
            return;
        }
        let drop = RainDrop::new(&self.options, self.rain_drops.len() + 1, &mut self.rng);
        proof {
            lemma_new_is_short(drop@, self.options);
        }
        self.rain_drops.push(drop);
        assert(self.rain_drops@.drop_last() =~= old(self).rain_drops@);
        proof {
            self.lemma_scene_length();
        }
    }

    /// The drops of the rain, in the order in which they were painted last.
    pub fn rain_drops(&self) -> (drops: &Vec<RainDrop>)
        ensures
            drops@ == self.drops(),
    {
        &self.rain_drops
    }

    /// Options for a screen of the given size: a drop for each 160 cells at
    /// least, but no fewer than 10, and for each 80 cells at most, but no
    /// fewer than 20; speeds from a twentieth of the height, but no less
    /// than 2, to a tenth of the height, but no less than 16.
    pub fn default_options(width: u16, height: u16) -> (options: DigitalRainOptions)
        ensures
            options.size == (width, height),
            options.drops_range.0 == drops_for(width * height, 160, 10),
            options.drops_range.1 == drops_for(width * height, 80, 20),
            options.speed_range.0 == vstd::math::max(height as int / 20, 2),
            options.speed_range.1 == vstd::math::max(height as int / 10, 16),
    {
        assert(width * height <= 0xffff_ffff) by (nonlinear_arith)
            requires width <= 0xffff, height <= 0xffff;
        let cells: u32 = width as u32 * height as u32;
        let drops_range = (drops(cells, 160, 10), drops(cells, 80, 20));
        let min_speed = height / 20;
        let max_speed = height / 10;
        let speed_range = (
            if min_speed < 2 {
                2
            } else {
                min_speed
            },
            if max_speed < 16 {
                16
            } else {
                max_speed
            },
        );
        DigitalRainOptionsBuilder::new((width, height)).drops_range(drops_range).speed_range(speed_range).build()
    }

    /// The frame that was handed out last. In a rain that was built for its
    /// screen it has the shape of that screen.
    pub fn buffer(&self) -> (buffer: &Buffer)
        ensures
            *buffer == self.frame(),
            self.wf() ==> buffer.wf() && buffer.width == self.built_from().size.0 && buffer.height
                == self.built_from().size.1,
    {
        &self.buffer
    }

    /// The screen size that the next `reset` builds the rain for.
    pub fn get_size(&self) -> (size: (u16, u16))
        ensures
            size == self.size(),
    {
        self.screen_size
    }

    /// The scene is a frame of the screen's shape.
    proof fn lemma_scene_length(&self)
        ensures
            self.scene().len() == area(self.size()),
    {
        let drops = sorted_by_rank(self.rain_drops@);
        lemma_paint_drops_length(
            uniform(area(self.screen_size), Cell::blank()),
            self.screen_size.0 as int,
            self.screen_size.1 as int,
            drops,
            self.gradients@,
            0,
        );
    }
}

/// The place in the body of a drop of the glyph that lies on the cell with
/// the flat index `i`, if one of the first `n` glyphs does.
pub open spec fn glyph_on(drop: RainDrop, width: int, height: int, i: int, n: int) -> Option<int> {
    let points = drop@.points();
    let index = head_row(drop.fy as int) - i / width;
    if 0 <= index < n && index < points.len() && points[index].0 == i % width && points[index].0 < width
        && points[index].1 < height {
        Some(index)
    } else {
        None
    }
}

/// The first drop from `from` on that has a glyph on the cell with the flat
/// index `i`, and the place of that glyph in its body.
pub open spec fn drop_on(drops: Seq<RainDrop>, width: int, height: int, i: int, from: int) -> Option<(int, int)>
    decreases drops.len() - from,
{
    if from >= drops.len() {
        None
    } else {
        match glyph_on(drops[from], width, height, i, drops[from]@.points().len() as int) {
            Some(index) => Some((from, index)),
            None => drop_on(drops, width, height, i, from + 1),
        }
    }
}

/// After the first `n` glyphs of a drop were painted, a cell shows the glyph
/// of the drop that lies on it, and is as it was where none does.
pub proof fn lemma_paint_points_at(
    frame: Seq<Cell>,
    width: int,
    height: int,
    drop: RainDrop,
    gradients: Seq<Vec<gradient::Color>>,
    n: int,
    i: int,
)
    requires
        0 < width,
        0 < height,
        frame.len() == width * height,
        0 <= i < frame.len(),
        n <= drop@.points().len(),
    ensures
        paint_points(frame, width, height, drop, gradients, n)[i] == match glyph_on(drop, width, height, i, n) {
            Some(index) => rain_cell(drop, index, gradients),
            None => frame[i],
        },
    decreases n,
{
    lemma_position_in_range(width, height, i);
    if n > 0 {
        lemma_paint_points_at(frame, width, height, drop, gradients, n - 1, i);
        lemma_paint_points_length(frame, width, height, drop, gradients, n - 1);
        let point = drop@.points()[n - 1];
        if point.0 < width && point.1 < height {
            lemma_flat_index_in_range(width, height, point.0 as int, point.1 as int);
        }
    }
}

/// Where drops meet, the first of them shows: after the drops from `from`
/// on were painted, a cell shows the glyph of the first of them that has
/// one on it, and is as it was where none has. The drops are painted by
/// rising speed, so the slowest drop on a cell is the one that shows.
pub proof fn lemma_first_drop_shows(
    frame: Seq<Cell>,
    width: int,
    height: int,
    drops: Seq<RainDrop>,
    gradients: Seq<Vec<gradient::Color>>,
    from: int,
    i: int,
)
    requires
        0 < width,
        0 < height,
        frame.len() == width * height,
        0 <= i < frame.len(),
        0 <= from,
    ensures
        paint_drops(frame, width, height, drops, gradients, from)[i] == match drop_on(
            drops,
            width,
            height,
            i,
            from,
        ) {
            Some((k, index)) => rain_cell(drops[k], index, gradients),
            None => frame[i],
        },
    decreases drops.len() - from,
{
    if from < drops.len() {
        lemma_first_drop_shows(frame, width, height, drops, gradients, from + 1, i);
        lemma_paint_drops_length(frame, width, height, drops, gradients, from + 1);
        lemma_paint_points_at(
            paint_drops(frame, width, height, drops, gradients, from + 1),
            width,
            height,
            drops[from],
            gradients,
            drops[from]@.points().len() as int,
            i,
        );
    }
}

/// Painting keeps the number of cells.
pub proof fn lemma_paint_points_length(
    frame: Seq<Cell>,
    width: int,
    height: int,
    drop: RainDrop,
    gradients: Seq<Vec<gradient::Color>>,
    n: int,
)
    requires
        0 <= width,
        0 <= height,
        frame.len() == width * height,
    ensures
        paint_points(frame, width, height, drop, gradients, n).len() == frame.len(),
    decreases n,
{
    if n > 0 {
        lemma_paint_points_length(frame, width, height, drop, gradients, n - 1);
        let point = drop@.points()[n - 1];
        if point.0 < width && point.1 < height {
            lemma_flat_index_in_range(width, height, point.0 as int, point.1 as int);
        }
    }
}

/// Painting keeps the number of cells.
pub proof fn lemma_paint_drops_length(
    frame: Seq<Cell>,
    width: int,
    height: int,
    drops: Seq<RainDrop>,
    gradients: Seq<Vec<gradient::Color>>,
    from: int,
)
    requires
        0 <= width,
        0 <= height,
        frame.len() == width * height,
    ensures
        paint_drops(frame, width, height, drops, gradients, from).len() == frame.len(),
    decreases drops.len() - from,
{
    if from < drops.len() {
        lemma_paint_drops_length(frame, width, height, drops, gradients, from + 1);
        lemma_paint_points_length(
            paint_drops(frame, width, height, drops, gradients, from + 1),
            width,
            height,
            drops[from],
            gradients,
            drops[from]@.points().len() as int,
        );
    }
}

impl TerminalEffect for DigitalRain {
    /// The frame handed out last has the shape of the screen that the rain
    /// was built for, the gradients are as long as that screen asks for,
    /// and no drop is longer than they are.
    closed spec fn wf(&self) -> bool {
        &&& self.buffer.wf()
        &&& self.options.size.0 == self.buffer.width
        &&& self.options.size.1 == self.buffer.height
        &&& self.gradients@.len() == 3
        &&& self.gradients@[2]@.len() == gradient_length(self.options.size.1 as int)
        &&& forall|k: int|
            0 <= k < self.rain_drops@.len() ==> short_enough(
                (#[trigger] self.rain_drops@[k])@,
                self.options.size.1 as int,
            )
    }

    open spec fn fits(&self) -> bool {
        self.size() == self.built_from().size
    }

    closed spec fn size(&self) -> (u16, u16) {
        self.screen_size
    }

    open spec fn shown(&self) -> Seq<Cell> {
        self.frame()@
    }

    open spec fn scene(&self) -> Seq<Cell> {
        DigitalRain::scene_of(self.size(), self.drops(), self.colors())
    }

    open spec fn finished(&self) -> bool {
        false
    }



    /// The difference between the frame handed out last and the frame that
    /// shows the drops where they are now.
    fn get_diff(&mut self) -> (diff: Vec<Change>)
        ensures
            final(self).built_from() == old(self).built_from(),
            final(self).drops() == sorted_by_rank(old(self).drops()),
            final(self).colors() == old(self).colors(),
    {
        proof {
            assert(self.screen_size.0 * self.screen_size.1 <= usize::MAX) by (nonlinear_arith)
                requires self.screen_size.0 <= 0xffff, self.screen_size.1 <= 0xffff, usize::MAX >= 0xffff_ffff;
            lemma_sorted_twice(self.rain_drops@);
            lemma_sorted_members(self.rain_drops@);
        }
        let mut curr_buffer = Buffer::new(self.screen_size.0 as usize, self.screen_size.1 as usize);
        DigitalRain::fill_buffer(&mut self.rain_drops, &mut curr_buffer, &self.gradients);
        let diff = self.buffer.diff(&curr_buffer);
        self.buffer = curr_buffer;
        proof {
            self.lemma_scene_length();
        }
        diff
    }

    /// Moves every drop on by 50 milliseconds and, now and then, adds a
    /// drop.
    fn update(&mut self)
        ensures
            final(self).built_from() == old(self).built_from(),
            final(self).colors() == old(self).colors(),
            old(self).drops().len() <= final(self).drops().len() <= old(self).drops().len() + 1,
            forall|k: int|
                0 <= k < old(self).drops().len() ==> (#[trigger] old(self).drops()[k])@.ticks_to(
                    final(self).drops()[k]@,
                    old(self).built_from(),
                    50,
                ),
    {
        let n = self.rain_drops.len();
        let mut i: usize = 0;
        while i < n
            invariant
                i <= n,
                n == self.rain_drops@.len(),
                n == old(self).rain_drops@.len(),
                self.wf(),
                self.fits(),
                self.screen_size == old(self).screen_size,
                self.options == old(self).options,
                self.gradients == old(self).gradients,
                self.buffer == old(self).buffer,
                forall|k: int| i <= k < n ==> self.rain_drops@[k] == old(self).rain_drops@[k],
                forall|k: int|
                    0 <= k < i ==> (#[trigger] old(self).rain_drops@[k])@.ticks_to(
                        self.rain_drops@[k]@,
                        self.options,
                        50,
                    ),
            decreases n - i,
        {
            let ghost before = self.rain_drops@;
            let options = self.options;
            self.rain_drops[i].update(&options, 50, &mut self.rng);
            proof {
                lemma_tick_keeps_short(before[i as int]@, self.rain_drops@[i as int]@, self.options, 50);
                assert forall|k: int| 0 <= k < self.rain_drops@.len() implies short_enough(
                    (#[trigger] self.rain_drops@[k])@,
                    self.options.size.1 as int,
                ) by {
                    if k != i {
                        assert(self.rain_drops@[k] == before[k]);
                    }
                }
            }
            i += 1;
        }
        self.add_one();
        proof {
            self.lemma_scene_length();
        }
    }

    fn update_size(&mut self, width: u16, height: u16)
        ensures
            final(self).built_from() == old(self).built_from(),
            final(self).drops() == old(self).drops(),
            final(self).colors() == old(self).colors(),
    {
        self.screen_size = (width, height);
    }

    /// Starts anew for the stored screen size, with the ranges of drops and
    /// speeds that the rain was built from.
    fn reset(&mut self)
        ensures
            final(self).built_from() == (DigitalRainOptions { size: old(self).size(), ..old(self).built_from() }),
            final(self).drops().len() == old(self).built_from().drops_range.0,
            forall|k: int|
                0 <= k < final(self).drops().len() ==> (#[trigger] final(self).drops()[k])@.newly_made(
                    final(self).built_from(),
                ) && final(self).drops()[k].drop_id == k + 1,
    {
        let options = DigitalRainOptions {
            size: self.screen_size,
            drops_range: self.options.drops_range,
            speed_range: self.options.speed_range,
        };
        let new_effect = DigitalRain::new(options);
        *self = new_effect;
    }
}

} // verus!
