//! The glyphs that the effects draw with.

use vstd::prelude::*;
use rand::rngs::ThreadRng;
use crate::random::draw;

verus! {

/// Digits, punctuation and half-width katakana: the glyphs of a rain drop.
pub open spec fn rain_glyphs() -> Seq<char> {
    "012345789:・.\"=*+-<>ﾊﾐﾋｰｳｼﾅﾓﾆｻﾜﾂｵﾘｱﾎﾃﾏｹﾒｴｶｷﾑﾕﾗｾﾈｽﾀﾇﾍ¦çﾘｸ"@
}

/// Punctuation and half-width katakana: the glyphs of a maze wall.
pub open spec fn wall_glyphs() -> Seq<char> {
    ":.\"=*+-<>ﾊﾐﾋｰｳｼﾅﾓﾆｻﾜﾂｵﾘｱﾎﾃﾏｹﾒｴｶｷﾑﾕﾗｾﾈｽﾀﾇﾍ¦çﾘｸ"@
}

/// Half-width katakana: the glyphs of a living cell.
pub open spec fn life_glyphs() -> Seq<char> {
    "ﾊﾐﾋｰｳｼﾅﾓﾆｻﾜﾂｵﾘｱﾎﾃﾏｹﾒｴｶｷﾑﾕﾗｾﾈｽﾀﾇﾍ"@
}

/// A glyph that leaves a mark on the screen and is not the solid block.
pub open spec fn is_mark(c: char) -> bool {
    c != ' ' && c != '\u{2588}'
}

pub proof fn lemma_rain_glyphs()
    ensures
        rain_glyphs().len() == 55,
        forall|i: int| 0 <= i < rain_glyphs().len() ==> is_mark(#[trigger] rain_glyphs()[i]),
{
    reveal_strlit("012345789:・.\"=*+-<>ﾊﾐﾋｰｳｼﾅﾓﾆｻﾜﾂｵﾘｱﾎﾃﾏｹﾒｴｶｷﾑﾕﾗｾﾈｽﾀﾇﾍ¦çﾘｸ");
}

pub proof fn lemma_wall_glyphs()
    ensures
        wall_glyphs().len() == 45,
        forall|i: int| 0 <= i < wall_glyphs().len() ==> is_mark(#[trigger] wall_glyphs()[i]),
{
    reveal_strlit(":.\"=*+-<>ﾊﾐﾋｰｳｼﾅﾓﾆｻﾜﾂｵﾘｱﾎﾃﾏｹﾒｴｶｷﾑﾕﾗｾﾈｽﾀﾇﾍ¦çﾘｸ");
}

pub proof fn lemma_life_glyphs()
    ensures
        life_glyphs().len() == 32,
        forall|i: int| 0 <= i < life_glyphs().len() ==> is_mark(#[trigger] life_glyphs()[i]),
{
    reveal_strlit("ﾊﾐﾋｰｳｼﾅﾓﾆｻﾜﾂｵﾘｱﾎﾃﾏｹﾒｴｶｷﾑﾕﾗｾﾈｽﾀﾇﾍ");
}

/// A glyph of a rain drop, picked at random.
pub fn random_rain_glyph(rng: &mut ThreadRng) -> (c: char)
    ensures
        rain_glyphs().contains(c),
{
    proof {
        lemma_rain_glyphs();
    }
    let i = draw(rng, 0, 55);
    "012345789:・.\"=*+-<>ﾊﾐﾋｰｳｼﾅﾓﾆｻﾜﾂｵﾘｱﾎﾃﾏｹﾒｴｶｷﾑﾕﾗｾﾈｽﾀﾇﾍ¦çﾘｸ".get_char(i)
}

/// A glyph of a maze wall, picked at random.
pub fn random_wall_glyph(rng: &mut ThreadRng) -> (c: char)
    ensures
        wall_glyphs().contains(c),
{
    proof {
        lemma_wall_glyphs();
    }
    let i = draw(rng, 0, 45);
    ":.\"=*+-<>ﾊﾐﾋｰｳｼﾅﾓﾆｻﾜﾂｵﾘｱﾎﾃﾏｹﾒｴｶｷﾑﾕﾗｾﾈｽﾀﾇﾍ¦çﾘｸ".get_char(i)
}

/// A glyph of a living cell, picked at random.
pub fn random_life_glyph(rng: &mut ThreadRng) -> (c: char)
    ensures
        life_glyphs().contains(c),
{
    proof {
        lemma_life_glyphs();
    }
    let i = draw(rng, 0, 32);
    "ﾊﾐﾋｰｳｼﾅﾓﾆｻﾜﾂｵﾘｱﾎﾃﾏｹﾒｴｶｷﾑﾕﾗｾﾈｽﾀﾇﾍ".get_char(i)
}

} // verus!
