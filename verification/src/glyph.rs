use crate::random::draw_in_range;
use rand::rngs::StdRng;
use vstd::prelude::*;

verus! {

/// Half width Katakana unicode characters
pub const GLYPH_CHAR_START: u32 = 0xFF61;

pub const GLYPH_CHAR_END: u32 = GLYPH_CHAR_START + 0x3C + 1;

/// Position units in one character cell. A speed of one row per second is
/// `CELL / FPS`, that is 1000, units per tick.
pub const CELL: i64 = 90_000;

/// Slowest speed of a fresh stream: 5 rows per second.
pub const MIN_SPEED: i64 = 5_000;

/// Bound above the speed of a fresh stream: 20 rows per second.
pub const MAX_SPEED: i64 = 20_000;

/// A fresh stream's head starts at or below this: 80 rows above the screen.
pub const ENTRY_TOP: i64 = -7_200_000;

/// A fresh stream's head starts above this: 10 rows above the screen.
pub const ENTRY_BOTTOM: i64 = -900_000;

/// Fewest glyphs in a fresh stream.
pub const MIN_TRAIL: usize = 3;

/// Bound above the number of glyphs in a fresh stream.
pub const MAX_TRAIL: usize = 13;

/// Largest `y` the engine works with: row 65535.
pub const POSITION_LIMIT: i64 = 5_898_150_000;

/// Largest speed the engine works with.
pub const SPEED_LIMIT: i64 = 1_000_000_000;

/// A glyph stores a char with its position on screen
#[derive(Copy, Clone, PartialEq, Eq, Debug, Structural)]
pub struct Glyph {
    /// column, in position units
    pub x: i64,
    /// row, in position units
    pub y: i64,
    /// fall speed, in position units per tick
    pub vel: i64,
    pub c: char,
}

/// Whether `c` is one of the symbols that glyphs are drawn from.
pub open spec fn is_glyph_char(c: char) -> bool {
    GLYPH_CHAR_START <= c as u32 && (c as u32) < GLYPH_CHAR_END
}

impl Glyph {
    pub fn new(x: i64, y: i64, vel: i64, c: char) -> (glyph: Self)
        ensures
            glyph == (Glyph { x, y, vel, c }),
    {
        Self { vel, x, y, c }
    }

    /// Whether the glyph is in bounds.
    pub fn is_in_bounds(&self) -> (ok: bool)
        ensures
            ok == self.in_bounds(),
    {
        0 <= self.x && self.x < 65536 * CELL && -POSITION_LIMIT <= self.y && self.y
            <= POSITION_LIMIT && 0 <= self.vel && self.vel <= SPEED_LIMIT
    }

    /// The glyph lies where the engine can move it without overflow and
    /// name its screen cell: the column fits a `u16`, `y` is within
    /// `POSITION_LIMIT` of the top edge, and it does not fall upwards.
    pub open spec fn in_bounds(self) -> bool {
        &&& 0 <= self.x < 65536 * CELL
        &&& -POSITION_LIMIT <= self.y <= POSITION_LIMIT
        &&& 0 <= self.vel <= SPEED_LIMIT
    }
}

/// All glyphs of the stream share the head's column and speed.
pub open spec fn uniform(stream: Seq<Glyph>) -> bool {
    forall|i: int|
        0 <= i < stream.len() ==> (#[trigger] stream[i]).x == stream[0].x && stream[i].vel
            == stream[0].vel
}

/// What holds of every stream that the generator makes for a screen of
/// `screen_width` columns.
pub open spec fn fresh_stream(stream: Seq<Glyph>, screen_width: u16) -> bool {
    &&& MIN_TRAIL <= stream.len() < MAX_TRAIL
    &&& 0 <= stream[0].x < screen_width * CELL
    &&& ENTRY_TOP <= stream[0].y < ENTRY_BOTTOM
    &&& MIN_SPEED <= stream[0].vel < MAX_SPEED
    &&& forall|i: int|
        0 <= i < stream.len() ==> {
            &&& (#[trigger] stream[i]).x == stream[0].x
            &&& stream[i].vel == stream[0].vel
            &&& stream[i].y == stream[0].y - i * CELL
            &&& is_glyph_char(stream[i].c)
        }
}

/// A fresh stream is uniform, and each of its glyphs is in bounds.
pub proof fn lemma_fresh_stream(stream: Seq<Glyph>, screen_width: u16)
    requires
        fresh_stream(stream, screen_width),
    ensures
        uniform(stream),
        forall|i: int| 0 <= i < stream.len() ==> (#[trigger] stream[i]).in_bounds(),
        stream[0].y < 0,
{
}

/// A fresh stream is a function of what was drawn for it: two fresh streams
/// of one length with the same head and the same characters are the same.
pub proof fn lemma_fresh_stream_determined(a: Seq<Glyph>, b: Seq<Glyph>, screen_width: u16)
    requires
        fresh_stream(a, screen_width),
        fresh_stream(b, screen_width),
        a.len() == b.len(),
        a[0].x == b[0].x,
        a[0].y == b[0].y,
        a[0].vel == b[0].vel,
        forall|i: int| 0 <= i < a.len() ==> a[i].c == b[i].c,
    ensures
        a == b,
{
    assert forall|i: int| 0 <= i < a.len() implies a[i] == b[i] by {
        assert(a[i].x == a[0].x && b[i].x == b[0].x);
        assert(a[i].c == b[i].c);
    }
    assert(a =~= b);
}

/// Generate a number `size` of glyph streams randomly. Where none is asked
/// for, nothing is drawn, and the screen may be without columns.
pub fn gen_glyphs(rng: &mut StdRng, screen_width: u16, size: usize) -> (streams: Vec<Vec<Glyph>>)
    requires
        size > 0 ==> screen_width > 0,
    ensures
        streams@.len() == size,
        forall|s: int| 0 <= s < size ==> fresh_stream((#[trigger] streams@[s])@, screen_width),
        size == 0 ==> *final(rng) == *old(rng),
{
    let mut streams: Vec<Vec<Glyph>> = Vec::new();
    let mut made: usize = 0;
    while made < size
        invariant
            size > 0 ==> screen_width > 0,
            made == 0 ==> *rng == *old(rng),
            made <= size,
            streams@.len() == made,
            forall|s: int| 0 <= s < made ==> fresh_stream((#[trigger] streams@[s])@, screen_width),
        decreases size - made,
    {
        let stream = gen_glyph(rng, screen_width);
        streams.push(stream);
        made += 1;
    }
    streams
}

/// Generate a random glyph stream: a head above the screen and its trail,
/// one row apart, above it.
pub fn gen_glyph(rng: &mut StdRng, screen_width: u16) -> (glyphs: Vec<Glyph>)
    requires
        screen_width > 0,
    ensures
        fresh_stream(glyphs@, screen_width),
{
    let (x, y) = random_xy(rng, screen_width);
    let velocity = random_velocity(rng);

    let root = Glyph::new(x, y, velocity, random_glyph_char(rng));

    let tail_len: usize = draw_in_range(rng, MIN_TRAIL as i64, MAX_TRAIL as i64) as usize;
    let mut glyphs: Vec<Glyph> = Vec::with_capacity(tail_len + 1);

    glyphs.push(root);

    let mut i: usize = 1;
    while i < tail_len
        invariant
            1 <= i <= tail_len < MAX_TRAIL,
            glyphs@.len() == i,
            glyphs@[0] == root,
            root == (Glyph { x, y, vel: velocity, c: root.c }),
            ENTRY_TOP <= y < ENTRY_BOTTOM,
            forall|j: int|
                0 <= j < i ==> {
                    &&& (#[trigger] glyphs@[j]).x == x
                    &&& glyphs@[j].vel == velocity
                    &&& glyphs@[j].y == y - j * CELL
                    &&& is_glyph_char(glyphs@[j].c)
                },
        decreases tail_len - i,
    {
        let tail = Glyph::new(x, y - (i as i64) * CELL, velocity, random_glyph_char(rng));
        glyphs.push(tail);
        i += 1;
    }

    glyphs
}

/// Draw the speed of a fresh stream.
pub fn random_velocity(rng: &mut StdRng) -> (vel: i64)
    ensures
        MIN_SPEED <= vel < MAX_SPEED,
{
    draw_in_range(rng, MIN_SPEED, MAX_SPEED)
}

/// Draw where the head of a fresh stream starts: a column of the screen,
/// and a row above it.
pub fn random_xy(rng: &mut StdRng, screen_width: u16) -> (xy: (i64, i64))
    requires
        screen_width > 0,
    ensures
        0 <= xy.0 < screen_width * CELL,
        ENTRY_TOP <= xy.1 < ENTRY_BOTTOM,
{
    let x = draw_in_range(rng, 0, (screen_width as i64) * CELL);
    let y = draw_in_range(rng, ENTRY_TOP, ENTRY_BOTTOM);
    (x, y)
}

/// Draw one of the glyph symbols.
pub fn random_glyph_char(rng: &mut StdRng) -> (c: char)
    ensures
        is_glyph_char(c),
{
    let code = draw_in_range(rng, GLYPH_CHAR_START as i64, GLYPH_CHAR_END as i64) as u32;
    char::from_u32(code).unwrap()
}

} // verus!
