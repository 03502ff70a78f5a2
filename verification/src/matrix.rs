use crate::event::TermEvent;
use crate::glyph::{
    fresh_stream, gen_glyph, gen_glyphs, is_glyph_char, lemma_fresh_stream, random_glyph_char,
    uniform, Glyph, CELL, ENTRY_BOTTOM, ENTRY_TOP, POSITION_LIMIT, SPEED_LIMIT,
};
use crate::random::draw_ratio;
use rand::rngs::StdRng;
use vstd::prelude::*;

verus! {

/// A colour by its red, green and blue parts.
#[derive(Copy, Clone, PartialEq, Eq, Debug, Structural)]
pub struct Rgb {
    pub r: u8,
    pub g: u8,
    pub b: u8,
}

/// One character to put on the screen.
#[derive(Copy, Clone, PartialEq, Eq, Debug, Structural)]
pub struct Cell {
    pub col: u16,
    pub row: u16,
    pub fg: Rgb,
    pub c: char,
}

/// What the caller of `Matrix::on_event` does next.
#[derive(PartialEq, Eq, Debug)]
pub enum Action {
    /// nothing to draw: wait for the next event
    Wait,
    /// clear the screen to the background colour, print these cells stream
    /// by stream, flush
    Draw(Vec<Vec<Cell>>),
    /// leave the loop
    Stop,
}

/// The head changes its character on one frame in this many.
pub const HEAD_ODDS: u32 = 10;

/// A trail glyph changes its character on one frame in this many.
pub const TRAIL_ODDS: u32 = 15;

/// The glyph after `dt` ticks of falling.
pub open spec fn advanced(g: Glyph, dt: u32) -> Glyph {
    Glyph { x: g.x, y: (g.y + g.vel * dt) as i64, vel: g.vel, c: g.c }
}

/// The glyph is on the screen: below the top edge, and not below the bottom.
pub open spec fn visible(g: Glyph, height: u16) -> bool {
    0 < g.y <= height * CELL
}

/// The glyph has left the screen at the bottom.
pub open spec fn past_bottom(g: Glyph, height: u16) -> bool {
    g.y > height * CELL
}

/// Some glyph of the stream has left the screen at the bottom.
pub open spec fn leaving(stream: Seq<Glyph>, height: u16) -> bool {
    exists|i: int| 0 <= i < stream.len() && past_bottom(#[trigger] stream[i], height)
}

/// The colour of the glyph at `index` in a stream of `len` glyphs: a light
/// green for the head, and for the trail a green that fades by `200 / len`
/// for each step away from the head.
pub open spec fn color_at(index: int, len: int) -> Rgb {
    if index == 0 {
        Rgb { r: 150, g: 255, b: 150 }
    } else {
        Rgb { r: 10, g: (255 - (200int / len) * index) as u8, b: 10 }
    }
}

/// The screen cell of a glyph at `index` in a stream of `len` glyphs: its
/// column and row rounded down.
pub open spec fn cell_of(g: Glyph, index: int, len: int) -> Cell {
    Cell { col: (g.x / CELL) as u16, row: (g.y / CELL) as u16, fg: color_at(index, len), c: g.c }
}

/// The cells of the visible glyphs of a stream, from the head on. `shown`
/// holds the first glyphs of a stream of `len` glyphs.
pub open spec fn cells_of(shown: Seq<Glyph>, len: int, height: u16) -> Seq<Cell>
    decreases shown.len(),
{
    if shown.len() == 0 {
        Seq::empty()
    } else {
        let before = cells_of(shown.drop_last(), len, height);
        if visible(shown.last(), height) {
            before.push(cell_of(shown.last(), shown.len() - 1, len))
        } else {
            before
        }
    }
}

/// Every glyph of the stream after `dt` ticks of falling.
pub open spec fn advance_all(stream: Seq<Glyph>, dt: u32) -> Seq<Glyph> {
    Seq::new(stream.len(), |i: int| advanced(stream[i], dt))
}

/// `after` is `before` but for the character, which a visible glyph may
/// have changed for another glyph symbol.
pub open spec fn repainted_glyph(before: Glyph, after: Glyph, height: u16) -> bool {
    &&& after.x == before.x
    &&& after.y == before.y
    &&& after.vel == before.vel
    &&& after.c == before.c || (visible(before, height) && is_glyph_char(after.c))
}

/// `after` is `before`, glyph by glyph, but for the characters that visible
/// glyphs may have changed.
pub open spec fn repainted(before: Seq<Glyph>, after: Seq<Glyph>, height: u16) -> bool {
    &&& after.len() == before.len()
    &&& forall|i: int|
        0 <= i < before.len() ==> repainted_glyph(before[i], #[trigger] after[i], height)
}

/// One frame of one stream. `shown` is the stream as the frame draws it:
/// every glyph has fallen for `dt` ticks and the visible ones may have a new
/// character. `cells` are its visible glyphs. The stream goes on as `shown`,
/// unless a glyph has left the screen at the bottom: then a fresh stream
/// takes its place.
pub open spec fn frame_of(
    before: Seq<Glyph>,
    shown: Seq<Glyph>,
    after: Seq<Glyph>,
    cells: Seq<Cell>,
    width: u16,
    height: u16,
    dt: u32,
) -> bool {
    &&& repainted(advance_all(before, dt), shown, height)
    &&& cells == cells_of(shown, shown.len() as int, height)
    &&& if leaving(shown, height) {
        fresh_stream(after, width)
    } else {
        after == shown
    }
}

/// `after` and `cells` are what one frame can make of the stream `before`.
pub open spec fn stream_step(
    before: Seq<Glyph>,
    after: Seq<Glyph>,
    cells: Seq<Cell>,
    width: u16,
    height: u16,
    dt: u32,
) -> bool {
    exists|shown: Seq<Glyph>| #[trigger] frame_of(before, shown, after, cells, width, height, dt)
}

/// Every glyph of the stream is in bounds.
pub open spec fn stream_in_bounds(stream: Seq<Glyph>) -> bool {
    forall|i: int| 0 <= i < stream.len() ==> (#[trigger] stream[i]).in_bounds()
}

/// Whether every glyph of the stream is in bounds.
pub fn is_stream_in_bounds(stream: &Vec<Glyph>) -> (ok: bool)
    ensures
        ok == stream_in_bounds(stream@),
{
    let mut i: usize = 0;
    while i < stream.len()
        invariant
            i <= stream@.len(),
            forall|j: int| 0 <= j < i ==> (#[trigger] stream@[j]).in_bounds(),
        decreases stream@.len() - i,
    {
        if !stream[i].is_in_bounds() {
            return false;
        }
        i += 1;
    }
    true
}

/// Let the glyph fall for `dt` ticks: `y` grows by `vel * dt`, and nothing
/// else changes.
pub fn advance(g: Glyph, dt: u32) -> (moved: Glyph)
    requires
        g.in_bounds(),
    ensures
        moved.y == g.y + g.vel * dt,
        moved.x == g.x,
        moved.vel == g.vel,
        moved.c == g.c,
        moved == advanced(g, dt),
        moved.y >= g.y,
{
    proof {
        lemma_fall_fits(g, dt);
    }
    Glyph { x: g.x, y: g.y + g.vel * (dt as i64), vel: g.vel, c: g.c }
}

/// Whether a glyph of the stream leaves a screen of `height` rows at the
/// bottom when the stream falls for `dt` ticks.
pub fn stream_leaves(glyphs: &Vec<Glyph>, height: u16, dt: u32) -> (gone: bool)
    requires
        stream_in_bounds(glyphs@),
    ensures
        gone == leaving(advance_all(glyphs@, dt), height),
{
    let mut i: usize = 0;
    while i < glyphs.len()
        invariant
            i <= glyphs@.len(),
            stream_in_bounds(glyphs@),
            forall|j: int| 0 <= j < i ==> !past_bottom(advanced(#[trigger] glyphs@[j], dt), height),
        decreases glyphs@.len() - i,
    {
        let moved = advance(glyphs[i], dt);
        if is_past_bottom(&moved, height) {
            proof {
                assert(past_bottom(advance_all(glyphs@, dt)[i as int], height));
            }
            return true;
        }
        i += 1;
    }
    proof {
        let fallen = advance_all(glyphs@, dt);
        assert forall|k: int| 0 <= k < fallen.len() implies !past_bottom(
            #[trigger] fallen[k],
            height,
        ) by {
            assert(!past_bottom(advanced(glyphs@[k], dt), height));
        }
    }
    false
}

/// Whether the glyph is drawn on a screen of `height` rows.
pub fn is_visible(g: &Glyph, height: u16) -> (shown: bool)
    ensures
        shown == visible(*g, height),
{
    0 < g.y && g.y <= (height as i64) * CELL
}

/// Whether the glyph has left a screen of `height` rows at the bottom.
pub fn is_past_bottom(g: &Glyph, height: u16) -> (gone: bool)
    ensures
        gone == past_bottom(*g, height),
{
    g.y > (height as i64) * CELL
}

/// The colour behind the glyphs: black.
pub fn background() -> (bg: Rgb)
    ensures
        bg == (Rgb { r: 0, g: 0, b: 0 }),
{
    Rgb { r: 0, g: 0, b: 0 }
}

/// The colour of the glyph at `index` in a stream of `len` glyphs.
pub fn glyph_color(index: usize, len: usize) -> (fg: Rgb)
    requires
        index < len,
    ensures
        fg == color_at(index as int, len as int),
        index > 0 ==> fg.g == 255 - (200int / (len as int)) * index,
        index > 0 ==> fg.g > 55,
{
    if index == 0 {
        Rgb { r: 150, g: 255, b: 150 }
    } else {
        let step: usize = 200 / len;
        assert(step * index < 200) by (nonlinear_arith)
            requires
                0 < index < len,
                step == 200int / (len as int),
        ;
        let fade: usize = step * index;
        Rgb { r: 10, g: (255 - fade) as u8, b: 10 }
    }
}

/// The screen cell of a visible glyph at `index` in a stream of `len`.
pub fn glyph_cell(g: &Glyph, index: usize, len: usize) -> (cell: Cell)
    requires
        g.in_bounds(),
        g.y >= 0,
        index < len,
    ensures
        cell == cell_of(*g, index as int, len as int),
        cell.col == g.x / CELL,
        cell.row == g.y / CELL,
{
    Cell {
        col: (g.x / CELL) as u16,
        row: (g.y / CELL) as u16,
        fg: glyph_color(index, len),
        c: g.c,
    }
}

/// On one frame in how many the glyph at `index` of its stream changes its
/// character: the head more often than the trail.
pub fn mutation_odds(index: usize) -> (odds: u32)
    ensures
        odds == if index == 0 {
            HEAD_ODDS
        } else {
            TRAIL_ODDS
        },
{
    if index == 0 {
        HEAD_ODDS
    } else {
        TRAIL_ODDS
    }
}

/// Let the character of a visible glyph change by chance: the head on one
/// frame in `HEAD_ODDS`, a trail glyph on one in `TRAIL_ODDS`. The new
/// character is a freshly drawn glyph symbol.
pub fn sparkle(rng: &mut StdRng, c: char, index: usize) -> (shown: char)
    ensures
        shown == c || is_glyph_char(shown),
{
    let redrawn = if draw_ratio(rng, 1, mutation_odds(index)) {
        Some(random_glyph_char(rng))
    } else {
        None
    };
    settle_char(c, redrawn)
}

/// The character that a glyph shows after its chance to change: the one
/// that was drawn for it, if one was drawn, and else the one it had.
pub open spec fn char_after(c: char, redrawn: Option<char>) -> char {
    match redrawn {
        Some(fresh) => fresh,
        None => c,
    }
}

/// The character that a glyph with the character `c` shows, once chance has
/// decided: `redrawn` is the symbol drawn for it, or `None` where it keeps
/// its own.
pub fn settle_char(c: char, redrawn: Option<char>) -> (shown: char)
    ensures
        shown == char_after(c, redrawn),
{
    match redrawn {
        Some(fresh) => fresh,
        None => c,
    }
}

/// One frame of one stream on a screen of `width` columns and `height`
/// rows: every glyph falls for `dt` ticks, the visible ones are drawn,
/// and a stream of which a glyph has left the screen at the bottom is
/// replaced by a fresh one. Returns the stream for the next frame and the
/// cells to draw. A stream cannot be replaced on a screen without columns.
pub fn step_stream(glyphs: &Vec<Glyph>, rng: &mut StdRng, width: u16, height: u16, dt: u32) -> (out:
    (Vec<Glyph>, Vec<Cell>))
    requires
        width > 0 || !leaving(advance_all(glyphs@, dt), height),
        stream_in_bounds(glyphs@),
    ensures
        stream_step(glyphs@, out.0@, out.1@, width, height, dt),
        stream_in_bounds(out.0@),
{
    let mut regen = false;
    let tail_len = glyphs.len();
    let mut shown: Vec<Glyph> = Vec::with_capacity(tail_len);
    let mut cells: Vec<Cell> = Vec::new();
    let mut i: usize = 0;
    while i < tail_len
        invariant
            i <= tail_len,
            tail_len == glyphs@.len(),
            stream_in_bounds(glyphs@),
            shown@.len() == i,
            forall|j: int|
                0 <= j < i ==> repainted_glyph(advanced(glyphs@[j], dt), #[trigger] shown@[j], height),
            forall|j: int| 0 <= j < i ==> -POSITION_LIMIT <= (#[trigger] shown@[j]).y,
            cells@ == cells_of(shown@, tail_len as int, height),
            regen == leaving(shown@, height),
        decreases tail_len - i,
    {
        let mut glyph = advance(glyphs[i], dt);

        let gone = is_past_bottom(&glyph, height);
        regen = regen || gone;
        let ghost prev = shown@;
        if is_visible(&glyph, height) {
            glyph.c = sparkle(rng, glyph.c, i);
            cells.push(glyph_cell(&glyph, i, tail_len));
        }
        shown.push(glyph);
        proof {
            assert(shown@.drop_last() =~= prev);
            assert(shown@.last() == glyph);
            if leaving(prev, height) {
                let k = choose|k: int| 0 <= k < prev.len() && past_bottom(#[trigger] prev[k], height);
                assert(past_bottom(shown@[k], height));
            }
            if gone {
                assert(past_bottom(shown@[i as int], height));
            }
            if leaving(shown@, height) {
                let k = choose|k: int|
                    0 <= k < shown@.len() && past_bottom(#[trigger] shown@[k], height);
                if k < i {
                    assert(past_bottom(prev[k], height));
                }
            }
        }
        i += 1;
    }
    if regen {
        proof {
            let k = choose|k: int|
                0 <= k < shown@.len() && past_bottom(#[trigger] shown@[k], height);
            assert(repainted_glyph(advanced(glyphs@[k], dt), shown@[k], height));
            assert(past_bottom(advance_all(glyphs@, dt)[k], height));
        }
        let fresh = gen_glyph(rng, width);
        proof {
            lemma_fresh_stream(fresh@, width);
            assert(frame_of(glyphs@, shown@, fresh@, cells@, width, height, dt));
        }
        (fresh, cells)
    } else {
        proof {
            assert(frame_of(glyphs@, shown@, shown@, cells@, width, height, dt));
            assert forall|j: int| 0 <= j < shown@.len() implies (#[trigger] shown@[j]).in_bounds() by {
                assert(!past_bottom(shown@[j], height));
                assert(repainted_glyph(advanced(glyphs@[j], dt), shown@[j], height));
                assert(glyphs@[j].in_bounds());
            }
        }
        (shown, cells)
    }
}

/// A uniform stream stays uniform over a frame.
pub proof fn lemma_step_keeps_uniform(
    before: Seq<Glyph>,
    after: Seq<Glyph>,
    cells: Seq<Cell>,
    width: u16,
    height: u16,
    dt: u32,
)
    requires
        uniform(before),
        stream_step(before, after, cells, width, height, dt),
    ensures
        uniform(after),
{
    let shown = choose|shown: Seq<Glyph>| #[trigger]
        frame_of(before, shown, after, cells, width, height, dt);
    if leaving(shown, height) {
        lemma_fresh_stream(after, width);
    } else {
        assert forall|i: int| 0 <= i < after.len() implies (#[trigger] after[i]).x == after[0].x
            && after[i].vel == after[0].vel by {
            assert(repainted_glyph(advance_all(before, dt)[i], shown[i], height));
            assert(repainted_glyph(advance_all(before, dt)[0], shown[0], height));
            assert(before[i].x == before[0].x);
        }
    }
}

/// A stream of which no glyph leaves the screen keeps its length, and each
/// of its glyphs keeps its column and speed and falls by `vel * dt`, drawn
/// or not. A glyph that is not on the screen keeps its character.
pub proof fn lemma_step_moves_stream(
    before: Seq<Glyph>,
    after: Seq<Glyph>,
    cells: Seq<Cell>,
    width: u16,
    height: u16,
    dt: u32,
)
    requires
        stream_in_bounds(before),
        stream_step(before, after, cells, width, height, dt),
        !leaving(advance_all(before, dt), height),
    ensures
        after.len() == before.len(),
        forall|i: int|
            0 <= i < before.len() ==> {
                &&& (#[trigger] after[i]).x == before[i].x
                &&& after[i].vel == before[i].vel
                &&& after[i].y == before[i].y + before[i].vel * dt
                &&& !visible(after[i], height) ==> after[i].c == before[i].c
            },
{
    let shown = choose|shown: Seq<Glyph>| #[trigger]
        frame_of(before, shown, after, cells, width, height, dt);
    let fallen = advance_all(before, dt);
    if leaving(shown, height) {
        let k = choose|k: int| 0 <= k < shown.len() && past_bottom(#[trigger] shown[k], height);
        assert(repainted_glyph(fallen[k], shown[k], height));
        assert(past_bottom(fallen[k], height));
    }
    assert forall|i: int| 0 <= i < before.len() implies {
        &&& (#[trigger] after[i]).x == before[i].x
        &&& after[i].vel == before[i].vel
        &&& after[i].y == before[i].y + before[i].vel * dt
        &&& !visible(after[i], height) ==> after[i].c == before[i].c
    } by {
        assert(repainted_glyph(fallen[i], shown[i], height));
        assert(before[i].in_bounds());
        lemma_fall_fits(before[i], dt);
    }
}

/// A glyph in bounds can fall for any number of ticks without overflow.
pub proof fn lemma_fall_fits(g: Glyph, dt: u32)
    requires
        g.in_bounds(),
    ensures
        0 <= g.vel * dt <= SPEED_LIMIT * 0xFFFF_FFFF,
        advanced(g, dt).y == g.y + g.vel * dt,
        advanced(g, dt).y >= g.y,
{
    assert(0 <= g.vel * dt <= SPEED_LIMIT * 0xFFFF_FFFF) by (nonlinear_arith)
        requires
            0 <= g.vel <= SPEED_LIMIT,
            0 <= dt <= 0xFFFF_FFFF,
    ;
}

/// A stream whose head has fallen below the bottom edge is replaced by a
/// fresh one, whose head starts above the screen again.
pub proof fn lemma_head_past_bottom_regenerates(
    before: Seq<Glyph>,
    after: Seq<Glyph>,
    cells: Seq<Cell>,
    width: u16,
    height: u16,
    dt: u32,
)
    requires
        before.len() > 0,
        stream_step(before, after, cells, width, height, dt),
        past_bottom(advanced(before[0], dt), height),
    ensures
        fresh_stream(after, width),
        ENTRY_TOP <= after[0].y < ENTRY_BOTTOM,
        after[0].y < 0,
{
    let shown = choose|shown: Seq<Glyph>| #[trigger]
        frame_of(before, shown, after, cells, width, height, dt);
    assert(repainted_glyph(advance_all(before, dt)[0], shown[0], height));
    assert(past_bottom(shown[0], height));
}

/// What one event can make of the state `before`: the state `after` and
/// what the caller does next. A resize stores the new size and leaves the
/// display buffer as it is; a tick draws one frame, on which every stream
/// takes one step of `dt` ticks; `Exit` changes nothing and ends the loop.
pub open spec fn reacts(
    before: Matrix,
    event: TermEvent,
    after: Matrix,
    action: Action,
    dt: u32,
) -> bool {
    &&& after.display@.len() == before.display@.len()
    &&& match event {
        TermEvent::Resize(w, h) => {
            &&& action == Action::Wait
            &&& after.width == w
            &&& after.height == h
            &&& after.display == before.display
        },
        TermEvent::Redraw => {
            &&& after.width == before.width
            &&& after.height == before.height
            &&& action matches Action::Draw(frame)
            &&& frame@.len() == before.display@.len()
            &&& forall|s: int|
                0 <= s < frame@.len() ==> stream_step(
                    before.display@[s]@,
                    after.display@[s]@,
                    (#[trigger] frame@[s])@,
                    before.width,
                    before.height,
                    dt,
                )
        },
        TermEvent::Exit => action == Action::Stop && after == before,
    }
}

/// `states` are the states that the first `n` of `events`, handled in
/// order, lead through: from `before` to `after`, each event with its
/// action.
pub open spec fn trace_of(
    states: Seq<Matrix>,
    before: Matrix,
    events: Seq<TermEvent>,
    n: int,
    after: Matrix,
    actions: Seq<Action>,
    dt: u32,
) -> bool {
    &&& states.len() == n + 1
    &&& states[0] == before
    &&& states[n] == after
    &&& forall|i: int|
        0 <= i < n ==> reacts(#[trigger] states[i], events[i], states[i + 1], actions[i], dt)
}

/// What the first `n` of `events`, handled in order, can make of the state
/// `before`: the state `after`, and one action for each of them.
pub open spec fn runs(
    before: Matrix,
    events: Seq<TermEvent>,
    n: int,
    after: Matrix,
    actions: Seq<Action>,
    dt: u32,
) -> bool {
    exists|states: Seq<Matrix>| #[trigger] trace_of(states, before, events, n, after, actions, dt)
}

/// Handling an event keeps every stream of the display buffer uniform.
pub proof fn lemma_event_keeps_uniform(
    before: Matrix,
    event: TermEvent,
    after: Matrix,
    action: Action,
    dt: u32,
)
    requires
        before.all_uniform(),
        reacts(before, event, after, action, dt),
    ensures
        after.all_uniform(),
{
    match event {
        TermEvent::Redraw => {
            let frame = action->Draw_0;
            assert forall|s: int| 0 <= s < after.display@.len() implies uniform(
                (#[trigger] after.display@[s])@,
            ) by {
                assert(uniform(before.display@[s]@));
                assert(stream_step(
                    before.display@[s]@,
                    after.display@[s]@,
                    frame@[s]@,
                    before.width,
                    before.height,
                    dt,
                ));
                lemma_step_keeps_uniform(
                    before.display@[s]@,
                    after.display@[s]@,
                    frame@[s]@,
                    before.width,
                    before.height,
                    dt,
                );
            }
        },
        _ => {},
    }
}

/// A run over the first `n` events of a queue does not depend on what
/// follows them in the queue.
pub proof fn lemma_run_ignores_rest(
    before: Matrix,
    events: Seq<TermEvent>,
    others: Seq<TermEvent>,
    n: int,
    after: Matrix,
    actions: Seq<Action>,
    dt: u32,
)
    requires
        runs(before, events, n, after, actions, dt),
        forall|i: int| 0 <= i < n ==> events[i] == others[i],
    ensures
        runs(before, others, n, after, actions, dt),
{
    let states = choose|states: Seq<Matrix>| #[trigger]
        trace_of(states, before, events, n, after, actions, dt);
    assert(trace_of(states, before, others, n, after, actions, dt));
}

/// Every state of a trace that starts with uniform streams has uniform
/// streams.
pub proof fn lemma_trace_keeps_uniform(
    states: Seq<Matrix>,
    before: Matrix,
    events: Seq<TermEvent>,
    n: int,
    after: Matrix,
    actions: Seq<Action>,
    dt: u32,
    k: int,
)
    requires
        before.all_uniform(),
        trace_of(states, before, events, n, after, actions, dt),
        0 <= k <= n,
    ensures
        states[k].all_uniform(),
    decreases k,
{
    if k > 0 {
        lemma_trace_keeps_uniform(states, before, events, n, after, actions, dt, k - 1);
        assert(reacts(states[k - 1], events[k - 1], states[k], actions[k - 1], dt));
        lemma_event_keeps_uniform(states[k - 1], events[k - 1], states[k], actions[k - 1], dt);
    }
}

/// A run over any events keeps every stream of the display buffer uniform.
pub proof fn lemma_run_keeps_uniform(
    before: Matrix,
    events: Seq<TermEvent>,
    n: int,
    after: Matrix,
    actions: Seq<Action>,
    dt: u32,
)
    requires
        before.all_uniform(),
        0 <= n,
        runs(before, events, n, after, actions, dt),
    ensures
        after.all_uniform(),
{
    let states = choose|states: Seq<Matrix>| #[trigger]
        trace_of(states, before, events, n, after, actions, dt);
    lemma_trace_keeps_uniform(states, before, events, n, after, actions, dt, n);
}

/// One tick moves each glyph once: in a stream of which no glyph leaves the
/// screen, every glyph falls by `vel * dt` and keeps its column and speed,
/// drawn or not, and one that is not on the screen keeps its character. The
/// stored size and the number of streams stay.
pub proof fn lemma_tick_moves_stream(
    before: Matrix,
    after: Matrix,
    action: Action,
    dt: u32,
    s: int,
)
    requires
        before.wf(),
        reacts(before, TermEvent::Redraw, after, action, dt),
        0 <= s < before.display@.len(),
        !leaving(advance_all(before.display@[s]@, dt), before.height),
    ensures
        after.width == before.width,
        after.height == before.height,
        after.display@.len() == before.display@.len(),
        after.display@[s]@.len() == before.display@[s]@.len(),
        forall|i: int|
            0 <= i < before.display@[s]@.len() ==> {
                &&& (#[trigger] after.display@[s]@[i]).x == before.display@[s]@[i].x
                &&& after.display@[s]@[i].vel == before.display@[s]@[i].vel
                &&& after.display@[s]@[i].y == before.display@[s]@[i].y
                    + before.display@[s]@[i].vel * dt
                &&& !visible(after.display@[s]@[i], before.height) ==> after.display@[s]@[i].c
                    == before.display@[s]@[i].c
            },
{
    let frame = action->Draw_0;
    assert(stream_in_bounds(before.display@[s]@));
    assert(stream_step(
        before.display@[s]@,
        after.display@[s]@,
        frame@[s]@,
        before.width,
        before.height,
        dt,
    ));
    lemma_step_moves_stream(
        before.display@[s]@,
        after.display@[s]@,
        frame@[s]@,
        before.width,
        before.height,
        dt,
    );
}

/// The stored width once the first `n` events of the queue are handled: that
/// of the last resize among them, and `width` where there is none.
pub open spec fn width_after(width: u16, events: Seq<TermEvent>, n: int) -> u16
    decreases n,
{
    if n <= 0 {
        width
    } else {
        match events[n - 1] {
            TermEvent::Resize(w, _) => w,
            _ => width_after(width, events, n - 1),
        }
    }
}

/// None of the first `n` events of the queue is `Exit`.
pub open spec fn no_exit_before(events: Seq<TermEvent>, n: int) -> bool {
    forall|j: int| 0 <= j < n ==> (#[trigger] events[j]) != TermEvent::Exit
}

/// Every tick of the queue that is handled, that is, every one before the
/// first `Exit`, finds a stored width of at least one column.
pub open spec fn ticks_have_columns(width: u16, events: Seq<TermEvent>) -> bool {
    forall|i: int|
        0 <= i < events.len() && (#[trigger] events[i]) == TermEvent::Redraw && no_exit_before(
            events,
            i,
        ) ==> width_after(width, events, i) > 0
}

/// A resize changes the stored size and nothing else: the display buffer
/// keeps its streams, and every glyph its state.
pub proof fn lemma_resize_keeps_buffer(
    before: Matrix,
    after: Matrix,
    action: Action,
    w: u16,
    h: u16,
    dt: u32,
)
    requires
        reacts(before, TermEvent::Resize(w, h), after, action, dt),
    ensures
        after.width == w,
        after.height == h,
        after.display@ == before.display@,
        forall|s: int|
            0 <= s < before.display@.len() ==> (#[trigger] after.display@[s])@
                == before.display@[s]@,
{
}

/// The matrix state
#[derive(PartialEq, Eq, Debug)]
pub struct Matrix {
    /// terminal width
    pub width: u16,
    /// terminal height
    pub height: u16,
    /// the display buffer
    pub display: Vec<Vec<Glyph>>,
}

impl Matrix {
    /// Every glyph of the display buffer is in bounds.
    pub open spec fn wf(&self) -> bool {
        forall|s: int| 0 <= s < self.display@.len() ==> stream_in_bounds((#[trigger] self.display@[s])@)
    }

    /// The glyphs of each stream of the display buffer share their column
    /// and speed.
    pub open spec fn all_uniform(&self) -> bool {
        forall|s: int| 0 <= s < self.display@.len() ==> uniform((#[trigger] self.display@[s])@)
    }

    /// Whether every glyph of the display buffer is in bounds.
    pub fn is_wf(&self) -> (ok: bool)
        ensures
            ok == self.wf(),
    {
        let mut s: usize = 0;
        while s < self.display.len()
            invariant
                s <= self.display@.len(),
                forall|k: int| 0 <= k < s ==> stream_in_bounds((#[trigger] self.display@[k])@),
            decreases self.display@.len() - s,
        {
            if !is_stream_in_bounds(&self.display[s]) {
                return false;
            }
            s += 1;
        }
        true
    }

    /// A tick of `dt` ticks length can be handled: the screen has a column,
    /// or no stream leaves it on this tick, so that none has to be replaced.
    pub open spec fn tick_ready(&self, dt: u32) -> bool {
        self.width > 0 || forall|s: int|
            0 <= s < self.display@.len() ==> !leaving(
                advance_all((#[trigger] self.display@[s])@, dt),
                self.height,
            )
    }

    /// Whether a tick of `dt` ticks length can be handled.
    pub fn is_tick_ready(&self, dt: u32) -> (ok: bool)
        requires
            self.wf(),
        ensures
            ok == self.tick_ready(dt),
    {
        if self.width > 0 {
            return true;
        }
        let mut s: usize = 0;
        while s < self.display.len()
            invariant
                s <= self.display@.len(),
                self.width == 0,
                self.wf(),
                forall|k: int|
                    0 <= k < s ==> !leaving(
                        advance_all((#[trigger] self.display@[k])@, dt),
                        self.height,
                    ),
            decreases self.display@.len() - s,
        {
            if stream_leaves(&self.display[s], self.height, dt) {
                proof {
                    assert(leaving(advance_all(self.display@[s as int]@, dt), self.height));
                }
                return false;
            }
            s += 1;
        }
        true
    }

    /// The initial state for a terminal of `width` columns and `height`
    /// rows: two fresh streams for each column. A terminal without columns
    /// gets an empty display buffer, for which nothing is drawn.
    pub fn setup(rng: &mut StdRng, width: u16, height: u16) -> (matrix: Self)
        ensures
            matrix.width == width,
            matrix.height == height,
            matrix.display@.len() == 2 * width,
            forall|s: int|
                0 <= s < matrix.display@.len() ==> fresh_stream(
                    (#[trigger] matrix.display@[s])@,
                    width,
                ),
            matrix.wf(),
            matrix.all_uniform(),
            width == 0 ==> *final(rng) == *old(rng),
    {
        let display = gen_glyphs(rng, width, 2 * (width as usize));
        proof {
            assert forall|s: int| 0 <= s < display@.len() implies stream_in_bounds(
                (#[trigger] display@[s])@,
            ) by {
                lemma_fresh_stream(display@[s]@, width);
            }
        }
        Self { width, height, display }
    }

    /// One frame: every stream of the display buffer takes one step of
    /// `dt` ticks. Returns the cells to draw, stream by stream.
    pub fn redraw(&mut self, rng: &mut StdRng, dt: u32) -> (frame: Vec<Vec<Cell>>)
        requires
            old(self).wf(),
            old(self).tick_ready(dt),
        ensures
            final(self).wf(),
            final(self).width == old(self).width,
            final(self).height == old(self).height,
            final(self).display@.len() == old(self).display@.len(),
            frame@.len() == old(self).display@.len(),
            forall|s: int|
                0 <= s < frame@.len() ==> stream_step(
                    old(self).display@[s]@,
                    final(self).display@[s]@,
                    (#[trigger] frame@[s])@,
                    old(self).width,
                    old(self).height,
                    dt,
                ),
    {
        let mut frame: Vec<Vec<Cell>> = Vec::new();
        let count = self.display.len();
        let mut s: usize = 0;
        while s < count
            invariant
                s <= count,
                count == self.display@.len(),
                count == old(self).display@.len(),
                self.width == old(self).width,
                self.height == old(self).height,
                old(self).tick_ready(dt),
                self.wf(),
                frame@.len() == s,
                forall|k: int|
                    0 <= k < s ==> stream_step(
                        old(self).display@[k]@,
                        self.display@[k]@,
                        (#[trigger] frame@[k])@,
                        self.width,
                        self.height,
                        dt,
                    ),
                forall|k: int| s <= k < count ==> self.display@[k] == old(self).display@[k],
            decreases count - s,
        {
            let (next, cells) = step_stream(&self.display[s], rng, self.width, self.height, dt);
            self.display.set(s, next);
            frame.push(cells);
            s += 1;
        }
        frame
    }

    /// React to one event: a resize stores the new size and leaves the
    /// display buffer as it is, a tick of `dt` ticks length draws one frame,
    /// and `Exit` changes nothing and ends the loop.
    pub fn on_event(&mut self, rng: &mut StdRng, event: TermEvent, dt: u32) -> (action: Action)
        requires
            old(self).wf(),
            event == TermEvent::Redraw ==> old(self).tick_ready(dt),
        ensures
            final(self).wf(),
            reacts(*old(self), event, *final(self), action, dt),
    {
        match event {
            TermEvent::Resize(w, h) => {
                self.width = w;
                self.height = h;
                Action::Wait
            },
            TermEvent::Redraw => Action::Draw(self.redraw(rng, dt)),
            TermEvent::Exit => Action::Stop,
        }
    }

    /// Make it rain! Handle the queued events in order, up to the first
    /// `Exit`: what comes after it in the queue is not looked at. Returns
    /// one action for each event that was handled.
    pub fn rain(&mut self, rng: &mut StdRng, events: &Vec<TermEvent>, dt: u32) -> (actions: Vec<
        Action,
    >)
        requires
            old(self).wf(),
            old(self).display@.len() == 0 || ticks_have_columns(old(self).width, events@),
        ensures
            final(self).wf(),
            old(self).all_uniform() ==> final(self).all_uniform(),
            actions@.len() <= events@.len(),
            forall|i: int| 0 <= i < actions@.len() - 1 ==> events@[i] != TermEvent::Exit,
            actions@.len() < events@.len() ==> actions@.len() > 0 && events@[actions@.len() - 1]
                == TermEvent::Exit,
            runs(*old(self), events@, actions@.len() as int, *final(self), actions@, dt),
    {
        let mut actions: Vec<Action> = Vec::new();
        let mut stopped = false;
        let mut i: usize = 0;
        let ghost mut states: Seq<Matrix> = seq![*self];
        while i < events.len() && !stopped
            invariant
                i <= events@.len(),
                actions@.len() == i,
                self.wf(),
                self.display@.len() == old(self).display@.len(),
                self.display@.len() == 0 || ticks_have_columns(old(self).width, events@),
                self.width == width_after(old(self).width, events@, i as int),
                forall|k: int| 0 <= k < i - 1 ==> events@[k] != TermEvent::Exit,
                stopped ==> i > 0 && events@[i - 1] == TermEvent::Exit,
                !stopped && i > 0 ==> events@[i - 1] != TermEvent::Exit,
                trace_of(states, *old(self), events@, i as int, *self, actions@, dt),
            decreases events@.len() - i + (if stopped { 0int } else { 1int }),
        {
            let event = events[i];
            proof {
                assert(no_exit_before(events@, i as int));
            }
            let action = self.on_event(rng, event, dt);
            match event {
                TermEvent::Exit => {
                    stopped = true;
                },
                _ => {},
            }
            actions.push(action);
            proof {
                states = states.push(*self);
            }
            i += 1;
        }
        proof {
            if old(self).all_uniform() {
                lemma_trace_keeps_uniform(
                    states,
                    *old(self),
                    events@,
                    i as int,
                    *self,
                    actions@,
                    dt,
                    i as int,
                );
            }
        }
        actions
    }
}

} // verus!
