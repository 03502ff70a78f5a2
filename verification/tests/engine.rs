use glyph_rain::event::{handle_term_event, listens_on, TermEvent, TermInput, QUIT_KEY};
use glyph_rain::glyph::{
    Glyph, CELL, ENTRY_BOTTOM, ENTRY_TOP, GLYPH_CHAR_END, GLYPH_CHAR_START, MAX_TRAIL, MIN_TRAIL,
};
use glyph_rain::matrix::{
    advance, background, glyph_cell, glyph_color, is_past_bottom, is_stream_in_bounds, is_visible,
    mutation_odds, settle_char, sparkle, step_stream, stream_leaves, Action, Cell, Rgb, HEAD_ODDS, TRAIL_ODDS,
};
use glyph_rain::Matrix;
use rand::rngs::StdRng;
use rand::SeedableRng;

const HEAD: Rgb = Rgb { r: 150, g: 255, b: 150 };

fn is_symbol(c: char) -> bool {
    GLYPH_CHAR_START <= c as u32 && (c as u32) < GLYPH_CHAR_END
}

fn frame_of(action: Action) -> Vec<Vec<Cell>> {
    match action {
        Action::Draw(frame) => frame,
        other => panic!("expected a frame, got {:?}", other),
    }
}

#[test]
fn tick_is_a_ninetieth_of_a_second() {
    assert_eq!(glyph_rain::FPS, 90);
    assert_eq!(glyph_rain::tick_nanos(), 11_111_111);
}

#[test]
fn advance_adds_speed_times_ticks() {
    let g = Glyph::new(4 * CELL, -CELL, 10_000, 'ｱ');
    let moved = advance(g, 9);
    assert_eq!(moved.y, 0);
    assert_eq!(moved.x, g.x);
    assert_eq!(moved.vel, g.vel);
    assert_eq!(moved.c, g.c);
    assert_eq!(advance(g, 0), g);
    assert_eq!(advance(g, 1).y, -CELL + 10_000);
    assert_eq!(advance(advance(g, 3), 4), advance(g, 7));
}

#[test]
fn advance_at_the_limits() {
    let g = Glyph::new(0, 5_898_150_000, 1_000_000_000, 'ｱ');
    assert_eq!(advance(g, u32::MAX).y, 5_898_150_000 + 1_000_000_000 * (u32::MAX as i64));
}

#[test]
fn visibility_excludes_the_top_edge_and_includes_the_bottom() {
    let at = |y: i64| Glyph::new(0, y, 5_000, 'ｱ');
    assert!(!is_visible(&at(-1), 5));
    assert!(!is_visible(&at(0), 5));
    assert!(is_visible(&at(1), 5));
    assert!(is_visible(&at(5 * CELL), 5));
    assert!(!is_visible(&at(5 * CELL + 1), 5));
    assert!(!is_past_bottom(&at(5 * CELL), 5));
    assert!(is_past_bottom(&at(5 * CELL + 1), 5));
    assert!(!is_visible(&at(1), 0));
    assert!(is_past_bottom(&at(1), 0));
}

#[test]
fn head_is_light_green() {
    assert_eq!(glyph_color(0, 1), HEAD);
    assert_eq!(glyph_color(0, 12), HEAD);
}

#[test]
fn trail_fades_with_distance() {
    assert_eq!(glyph_color(1, 10), Rgb { r: 10, g: 235, b: 10 });
    assert_eq!(glyph_color(3, 10), Rgb { r: 10, g: 195, b: 10 });
    assert_eq!(glyph_color(9, 10), Rgb { r: 10, g: 75, b: 10 });
    assert_eq!(glyph_color(2, 3), Rgb { r: 10, g: 123, b: 10 });
    assert_eq!(glyph_color(11, 12), Rgb { r: 10, g: 79, b: 10 });
    assert_eq!(glyph_color(250, 300), Rgb { r: 10, g: 255, b: 10 });
}

#[test]
fn cell_rounds_down() {
    let g = Glyph::new(3 * CELL + 89_999, CELL + 1, 5_000, 'ｱ');
    let cell = glyph_cell(&g, 0, 4);
    assert_eq!(cell, Cell { col: 3, row: 1, fg: HEAD, c: 'ｱ' });
    let g = Glyph::new(65535 * CELL, 2 * CELL - 1, 5_000, 'ｲ');
    let cell = glyph_cell(&g, 2, 4);
    assert_eq!(cell, Cell { col: 65535, row: 1, fg: Rgb { r: 10, g: 155, b: 10 }, c: 'ｲ' });
}

#[test]
fn sparkle_keeps_or_redraws() {
    let mut rng = StdRng::seed_from_u64(17);
    let mut kept = 0;
    let mut changed = 0;
    for _ in 0..3000 {
        let c = sparkle(&mut rng, 'x', 0);
        if c == 'x' {
            kept += 1;
        } else {
            assert!(is_symbol(c));
            changed += 1;
        }
    }
    assert!(kept > changed);
    assert!(changed > 150 && changed < 450);
    let mut trail_changed = 0;
    for _ in 0..3000 {
        if sparkle(&mut rng, 'x', 4) != 'x' {
            trail_changed += 1;
        }
    }
    assert!(trail_changed > 100 && trail_changed < 300);
}

#[test]
fn stream_above_the_screen_only_falls() {
    let mut rng = StdRng::seed_from_u64(1);
    let before = vec![
        Glyph::new(2 * CELL, -10 * CELL, 9_000, 'ｱ'),
        Glyph::new(2 * CELL, -11 * CELL, 9_000, 'ｲ'),
        Glyph::new(2 * CELL, -12 * CELL, 9_000, 'ｳ'),
    ];
    let (after, cells) = step_stream(&before, &mut rng, 10, 5, 1);
    assert!(cells.is_empty());
    assert_eq!(after.len(), 3);
    for i in 0..3 {
        assert_eq!(after[i], Glyph { y: before[i].y + 9_000, ..before[i] });
    }
}

#[test]
fn visible_glyphs_become_cells_in_order() {
    let mut rng = StdRng::seed_from_u64(2);
    let before = vec![
        Glyph::new(7 * CELL + 5, 3 * CELL, 0, 'ｱ'),
        Glyph::new(7 * CELL + 5, 2 * CELL, 0, 'ｲ'),
        Glyph::new(7 * CELL + 5, CELL, 0, 'ｳ'),
        Glyph::new(7 * CELL + 5, 0, 0, 'ｴ'),
    ];
    let (after, cells) = step_stream(&before, &mut rng, 10, 5, 1);
    assert_eq!(after.len(), 4);
    assert_eq!(cells.len(), 3);
    for i in 0..3 {
        assert_eq!(cells[i].col, 7);
        assert_eq!(cells[i].row, 3 - i as u16);
        assert_eq!(cells[i].c, after[i].c);
        assert!(after[i].c == before[i].c || is_symbol(after[i].c));
        assert_eq!(after[i].y, before[i].y);
    }
    assert_eq!(cells[0].fg, HEAD);
    assert_eq!(cells[1].fg, Rgb { r: 10, g: 205, b: 10 });
    assert_eq!(cells[2].fg, Rgb { r: 10, g: 155, b: 10 });
    assert_eq!(after[3], before[3]);
}

#[test]
fn empty_stream_stays_empty() {
    let mut rng = StdRng::seed_from_u64(2);
    let (after, cells) = step_stream(&Vec::new(), &mut rng, 10, 5, 1);
    assert!(after.is_empty());
    assert!(cells.is_empty());
}

#[test]
fn head_reaches_the_top_edge_then_the_first_row() {
    let mut rng = StdRng::seed_from_u64(3);
    let head = Glyph::new(4 * CELL, -CELL, 10_000, 'ｱ');
    let mut matrix = Matrix { width: 10, height: 5, display: vec![vec![head]] };

    let frame = frame_of(matrix.on_event(&mut rng, TermEvent::Redraw, 9));
    assert_eq!(matrix.display[0][0].y, 0);
    assert_eq!(matrix.display[0][0].c, 'ｱ');
    assert_eq!(frame, vec![Vec::<Cell>::new()]);

    let frame = frame_of(matrix.on_event(&mut rng, TermEvent::Redraw, 9));
    assert_eq!(matrix.display[0].len(), 1);
    assert_eq!(matrix.display[0][0].y, CELL);
    assert_eq!(frame.len(), 1);
    assert_eq!(frame[0].len(), 1);
    let cell = frame[0][0];
    assert_eq!(cell.col, 4);
    assert_eq!(cell.row, 1);
    assert_eq!(cell.fg, HEAD);
    assert_eq!(cell.c, matrix.display[0][0].c);
    assert!(cell.c == 'ｱ' || is_symbol(cell.c));
}

#[test]
fn stream_below_the_screen_is_replaced() {
    let mut rng = StdRng::seed_from_u64(4);
    let height: u16 = 5;
    let old = vec![
        Glyph::new(4 * CELL, (height as i64 + 1) * CELL, 10_000, 'ｱ'),
        Glyph::new(4 * CELL, (height as i64) * CELL, 10_000, 'ｲ'),
    ];
    let mut matrix = Matrix { width: 10, height, display: vec![old.clone()] };
    let frame = frame_of(matrix.on_event(&mut rng, TermEvent::Redraw, 1));
    assert_eq!(frame.len(), 1);
    assert!(frame[0].is_empty());
    let new = &matrix.display[0];
    assert!(*new != old);
    assert!(MIN_TRAIL <= new.len() && new.len() < MAX_TRAIL);
    assert!(ENTRY_TOP <= new[0].y && new[0].y < ENTRY_BOTTOM);
    for (i, g) in new.iter().enumerate() {
        assert_eq!(g.y, new[0].y - (i as i64) * CELL);
        assert_eq!(g.x, new[0].x);
        assert_eq!(g.vel, new[0].vel);
        assert!(0 <= g.x && g.x < 10 * CELL);
        assert!(is_symbol(g.c));
    }
}

#[test]
fn trail_is_drawn_on_the_frame_that_replaces_the_stream() {
    let mut rng = StdRng::seed_from_u64(4);
    let old = vec![
        Glyph::new(4 * CELL, 5 * CELL, 10_000, 'ｱ'),
        Glyph::new(4 * CELL, 4 * CELL, 10_000, 'ｲ'),
    ];
    let (after, cells) = step_stream(&old, &mut rng, 10, 5, 1);
    assert_eq!(cells.len(), 1);
    assert_eq!(cells[0].row, 4);
    assert_eq!(cells[0].col, 4);
    assert_eq!(cells[0].fg, Rgb { r: 10, g: 155, b: 10 });
    assert!(after[0].y < 0);
}

#[test]
fn exit_stops_and_changes_nothing() {
    let mut rng = StdRng::seed_from_u64(5);
    let mut matrix = Matrix::setup(&mut rng, 10, 5);
    let before = Matrix { width: 10, height: 5, display: matrix.display.clone() };
    assert_eq!(matrix.on_event(&mut rng, TermEvent::Exit, 1), Action::Stop);
    assert_eq!(matrix, before);
}

#[test]
fn resize_stores_the_size_and_keeps_the_buffer() {
    let mut rng = StdRng::seed_from_u64(6);
    let mut matrix = Matrix::setup(&mut rng, 10, 5);
    let _ = matrix.on_event(&mut rng, TermEvent::Redraw, 1);
    let before = matrix.display.clone();
    assert_eq!(matrix.on_event(&mut rng, TermEvent::Resize(40, 20), 1), Action::Wait);
    assert_eq!(matrix.width, 40);
    assert_eq!(matrix.height, 20);
    assert_eq!(matrix.display.len(), 20);
    assert_eq!(matrix.display, before);
}

#[test]
fn resize_to_nothing_is_stored() {
    let mut rng = StdRng::seed_from_u64(6);
    let mut matrix = Matrix::setup(&mut rng, 10, 5);
    assert_eq!(matrix.on_event(&mut rng, TermEvent::Resize(0, 0), 1), Action::Wait);
    assert_eq!((matrix.width, matrix.height), (0, 0));
    assert_eq!(matrix.display.len(), 20);
}

#[test]
fn setup_makes_two_streams_for_each_column() {
    let mut rng = StdRng::seed_from_u64(7);
    let matrix = Matrix::setup(&mut rng, 80, 24);
    assert_eq!(matrix.width, 80);
    assert_eq!(matrix.height, 24);
    assert_eq!(matrix.display.len(), 160);
    let wide = Matrix::setup(&mut rng, 40_000, 24);
    assert_eq!(wide.display.len(), 80_000);
    for stream in &matrix.display {
        assert!(MIN_TRAIL <= stream.len() && stream.len() < MAX_TRAIL);
        assert!(stream[0].x < 80 * CELL);
    }
}

#[test]
fn same_seed_same_animation() {
    let mut a = StdRng::seed_from_u64(8);
    let mut b = StdRng::seed_from_u64(8);
    let mut first = Matrix::setup(&mut a, 20, 10);
    let mut second = Matrix::setup(&mut b, 20, 10);
    for _ in 0..400 {
        let x = first.on_event(&mut a, TermEvent::Redraw, 9);
        let y = second.on_event(&mut b, TermEvent::Redraw, 9);
        assert_eq!(x, y);
    }
    assert_eq!(first, second);
}

#[test]
fn long_run_keeps_the_buffer_in_shape() {
    let mut rng = StdRng::seed_from_u64(9);
    let mut matrix = Matrix::setup(&mut rng, 20, 10);
    let mut drawn = 0;
    for _ in 0..2000 {
        let frame = frame_of(matrix.on_event(&mut rng, TermEvent::Redraw, 3));
        assert_eq!(frame.len(), 40);
        assert_eq!(matrix.display.len(), 40);
        for (stream, cells) in matrix.display.iter().zip(frame.iter()) {
            assert!(MIN_TRAIL <= stream.len() && stream.len() < MAX_TRAIL);
            for g in stream {
                assert_eq!(g.x, stream[0].x);
                assert_eq!(g.vel, stream[0].vel);
                assert!(g.y <= 10 * CELL);
            }
            for cell in cells {
                assert!(cell.col < 20);
                assert!(cell.row <= 10);
                assert!(is_symbol(cell.c));
                drawn += 1;
            }
        }
    }
    assert!(drawn > 0);
}

#[test]
fn quit_key_ends_the_animation() {
    assert_eq!(handle_term_event(TermInput::Key('q')), Some(TermEvent::Exit));
}

#[test]
fn resize_is_passed_on() {
    assert_eq!(handle_term_event(TermInput::Resized(40, 20)), Some(TermEvent::Resize(40, 20)));
    assert_eq!(handle_term_event(TermInput::Resized(0, 0)), Some(TermEvent::Resize(0, 0)));
}

#[test]
fn other_input_is_ignored() {
    assert_eq!(handle_term_event(TermInput::Key('Q')), None);
    assert_eq!(handle_term_event(TermInput::Key('x')), None);
    assert_eq!(handle_term_event(TermInput::Other), None);
}

#[test]
fn background_is_black() {
    assert_eq!(background(), Rgb { r: 0, g: 0, b: 0 });
}

#[test]
fn rain_stops_at_the_first_exit() {
    let mut rng = StdRng::seed_from_u64(10);
    let mut matrix = Matrix::setup(&mut rng, 10, 5);
    let events = vec![
        TermEvent::Redraw,
        TermEvent::Exit,
        TermEvent::Resize(40, 20),
        TermEvent::Redraw,
        TermEvent::Exit,
    ];
    let actions = matrix.rain(&mut rng, &events, 1);
    assert_eq!(actions.len(), 2);
    assert!(matches!(actions[0], Action::Draw(_)));
    assert_eq!(actions[1], Action::Stop);
    assert_eq!((matrix.width, matrix.height), (10, 5));
}

#[test]
fn rain_on_exit_alone_changes_nothing() {
    let mut rng = StdRng::seed_from_u64(10);
    let mut matrix = Matrix::setup(&mut rng, 10, 5);
    let before = matrix.display.clone();
    let actions = matrix.rain(&mut rng, &vec![TermEvent::Exit, TermEvent::Redraw], 1);
    assert_eq!(actions, vec![Action::Stop]);
    assert_eq!(matrix.display, before);
    assert_eq!((matrix.width, matrix.height), (10, 5));
}

#[test]
fn rain_ends_with_the_queue() {
    let mut rng = StdRng::seed_from_u64(11);
    let mut matrix = Matrix::setup(&mut rng, 10, 5);
    assert!(matrix.rain(&mut rng, &Vec::new(), 1).is_empty());
    let events = vec![TermEvent::Redraw, TermEvent::Resize(40, 20), TermEvent::Redraw];
    let actions = matrix.rain(&mut rng, &events, 1);
    assert_eq!(actions.len(), 3);
    assert!(matches!(actions[0], Action::Draw(_)));
    assert_eq!(actions[1], Action::Wait);
    assert!(matches!(actions[2], Action::Draw(_)));
    assert_eq!((matrix.width, matrix.height), (40, 20));
    assert_eq!(matrix.display.len(), 20);
}

#[test]
fn rain_does_what_single_events_do() {
    let mut a = StdRng::seed_from_u64(12);
    let mut b = StdRng::seed_from_u64(12);
    let mut queued = Matrix::setup(&mut a, 10, 5);
    let mut single = Matrix::setup(&mut b, 10, 5);
    let events = vec![TermEvent::Redraw, TermEvent::Resize(7, 3), TermEvent::Redraw];
    let actions = queued.rain(&mut a, &events, 40);
    for (event, action) in events.iter().zip(actions.iter()) {
        assert_eq!(single.on_event(&mut b, *event, 40), *action);
    }
    assert_eq!(queued, single);
}

#[test]
fn bounds_of_glyphs_and_buffers() {
    assert!(Glyph::new(0, 0, 0, 'a').is_in_bounds());
    assert!(Glyph::new(65536 * CELL - 1, 5_898_150_000, 1_000_000_000, 'a').is_in_bounds());
    assert!(Glyph::new(65536 * CELL - 1, -5_898_150_000, 0, 'a').is_in_bounds());
    assert!(!Glyph::new(65536 * CELL, 0, 0, 'a').is_in_bounds());
    assert!(!Glyph::new(-1, 0, 0, 'a').is_in_bounds());
    assert!(!Glyph::new(0, 5_898_150_001, 0, 'a').is_in_bounds());
    assert!(!Glyph::new(0, -5_898_150_001, 0, 'a').is_in_bounds());
    assert!(!Glyph::new(0, 0, -1, 'a').is_in_bounds());
    assert!(!Glyph::new(0, 0, 1_000_000_001, 'a').is_in_bounds());

    let good = Glyph::new(0, 0, 0, 'a');
    let bad = Glyph::new(0, 0, -1, 'a');
    assert!(is_stream_in_bounds(&Vec::new()));
    assert!(is_stream_in_bounds(&vec![good, good]));
    assert!(!is_stream_in_bounds(&vec![good, bad]));
    assert!(Matrix { width: 0, height: 0, display: Vec::new() }.is_wf());
    assert!(Matrix { width: 1, height: 1, display: vec![vec![good], Vec::new()] }.is_wf());
    assert!(!Matrix { width: 1, height: 1, display: vec![vec![good], vec![bad]] }.is_wf());
    let mut rng = StdRng::seed_from_u64(13);
    assert!(Matrix::setup(&mut rng, 30, 10).is_wf());
}

#[test]
fn head_sparkles_more_than_the_trail() {
    assert_eq!(HEAD_ODDS, 10);
    assert_eq!(TRAIL_ODDS, 15);
    assert_eq!(mutation_odds(0), 10);
    assert_eq!(mutation_odds(1), 15);
    assert_eq!(mutation_odds(12), 15);
}

#[test]
fn listener_ends_after_exit_or_a_closed_queue() {
    assert_eq!(QUIT_KEY, 'q');
    assert!(listens_on(None, true));
    assert!(listens_on(None, false));
    assert!(listens_on(Some(TermEvent::Resize(40, 20)), true));
    assert!(!listens_on(Some(TermEvent::Resize(40, 20)), false));
    assert!(!listens_on(Some(TermEvent::Exit), true));
    assert!(!listens_on(Some(TermEvent::Exit), false));
}

#[test]
fn settled_char_is_the_drawn_one_or_the_old_one() {
    assert_eq!(settle_char('x', None), 'x');
    assert_eq!(settle_char('x', Some('ｱ')), 'ｱ');
    assert_eq!(settle_char('ｱ', Some('ｱ')), 'ｱ');
}

#[test]
fn setup_without_columns_gives_an_empty_buffer() {
    let mut rng = StdRng::seed_from_u64(22);
    let untouched = rng.clone();
    let matrix = Matrix::setup(&mut rng, 0, 24);
    assert_eq!(matrix, Matrix { width: 0, height: 24, display: Vec::new() });
    assert_eq!(rng, untouched);
    let matrix = Matrix::setup(&mut rng, 0, 0);
    assert_eq!(matrix, Matrix { width: 0, height: 0, display: Vec::new() });
    assert_eq!(Matrix::setup(&mut rng, 1, 0).display.len(), 2);
    assert_eq!(Matrix::setup(&mut rng, u16::MAX, 3).display.len(), 131_070);
}

#[test]
fn empty_buffer_draws_empty_frames_until_exit() {
    let mut rng = StdRng::seed_from_u64(23);
    let mut matrix = Matrix::setup(&mut rng, 0, 24);
    assert!(matrix.is_tick_ready(1));
    assert_eq!(matrix.on_event(&mut rng, TermEvent::Redraw, 1), Action::Draw(Vec::new()));
    let events = vec![TermEvent::Redraw, TermEvent::Resize(0, 5), TermEvent::Redraw, TermEvent::Exit];
    let actions = matrix.rain(&mut rng, &events, 1);
    assert_eq!(
        actions,
        vec![Action::Draw(Vec::new()), Action::Wait, Action::Draw(Vec::new()), Action::Stop]
    );
    assert_eq!(matrix, Matrix { width: 0, height: 5, display: Vec::new() });
}

#[test]
fn rain_takes_a_resize_to_no_columns_before_exit() {
    let mut rng = StdRng::seed_from_u64(24);
    let mut matrix = Matrix::setup(&mut rng, 10, 5);
    let before = matrix.display.clone();
    let events = vec![TermEvent::Resize(0, 7), TermEvent::Exit, TermEvent::Redraw];
    let actions = matrix.rain(&mut rng, &events, 1);
    assert_eq!(actions, vec![Action::Wait, Action::Stop]);
    assert_eq!((matrix.width, matrix.height), (0, 7));
    assert_eq!(matrix.display, before);
}

#[test]
fn tick_without_columns_moves_streams_that_stay() {
    let mut rng = StdRng::seed_from_u64(25);
    let stream = vec![
        Glyph::new(2 * CELL, 2 * CELL, 9_000, 'ｱ'),
        Glyph::new(2 * CELL, CELL, 9_000, 'ｲ'),
        Glyph::new(2 * CELL, -CELL, 9_000, 'ｳ'),
    ];
    let mut matrix = Matrix { width: 0, height: 5, display: vec![stream.clone()] };
    assert!(matrix.is_tick_ready(1));
    let frame = frame_of(matrix.on_event(&mut rng, TermEvent::Redraw, 1));
    assert_eq!(frame[0].len(), 2);
    assert_eq!(matrix.display[0].len(), 3);
    for i in 0..3 {
        assert_eq!(matrix.display[0][i].y, stream[i].y + 9_000);
        assert_eq!(matrix.display[0][i].x, stream[i].x);
        assert_eq!(matrix.display[0][i].vel, stream[i].vel);
    }
    assert_eq!(matrix.display[0][2].c, 'ｳ');
    assert_eq!((matrix.width, matrix.height), (0, 5));
}

#[test]
fn tick_is_not_ready_where_a_stream_leaves_a_screen_without_columns() {
    let leaving = vec![Glyph::new(0, 5 * CELL, 9_000, 'ｱ')];
    let staying = vec![Glyph::new(0, 5 * CELL - 9_000, 9_000, 'ｱ')];
    assert!(stream_leaves(&leaving, 5, 1));
    assert!(!stream_leaves(&leaving, 5, 0));
    assert!(!stream_leaves(&staying, 5, 1));
    assert!(stream_leaves(&staying, 5, 2));
    assert!(!stream_leaves(&Vec::new(), 5, 1));
    let none = Matrix { width: 0, height: 5, display: vec![staying.clone(), leaving.clone()] };
    assert!(!none.is_tick_ready(1));
    assert!(none.is_tick_ready(0));
    let some = Matrix { width: 1, height: 5, display: vec![staying.clone(), leaving] };
    assert!(some.is_tick_ready(1));
    let calm = Matrix { width: 0, height: 5, display: vec![staying] };
    assert!(calm.is_tick_ready(1));
    assert!(!calm.is_tick_ready(2));
}

#[test]
fn one_tick_moves_every_glyph_once() {
    let mut rng = StdRng::seed_from_u64(26);
    let mut matrix = Matrix::setup(&mut rng, 20, 10);
    let before = matrix.display.clone();
    let _ = matrix.on_event(&mut rng, TermEvent::Redraw, 1);
    assert_eq!(matrix.display.len(), before.len());
    for (now, was) in matrix.display.iter().zip(before.iter()) {
        assert_eq!(now.len(), was.len());
        for (g, old) in now.iter().zip(was.iter()) {
            assert_eq!(*g, Glyph { y: old.y + old.vel, ..*old });
        }
    }
}
