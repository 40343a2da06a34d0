use walldeck::font::{Font, Glyph};
use walldeck::picker::{
    layout_fits, wrap_index, AnimPhase, AxisStep, Entry, FrameTiming, HeldKey, Key, Motion, Picker,
    PointerStep, Position, ScrollMove, Selection,
};
use walldeck::pixels::Pixels;
use walldeck::render::{icon_mask, Masks};
use walldeck::shape::{ring, rounded_rect, Coverage};
use walldeck::theme::Theme;

fn small_theme() -> Theme {
    let mut t = Theme::default();
    t.window_width = 30;
    t.window_height = 14;
    t.icon_size = 10;
    t.spacing = 4;
    t.padding = 2;
    t.corner_radius = 0;
    t.window_corner_radius = 0;
    t.search_bar_height = 24;
    t.search_bar_width = 26;
    t.search_bar_gap = 3;
    t.search_bar_corner_radius = 0;
    t.highlight_border_width = 1;
    t
}

fn entries(names: &[&str], size: u32) -> Vec<Entry> {
    names
        .iter()
        .enumerate()
        .map(|(i, n)| Entry {
            filename: n.to_string(),
            pixels: Pixels {
                width: size,
                height: size,
                data: vec![i as u8 + 1; (size * size * 4) as usize],
            },
        })
        .collect()
}

const NAMES: &[&str] = &["Alpha.jpg", "beta.png", "GAMMA.png", "delta.jpg", "İstanbul.png"];

fn opened() -> Picker {
    Picker::new(small_theme(), entries(NAMES, 10)).unwrap()
}

/// One that has finished opening.
fn ready() -> Picker {
    let mut p = opened();
    p.anim_phase = AnimPhase::Idle;
    p.needs_redraw = false;
    p
}

fn at(n: i64) -> Position {
    Position { whole: n, exact: true }
}

fn past(n: i64) -> Position {
    Position { whole: n, exact: false }
}

fn font() -> Font {
    Font {
        glyphs: "ABCDEFGHIJKLMNOPQRSTUVWXYZ.-İ"
            .chars()
            .map(|ch| Glyph { ch, rows: [31; 7] })
            .collect(),
    }
}

fn press(p: &mut Picker, key: Key) -> Option<ScrollMove> {
    p.press_key(key, 0, None, &font(), at(0))
}

fn type_in(p: &mut Picker, text: &str) -> Option<ScrollMove> {
    p.press_key(Key::Other, 0, Some(text), &font(), at(0))
}

fn still() -> Motion {
    Motion { scroll_moving: false, highlight_moving: false, phase_done: false, scroll_target: at(0) }
}

#[test]
fn wrap_index_loops_past_either_end() {
    assert_eq!(wrap_index(4, 1, 5), 0, "past the last entry loops to the first");
    assert_eq!(wrap_index(0, -1, 5), 4, "before the first entry loops to the last");
    assert_eq!(wrap_index(2, 1, 5), 3, "ordinary step is unaffected");
    assert_eq!(wrap_index(0, 0, 5), 0);
    assert_eq!(wrap_index(0, -7, 5), 3, "wraps correctly even past one full loop");
    assert_eq!(wrap_index(0, 0, 1), 0, "single-entry list never moves");
}

#[test]
fn nothing_opens_without_entries() {
    assert!(Picker::new(small_theme(), vec![]).is_none());
    let p = opened();
    assert_eq!(p.filtered, vec![0, 1, 2, 3, 4]);
    assert!(matches!(p.anim_phase, AnimPhase::Opening));
    assert_eq!((p.kbd_index, p.hover, p.chosen()), (0, None, None));
}

#[test]
fn layouts_have_to_be_countable() {
    let mut t = small_theme();
    assert!(layout_fits(&t, 0) && layout_fits(&t, 100_000_000));
    assert!(!layout_fits(&t, 200_000_000));
    t.window_height = i32::MAX - 20;
    assert!(!layout_fits(&t, 1));
    let mut t = small_theme();
    t.window_width = 30_000;
    t.window_height = 30_000;
    assert!(!layout_fits(&t, 1));
}

#[test]
fn cells_are_hit_where_they_are() {
    let p = ready();
    assert_eq!(p.cell_x(2), 30);
    assert_eq!(p.cell_at(at(0), at(2)), Some(0));
    assert_eq!(p.cell_at(past(9), at(12)), Some(0));
    assert_eq!(p.cell_at(at(10), at(2)), None, "the gap between two cells");
    assert_eq!(p.cell_at(at(14), at(5)), Some(1));
    assert_eq!(p.cell_at(at(14 * 4 + 9), at(5)), Some(4));
    assert_eq!(p.cell_at(at(14 * 5), at(5)), None, "past the last cell");
    assert_eq!(p.cell_at(past(-1), at(5)), None);
    assert_eq!(p.cell_at(at(0), past(1)), None);
    assert_eq!(p.cell_at(at(0), past(12)), None);
    assert_eq!(p.cell_at(at(i64::MAX), at(5)), None);
}

#[test]
fn scrolling_has_bounds() {
    let p = ready();
    // 2 * 2 + 5 * 10 + 4 * 4 - 30
    assert_eq!(p.max_scroll(), 40);
    assert_eq!(p.set_scroll_target(past(-1)), Some(0));
    assert_eq!(p.set_scroll_target(at(0)), None);
    assert_eq!(p.set_scroll_target(at(40)), None);
    assert_eq!(p.set_scroll_target(past(40)), Some(40));
    let wide = Picker::new(Theme::default(), entries(&["a.jpg"], 350)).unwrap();
    assert_eq!(wide.max_scroll(), 0);
}

#[test]
fn the_selection_is_followed() {
    let p = ready();
    assert_eq!(p.scroll_into_view(0, at(0)), None);
    assert_eq!(p.scroll_into_view(2, at(0)), Some(ScrollMove { target: 12, stop: false }));
    assert_eq!(p.scroll_into_view(4, at(0)), Some(ScrollMove { target: 40, stop: false }));
    assert_eq!(p.scroll_into_view(1, at(20)), Some(ScrollMove { target: 14, stop: false }));
    assert_eq!(p.scroll_into_view(1, past(16)), Some(ScrollMove { target: 14, stop: false }));
    assert_eq!(p.scroll_into_view(1, at(16)), None);
}

#[test]
fn the_arrows_cycle_and_the_ends_clamp() {
    let mut p = ready();
    assert_eq!(press(&mut p, Key::Left), Some(ScrollMove { target: 40, stop: false }));
    assert_eq!(p.kbd_index, 4);
    press(&mut p, Key::Right);
    assert_eq!(p.kbd_index, 0);
    press(&mut p, Key::End);
    assert_eq!(p.kbd_index, 4);
    assert_eq!(press(&mut p, Key::End), None, "already there");
    press(&mut p, Key::Home);
    assert_eq!(p.kbd_index, 0);
    assert_eq!(p.set_kbd_cursor(-3, at(0)), None);
    p.set_kbd_cursor(2, at(0));
    assert_eq!(p.kbd_index, 2);
    p.move_kbd_cursor(-13, at(0));
    assert_eq!(p.kbd_index, 4);
}

#[test]
fn the_keyboard_takes_over_from_the_pointer() {
    let mut p = ready();
    p.pointer_moved(at(14), at(5));
    assert_eq!((p.hover, p.kbd_index, p.needs_redraw), (Some(1), 1, true));
    press(&mut p, Key::Right);
    assert_eq!((p.hover, p.kbd_index), (None, 2));
    p.pointer_moved(at(0), at(5));
    p.pointer_left();
    assert_eq!((p.hover, p.kbd_index), (None, 0));
}

#[test]
fn typing_filters_without_regard_to_case() {
    let mut p = ready();
    assert_eq!(type_in(&mut p, "ta"), Some(ScrollMove { target: 0, stop: false }));
    assert_eq!(p.search, "ta");
    assert_eq!(p.filtered, vec![1, 3, 4]);
    press(&mut p, Key::Right);
    type_in(&mut p, "?.j\u{7}");
    assert_eq!((p.search.as_str(), p.kbd_index), ("ta.j", 0), "what has no glyph is not typed");
    assert_eq!(p.filtered, vec![3]);
    assert_eq!(type_in(&mut p, "??"), None);
    press(&mut p, Key::Backspace);
    press(&mut p, Key::Backspace);
    assert_eq!(p.search, "ta");
    assert_eq!(p.filtered, vec![1, 3, 4]);
    type_in(&mut p, "zzz");
    assert!(p.filtered.is_empty());
    assert_eq!(p.max_scroll(), 0);
    assert_eq!(p.highlight_target(), None);
    assert_eq!(press(&mut p, Key::Enter), None);
    assert!(!p.is_closing(), "there is nothing to pick");
    assert_eq!(press(&mut p, Key::Left), None);
    assert_eq!(press(&mut p, Key::End), None);
    press(&mut p, Key::Escape);
    assert_eq!(p.search, "");
    assert_eq!(p.filtered, vec![0, 1, 2, 3, 4]);
    assert_eq!(press(&mut p, Key::Backspace), None);
}

#[test]
fn searches_fold_wide_letters_too() {
    let mut p = ready();
    type_in(&mut p, "İST");
    assert_eq!(p.search, "İST");
    assert_eq!(p.filtered, vec![4]);
}

#[test]
fn escape_clears_the_search_and_then_closes() {
    let mut p = ready();
    type_in(&mut p, "a");
    press(&mut p, Key::Escape);
    assert!(!p.is_closing());
    press(&mut p, Key::Escape);
    assert!(p.is_closing());
    assert_eq!(p.pending_result, Some(Selection::Cancelled));
    assert_eq!(p.chosen(), None);
}

#[test]
fn enter_picks_and_the_result_waits_for_the_animation() {
    let mut p = ready();
    type_in(&mut p, "ta");
    press(&mut p, Key::Right);
    press(&mut p, Key::Enter);
    assert!(p.is_closing());
    assert_eq!((p.result, p.held_key), (None, None));
    press(&mut p, Key::Escape);
    assert_eq!(p.pending_result, Some(Selection::Picked(3)), "input is ignored while closing");
    p.advance(10, still());
    assert_eq!(p.result, None);
    p.advance(20, Motion { phase_done: true, ..still() });
    assert_eq!(p.result, Some(Selection::Picked(3)));
    assert_eq!(p.chosen().unwrap(), "delta.jpg");
}

#[test]
fn a_click_picks_what_is_under_it() {
    let mut p = ready();
    p.pointer_pressed(0x111, at(14), at(5));
    p.pointer_pressed(0x110, at(11), at(5));
    assert!(!p.is_closing());
    p.pointer_pressed(0x110, at(14), at(5));
    p.pointer_pressed(0x110, at(0), at(5));
    assert_eq!(p.pending_result, Some(Selection::Picked(1)), "the first selection stands");
}

#[test]
fn a_lost_surface_cancels() {
    let mut p = ready();
    press(&mut p, Key::Enter);
    p.closed();
    assert_eq!(p.result, Some(Selection::Cancelled));
    assert_eq!(p.chosen(), None);
}

#[test]
fn a_held_key_repeats_after_a_delay() {
    let mut p = ready();
    p.press_key(Key::Right, 1000, None, &font(), at(0));
    assert_eq!(p.held_key, Some(HeldKey { dir: 1, pressed_at: 1000, last_repeat: 1000 }));
    p.advance(1399, still());
    assert_eq!(p.kbd_index, 1);
    p.advance(1400, still());
    assert_eq!(p.kbd_index, 2);
    p.advance(1439, still());
    assert_eq!(p.kbd_index, 2);
    assert_eq!(
        p.advance(1440, Motion { scroll_target: at(12), ..still() }),
        Some(ScrollMove { target: 26, stop: false })
    );
    assert_eq!(p.kbd_index, 3);
    p.release_key(Key::Home);
    assert!(p.held_key.is_some());
    p.release_key(Key::Right);
    p.advance(2000, still());
    assert_eq!(p.kbd_index, 3);
    p.press_key(Key::Left, u32::MAX, None, &font(), at(0));
    p.advance(399, still());
    assert_eq!(p.kbd_index, 1, "the clock wraps around");
    p.leave();
    assert_eq!(p.held_key, None);
}

#[test]
fn frames_are_paced() {
    let mut p = opened();
    p.configure();
    assert!(p.kick(false));
    assert!(!p.kick(true), "one frame is in flight");
    p.frame_shown();
    let t = p.begin_frame(100);
    assert_eq!(t, FrameTiming { since_last: None, phase: AnimPhase::Opening, elapsed: 0 });
    p.advance(100, still());
    assert!(p.needs_redraw && p.kick(false));
    p.frame_shown();
    let t = p.begin_frame(316);
    assert_eq!(t, FrameTiming { since_last: Some(216), phase: AnimPhase::Opening, elapsed: 216 });
    p.advance(316, Motion { phase_done: true, ..still() });
    assert!(matches!(p.anim_phase, AnimPhase::Idle));
    assert!(p.kick(false));
    p.frame_shown();
    p.begin_frame(332);
    p.advance(332, still());
    assert!(!p.kick(false), "at rest");
    assert!(p.kick(true), "momentum keeps it going");
    p.frame_shown();
    p.advance(350, Motion { highlight_moving: true, ..still() });
    assert!(!p.highlight_settled && p.animating(false));
}

#[test]
fn the_ring_follows_the_selection() {
    let mut p = ready();
    assert_eq!(p.highlight_target(), Some(2));
    p.pointer_moved(at(28), at(5));
    assert_eq!(p.highlight_target(), Some(30));
}

#[test]
fn scroll_events_measure_their_gap() {
    let mut p = ready();
    assert_eq!(p.axis(10), AxisStep { since_last: None, fresh: false });
    assert_eq!(p.axis(10), AxisStep { since_last: Some(1), fresh: false });
    assert_eq!(p.axis(160), AxisStep { since_last: Some(150), fresh: false });
    assert_eq!(p.axis(311), AxisStep { since_last: Some(151), fresh: true });
}

#[test]
fn pointer_input_comes_in_frames() {
    let mut p = ready();
    let steps = vec![
        PointerStep::Moved { x: at(28), y: at(5) },
        PointerStep::Scrolled { time: 10 },
        PointerStep::Left,
        PointerStep::Scrolled { time: 200 },
    ];
    assert_eq!(
        p.pointer_frame(&steps),
        vec![
            None,
            Some(AxisStep { since_last: None, fresh: false }),
            None,
            Some(AxisStep { since_last: Some(190), fresh: true }),
        ]
    );
    assert_eq!((p.kbd_index, p.hover, p.needs_redraw), (2, None, true));
    assert_eq!(p.last_axis_time, Some(200));
    assert!(!p.is_closing());
    assert_eq!(p.pointer_frame(&vec![]), vec![]);
}

#[test]
fn a_frame_is_read_to_its_end() {
    let mut p = ready();
    let steps = vec![
        PointerStep::Pressed { button: 0x111, x: at(0), y: at(5) },
        PointerStep::Pressed { button: 0x110, x: at(14), y: at(5) },
        PointerStep::Pressed { button: 0x110, x: at(0), y: at(5) },
        PointerStep::Moved { x: at(28), y: at(5) },
        PointerStep::Scrolled { time: 7 },
    ];
    assert_eq!(p.pointer_frame(&steps)[4], Some(AxisStep { since_last: None, fresh: false }));
    assert!(p.is_closing());
    assert_eq!(p.pending_result, Some(Selection::Picked(1)), "the first selection stands");
    assert_eq!((p.hover, p.kbd_index), (Some(2), 2), "what follows the click still counts");
    assert_eq!(p.last_axis_time, Some(7));
    // The next frame finds the picker closing.
    let later = vec![PointerStep::Left, PointerStep::Scrolled { time: 9 }];
    assert_eq!(p.pointer_frame(&later), vec![None, None]);
    assert_eq!((p.hover, p.last_axis_time), (Some(2), Some(7)));
}

/// The fraction of a pixel that a coverage stands for.
fn fraction(c: Coverage) -> f64 {
    match c {
        Coverage::Empty => 0.0,
        Coverage::Solid => 1.0,
        Coverage::Edge { qx, qy, r } => {
            let (qx, qy, r) = (qx as f64 / 2.0, qy as f64 / 2.0, r as f64 / 2.0);
            let outside = (qx.max(0.0).powi(2) + qy.max(0.0).powi(2)).sqrt();
            let inside = qx.max(qy).min(0.0);
            (0.5 - (outside + inside - r)).clamp(0.0, 1.0)
        }
    }
}

/// An opacity in 0.0 to 1.0 as a byte.
fn quantize(alpha: f64) -> u8 {
    (alpha.clamp(0.0, 1.0) * 255.0 + 0.5) as u8
}

#[test]
fn thumbnails_are_dimmed_by_their_alpha() {
    for dim in 0..=255u8 {
        let data: Vec<u8> = (0..=255u8).flat_map(|a| [0, 0, 0, a]).collect();
        let pixels = Pixels { width: 16, height: 16, data };
        let want: Vec<u8> = (0..=255u8)
            .map(|a| quantize((a as f64 / 255.0) * (dim as f64 / 255.0)))
            .collect();
        assert_eq!(icon_mask(&vec![Coverage::Solid; 256], &pixels, dim, &vec![0; 256]), want);
        assert_eq!(
            icon_mask(&vec![Coverage::Empty; 256], &pixels, dim, &vec![255; 256]),
            vec![0; 256]
        );
    }
    let edge = Coverage::Edge { qx: 1, qy: 1, r: 2 };
    let pixels = Pixels { width: 2, height: 1, data: vec![1, 2, 3, 200, 1, 2, 3, 200] };
    assert_eq!(icon_mask(&vec![edge; 2], &pixels, 128, &vec![60, 180]), vec![60, 100]);
}

#[test]
fn opacities_are_held_to_the_shapes() {
    let mut t = small_theme();
    t.window_corner_radius = 7;
    t.search_bar_corner_radius = 12;
    t.corner_radius = 4;
    t.highlight_border_width = 2;
    t.background.0[3] = 200;
    t.highlight_border.0[3] = 90;
    t.dim_opacity = 140;
    let es = entries(&["a", "b"], 10);
    let shape = |w: i32, h: i32, r: i32, a: f64| -> Vec<u8> {
        rounded_rect(w, h, r).iter().map(|&c| quantize(a * fraction(c))).collect()
    };
    let icon = |i: usize, dim: f64| shape(10, 10, 4, (i + 1) as f64 / 255.0 * dim);
    let exact = Masks {
        panel: shape(30, 14, 7, 200.0 / 255.0),
        pill: shape(26, 24, 12, t.search_bar_background.0[3] as f64 / 255.0),
        ring: ring(10, 4, 2)
            .iter()
            .map(|&(o, i)| quantize(90.0 / 255.0 * (fraction(o) * (1.0 - fraction(i)))))
            .collect(),
        lit: (0..2).map(|i| icon(i, 1.0)).collect(),
        dim: (0..2).map(|i| icon(i, 140.0 / 255.0)).collect(),
    };
    // Rounded opacities along the edges, and nothing else, are taken over.
    let m = Masks::shaped(&t, &es, &exact);
    assert_eq!((&m.panel, &m.pill, &m.ring), (&exact.panel, &exact.pill, &exact.ring));
    assert_eq!((&m.lit, &m.dim), (&exact.lit, &exact.dim));
    let none = Masks {
        panel: vec![0; 30 * 14],
        pill: vec![0; 26 * 24],
        ring: vec![255; 14 * 14],
        lit: vec![vec![255; 100]; 2],
        dim: vec![vec![255; 100]; 2],
    };
    let m = Masks::shaped(&t, &es, &none);
    assert_eq!((m.panel[0], m.panel[7 * 30 + 15]), (0, 200));
    assert_eq!(m.pill[12 * 26 + 13], t.search_bar_background.0[3]);
    assert_eq!((m.ring[0], m.ring[7 * 14], m.ring[7 * 14 + 7]), (0, 90, 0));
    assert!(m.ring.iter().all(|&a| a <= 90));
    assert_eq!((m.lit[1][55], m.dim[1][55], m.dim[0][55], m.lit[0][0]), (2, 1, 1, 0));
    assert!(m.fits(&Picker::new(t, es).unwrap()));
}

fn masks(p: &Picker) -> Masks {
    let n = p.entries.len();
    let mut ring = vec![255u8; 144];
    for y in 1..11 {
        for x in 1..11 {
            ring[y * 12 + x] = 0;
        }
    }
    Masks {
        panel: vec![255; 30 * 14],
        pill: vec![255; 26 * 24],
        ring,
        lit: vec![vec![255; 100]; n],
        dim: vec![vec![0; 100]; n],
    }
}

#[test]
fn the_picture_is_composed() {
    let mut p = ready();
    let m = masks(&p);
    assert!(m.fits(&p) && p.can_render(0, 2));
    assert_eq!(p.theme.surface_height(), 41);
    let mut px = vec![0u8; 30 * 41 * 4];
    p.press_key(Key::Other, 0, Some("a"), &font(), at(0));
    p.render_content(&mut px, &m, &font(), 0, 2);
    let at = |x: usize, y: usize| px[(y * 30 + x) * 4..(y * 30 + x) * 4 + 4].to_vec();
    assert_eq!(at(29, 13), vec![0x2e, 0x1e, 0x1e, 255], "the panel");
    assert_eq!(at(0, 15), vec![0; 4], "the gap");
    assert_eq!(at(1, 20), vec![0; 4], "beside the search bar");
    assert_eq!(at(28, 20), vec![0; 4], "on its other side");
    assert_eq!(at(2, 17), vec![0x25, 0x18, 0x18, 255], "the search bar");
    assert_eq!(at(4, 18), vec![0xf4, 0xd6, 0xcd, 255], "a letter");
    assert_eq!(at(19, 18), vec![0x25, 0x18, 0x18, 255], "the space behind it");
    assert_eq!(at(24, 18), vec![0xf4, 0xd6, 0xcd, 255], "the cursor");
    assert_eq!(at(26, 18), vec![0x25, 0x18, 0x18, 255]);
    assert_eq!(at(2, 2), vec![1, 1, 1, 255], "the selected thumbnail");
    assert_eq!(at(16, 2), vec![0x2e, 0x1e, 0x1e, 255], "a dim one, here invisible");
    assert_eq!(at(1, 1), vec![0xaf, 0xe2, 0xf9, 255], "the ring");
    assert_eq!(at(12, 12), vec![0xaf, 0xe2, 0xf9, 255]);
}

#[test]
fn masks_and_positions_are_checked() {
    let p = ready();
    let mut m = masks(&p);
    m.ring.pop();
    assert!(!m.fits(&p));
    let mut m = masks(&p);
    m.dim.pop();
    assert!(!m.fits(&p));
    let mut m = masks(&p);
    m.lit[3] = vec![0; 99];
    assert!(!m.fits(&p));
    assert!(!p.can_render(-1, 0));
    assert!(p.can_render(i32::MAX, 0) && !p.can_render(i32::MAX, -1));
}
