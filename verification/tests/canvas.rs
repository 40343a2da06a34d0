use walldeck::canvas::{blend_over, blit_rounded, draw_rect, draw_ring, present, present_transformed};
use walldeck::font::{draw_text, Font, Glyph};
use walldeck::pixels::Pixels;
use walldeck::shape::{
    ring, ring_mask, ring_opacities, rounded_rect, rounded_rect_coverage, shape_mask, Coverage,
};

/// The fraction of a pixel that a coverage stands for.
fn fraction(c: Coverage) -> f64 {
    match c {
        Coverage::Empty => 0.0,
        Coverage::Solid => 1.0,
        Coverage::Edge { qx, qy, r } => {
            let (qx, qy, r) = (qx as f64 / 2.0, qy as f64 / 2.0, r as f64 / 2.0);
            let outside = (qx.max(0.0).powi(2) + qy.max(0.0).powi(2)).sqrt();
            let inside = qx.max(qy).min(0.0);
            (0.5 - (outside + inside - r)).clamp(0.0, 1.0)
        }
    }
}

fn coverage(x: i32, y: i32, w: i32, h: i32, radius: i32) -> f64 {
    fraction(rounded_rect_coverage(x, y, w, h, radius))
}

/// An opacity in 0.0 to 1.0 as a byte.
fn opacity(alpha: f64) -> u8 {
    (alpha.clamp(0.0, 1.0) * 255.0 + 0.5) as u8
}

/// Brute-force ground truth: supersample the pixel against the exact shape.
fn supersampled(x: i32, y: i32, w: i32, h: i32, radius: i32) -> f64 {
    const N: i32 = 16;
    let (wf, hf, r) = (w as f64, h as f64, radius as f64);
    let mut hits = 0;
    for sy in 0..N {
        for sx in 0..N {
            let px = x as f64 + (sx as f64 + 0.5) / N as f64;
            let py = y as f64 + (sy as f64 + 0.5) / N as f64;
            if px < 0.0 || py < 0.0 || px > wf || py > hf {
                continue;
            }
            let cx = px.clamp(r, wf - r);
            let cy = py.clamp(r, hf - r);
            let (dx, dy) = (px - cx, py - cy);
            if dx * dx + dy * dy <= r * r {
                hits += 1;
            }
        }
    }
    hits as f64 / (N * N) as f64
}

const SHAPES: &[(i32, i32, i32)] = &[(20, 20, 8), (64, 40, 12), (1179, 370, 20), (300, 44, 22)];

#[test]
fn corners_are_antialiased_not_stepped() {
    let fractional = (0..20)
        .flat_map(|y| (0..20).map(move |x| (x, y)))
        .filter(|&(x, y)| {
            let c = coverage(x, y, 20, 20, 8);
            c > 0.001 && c < 0.999
        })
        .count();
    assert!(fractional > 20, "expected a soft edge, got {fractional} partial pixels");
}

#[test]
fn coverage_tracks_the_true_shape() {
    for &(w, h, r) in SHAPES {
        for y in -1..h + 1 {
            for x in -1..w + 1 {
                let got = coverage(x, y, w, h, r);
                let want = supersampled(x, y, w, h, r);
                assert!(
                    (got - want).abs() < 0.06,
                    "{w}x{h} r{r} at ({x},{y}): {got} vs {want}"
                );
            }
        }
    }
}

#[test]
fn interior_is_solid_and_exterior_is_empty() {
    for &(w, h, r) in SHAPES {
        for y in -1..h + 1 {
            for x in -1..w + 1 {
                let c = coverage(x, y, w, h, r);
                if x >= r && x < w - r && y >= r && y < h - r {
                    assert_eq!(c, 1.0, "haze inside {w}x{h} r{r} at ({x},{y})");
                }
                if x < -1 || y < -1 || x > w || y > h {
                    assert_eq!(c, 0.0, "bleed outside {w}x{h} r{r} at ({x},{y})");
                }
            }
        }
    }
}

#[test]
fn zero_radius_is_a_plain_rect() {
    assert_eq!(coverage(0, 0, 10, 10, 0), 1.0);
    assert_eq!(coverage(9, 9, 10, 10, 0), 1.0);
    assert_eq!(coverage(-1, 0, 10, 10, 0), 0.0);
    assert_eq!(coverage(10, 0, 10, 10, 0), 0.0);
}

#[test]
fn distances_are_exact() {
    // The corner pixel of a 20 by 20 box with radius 8: its center is 7.5
    // pixels from the corner circle's in both directions.
    assert_eq!(rounded_rect_coverage(0, 0, 20, 20, 8), Coverage::Edge { qx: 15, qy: 15, r: 16 });
    assert_eq!(rounded_rect_coverage(19, 19, 20, 20, 8), Coverage::Edge { qx: 15, qy: 15, r: 16 });
    // A radius that is too large is held to half the shorter side.
    assert_eq!(rounded_rect_coverage(0, 0, 9, 5, 99), Coverage::Edge { qx: 4, qy: 4, r: 5 });
    assert_eq!(rounded_rect_coverage(10, 0, 20, 20, 8), Coverage::Solid);
    assert_eq!(rounded_rect_coverage(-2, 10, 20, 20, 8), Coverage::Empty);
}

#[test]
fn tables_run_row_by_row() {
    let t = rounded_rect(3, 2, 0);
    assert_eq!(t, vec![Coverage::Solid; 6]);
    assert!(rounded_rect(0, 5, 1).is_empty());
    let t = rounded_rect(20, 16, 5);
    assert_eq!(t.len(), 320);
    assert_eq!(t[20 * 3 + 1], rounded_rect_coverage(1, 3, 20, 16, 5));
    let r = ring(10, 4, 2);
    assert_eq!(r.len(), 14 * 14);
    assert_eq!(r[7 * 14 + 7], (Coverage::Solid, Coverage::Solid));
    assert_eq!(r[7 * 14].0, Coverage::Solid);
    assert_eq!(r[7 * 14].1, rounded_rect_coverage(-2, 5, 10, 10, 4));
    assert!(ring(10, 4, 0).is_empty());
}

#[test]
fn opaque_blend_replaces_and_transparent_blend_preserves() {
    let mut px = [0u8; 4];
    blend_over(&mut px, 0, [255, 128, 64], opacity(1.0));
    assert_eq!(px, [64, 128, 255, 255], "BGRA byte order, fully opaque");

    let mut px = [10u8, 20, 30, 255];
    blend_over(&mut px, 0, [255, 255, 255], opacity(0.0));
    assert_eq!(px, [10, 20, 30, 255], "zero alpha must be a no-op");
}

#[test]
fn half_coverage_is_premultiplied() {
    // Over a transparent canvas, a 50%-covered white pixel must come out
    // at half intensity *and* half alpha -- that pairing is what makes an
    // antialiased edge blend correctly instead of haloing.
    let mut px = [0u8; 4];
    blend_over(&mut px, 0, [255, 255, 255], opacity(0.5));
    assert_eq!(px, [128, 128, 128, 128]);
}

#[test]
fn blending_rounds_to_nearest() {
    let mut px = [9u8, 100, 50, 200, 1, 2, 3, 4];
    blend_over(&mut px, 4, [30, 20, 10], 100);
    assert_eq!(px[..4], [9, 100, 50, 200]);
    // (10 * 100 + 1 * 155 + 127) / 255, and so on; alpha is cut off.
    assert_eq!(px[4..], [5, 9, 14, 102]);
}

#[test]
fn rectangles_are_cut_off_at_the_canvas() {
    let mut px = [0u8; 3 * 2 * 4];
    draw_rect(&mut px, 3, 2, -1, 1, 2, 9, [1, 2, 3]);
    let mut want = [0u8; 24];
    want[12..16].copy_from_slice(&[1, 2, 3, 255]);
    assert_eq!(px, want);
    draw_rect(&mut px, 3, 2, 0, 0, 0, 5, [9, 9, 9]);
    draw_rect(&mut px, 3, 2, 5, 5, 2, 2, [9, 9, 9]);
    draw_rect(&mut px, 3, 2, i32::MAX, 0, i32::MAX, 1, [9, 9, 9]);
    assert_eq!(px, want);
}

fn letters() -> Font {
    Font {
        glyphs: vec![
            Glyph { ch: 'I', rows: [0b00100; 7] },
            Glyph { ch: 'L', rows: [16, 16, 16, 16, 16, 16, 31] },
        ],
    }
}

#[test]
fn letters_are_blocks() {
    let font = letters();
    assert!(font.is_searchable('i') && font.is_searchable('L') && !font.is_searchable('x'));
    assert!(!font.is_searchable('\u{131}'));
    let (w, h) = (24, 16);
    let mut px = vec![0u8; (w * h * 4) as usize];
    let end = draw_text(&mut px, w, h, &font, "iL", 0, 1, 2, [7, 8, 9]);
    assert_eq!(end, 24);
    let at = |x: usize, y: usize| px[(y * 24 + x) * 4..(y * 24 + x) * 4 + 4].to_vec();
    let (ink, none) = (vec![7, 8, 9, 255], vec![0, 0, 0, 0]);
    assert_eq!(at(4, 1), ink);
    assert_eq!(at(5, 14), ink);
    assert_eq!(at(6, 1), none);
    assert_eq!(at(4, 0), none);
    assert_eq!(at(4, 15), none);
    assert_eq!(at(12, 1), ink);
    assert_eq!(at(14, 1), none);
    assert_eq!(at(21, 13), ink);
    assert_eq!(at(22, 13), none);
}

#[test]
fn characters_without_a_glyph_leave_a_gap() {
    let font = letters();
    let mut px = vec![0u8; 18 * 7 * 4];
    assert_eq!(draw_text(&mut px, 18, 7, &font, "?I", 0, 0, 1, [1, 1, 1]), 12);
    assert_eq!(px[8 * 4 + 3], 255);
    assert!(px[..8 * 4].iter().all(|&b| b == 0));
    assert_eq!(draw_text(&mut px, 18, 7, &font, "", 5, 0, 1, [1, 1, 1]), 5);
}

#[test]
fn images_are_blended_with_their_mask() {
    let src = Pixels { width: 2, height: 1, data: vec![10, 20, 30, 255, 40, 50, 60, 255] };
    let mut px = vec![0u8; 2 * 2 * 4];
    blit_rounded(&mut px, 2, 2, &src, &[255, 128], 1, 0);
    assert_eq!(px[4..8], [30, 20, 10, 255]);
    assert_eq!(px[..4], [0; 4]);
    assert_eq!(px[8..], [0; 8]);
    blit_rounded(&mut px, 2, 2, &src, &[255, 128], -1, 1);
    assert_eq!(px[8..12], [30, 25, 20, 128]);
}

#[test]
fn rings_are_drawn_around_the_box() {
    let mut px = vec![0u8; 4 * 4 * 4];
    let mut alpha = vec![255u8; 16];
    for k in [5, 6, 9, 10] {
        alpha[k] = 0;
    }
    draw_ring(&mut px, 4, 4, 1, 1, 2, 1, [1, 2, 3], &alpha);
    for y in 0..4 {
        for x in 0..4 {
            let p = &px[(y * 4 + x) * 4..(y * 4 + x) * 4 + 4];
            let inner = (1..3).contains(&x) && (1..3).contains(&y);
            assert_eq!(p, if inner { [0, 0, 0, 0] } else { [3, 2, 1, 255] });
        }
    }
    let before = px.clone();
    draw_ring(&mut px, 4, 4, 0, 0, 4, 0, [9, 9, 9], &[]);
    assert_eq!(px, before);
}

#[test]
fn finished_content_is_copied_to_the_front() {
    let mut canvas = [9u8; 10];
    present(&mut canvas, &[1, 2, 3, 4, 5, 6, 7, 8]);
    assert_eq!(canvas, [1, 2, 3, 4, 5, 6, 7, 8, 9, 9]);
}

#[test]
fn scaled_content_is_looked_up_and_faded() {
    let content = [10u8, 20, 30, 40, 50, 60, 70, 1];
    let fade: Vec<u8> = (0..=255u8).map(|v| v / 2).collect();
    let mut canvas = [9u8; 4 * 2 + 4 + 3];
    present_transformed(&mut canvas, &content, 2, 1, &[Some(1), Some(0)], &[Some(0)], &fade);
    // The second pixel of the content fades away.
    assert_eq!(canvas, [0, 0, 0, 0, 5, 10, 15, 20, 0, 0, 0, 0, 9, 9, 9]);
    let mut canvas = [9u8; 8];
    present_transformed(&mut canvas, &content, 2, 1, &[None, Some(0)], &[None], &fade);
    assert_eq!(canvas, [0; 8]);
}

#[test]
fn an_unscaled_picture_is_shown_as_it_is() {
    let content = [10u8, 20, 30, 40, 0, 0, 0, 0];
    let same: Vec<u8> = (0..=255u8).collect();
    let mut a = [9u8; 8];
    let mut b = [9u8; 8];
    present_transformed(&mut a, &content, 2, 1, &[Some(0), Some(1)], &[Some(0)], &same);
    present(&mut b, &content);
    assert_eq!(a, b);
}

#[test]
fn a_ring_has_no_share_in_its_inside() {
    let table = ring(10, 4, 2);
    let alpha = ring_opacities(&table, &vec![200; 14 * 14]);
    assert_eq!(alpha.len(), 14 * 14);
    assert_eq!(alpha[7 * 14 + 7], 0, "the inside");
    assert_eq!(alpha[7 * 14], 200, "the ring");
    let inside = (0..14 * 14).filter(|&k| table[k].1 == Coverage::Solid).count();
    assert_eq!(alpha.iter().filter(|&&a| a == 0).count(), inside);
    let odd = vec![
        (Coverage::Empty, Coverage::Empty),
        (Coverage::Solid, Coverage::Empty),
        (Coverage::Solid, Coverage::Solid),
        (Coverage::Solid, Coverage::Edge { qx: 1, qy: 1, r: 3 }),
    ];
    assert_eq!(ring_opacities(&odd, &vec![9, 8, 7, 6]), vec![0, 8, 0, 6]);
}

#[test]
fn straight_sides_are_solid_and_the_outside_is_bare() {
    for &(w, h, r) in SHAPES {
        for x in r..w - r {
            assert_eq!(rounded_rect_coverage(x, 0, w, h, r), Coverage::Solid);
        }
        for y in -1..h + 1 {
            assert_eq!(coverage(-1, y, w, h, r), 0.0);
            assert_eq!(coverage(w, y, w, h, r), 0.0);
        }
    }
}

#[test]
fn shapes_have_their_colors_alpha() {
    for &(w, h, r) in SHAPES {
        let table = rounded_rect(w, h, r);
        for alpha in [0u8, 1, 77, 254, 255] {
            let raw: Vec<u8> =
                table.iter().map(|&c| opacity(alpha as f64 / 255.0 * fraction(c))).collect();
            assert_eq!(shape_mask(&table, alpha, &raw), raw);
        }
        // Wrong opacities are put right everywhere but along the edges.
        let wrong = shape_mask(&table, 200, &vec![255; table.len()]);
        for (k, &c) in table.iter().enumerate() {
            assert_eq!(wrong[k], if fraction(c) == 0.0 { 0 } else { 200 });
        }
    }
}

#[test]
fn rings_have_their_colors_alpha() {
    for (size, radius, width) in [(10, 4, 2), (10, 0, 1), (350, 12, 3), (7, 3, 20), (9, 2, 0)] {
        let table = ring(size, radius, width);
        for alpha in [0u8, 90, 255] {
            let raw: Vec<u8> = table
                .iter()
                .map(|&(o, i)| {
                    opacity(alpha as f64 / 255.0 * (fraction(o) * (1.0 - fraction(i))))
                })
                .collect();
            assert_eq!(ring_mask(size, radius, width, alpha, &raw), raw);
        }
    }
    let plain = ring_mask(2, 0, 1, 90, &vec![7; 16]);
    assert_eq!(plain[1..3], [90, 90], "the ring itself");
    assert_eq!(plain[5..7], [0, 0], "its inside");
    assert_eq!(ring_mask(2, 0, 1, 90, &vec![200; 16])[0], 90, "no more than the color's alpha");
}
