use walldeck::canvas::blend_over;
use walldeck::config::Config;
use walldeck::literal::{Bound, Real};
use walldeck::numerals::{parse_hex_byte, parse_i32, to_decimal};
use walldeck::order::{insert_sorted, not_after};
use walldeck::paths::{cache_relative, home_relative, join_path, Env};
use walldeck::text::{
    contains, ends_with, has_char, lines, same, split_on, split_whitespace, starts_with,
    to_ascii_lowercase, trim,
};
use walldeck::theme::Theme;

const SAMPLES: &[&str] = &[
    "",
    " ",
    "a",
    "abc",
    " a b\tc\n",
    "\u{a0}x\u{2003}y\u{3000}",
    "a\r\nb\n\nc\r",
    "one\ntwo\n",
    "\r\n",
    "Straße ÄÖ",
    "x:y::z:",
    ":",
    "aab aab",
    "\u{b}\u{c}\u{85}end",
];

#[test]
fn trimming_and_splitting_agree_with_std() {
    for s in SAMPLES {
        assert_eq!(trim(s), s.trim(), "{s:?}");
        assert_eq!(lines(s), s.lines().collect::<Vec<_>>(), "{s:?}");
        assert_eq!(split_whitespace(s), s.split_whitespace().collect::<Vec<_>>(), "{s:?}");
        assert_eq!(split_on(s, ':'), s.split(':').collect::<Vec<_>>(), "{s:?}");
        assert_eq!(to_ascii_lowercase(s), s.to_ascii_lowercase(), "{s:?}");
        assert_eq!(trim(&trim(s)), trim(s));
    }
}

#[test]
fn searching_agrees_with_std() {
    for s in SAMPLES {
        assert_eq!(has_char(s, ':'), s.contains(':'));
        for p in ["", "a", "ab", "aab a", "Ä", "zz"] {
            assert_eq!(contains(s, p), s.contains(p), "{s:?} {p:?}");
            assert_eq!(starts_with(s, p), s.starts_with(p), "{s:?} {p:?}");
            assert_eq!(ends_with(s, p), s.ends_with(p), "{s:?} {p:?}");
            assert_eq!(same(s, p), *s == p);
        }
        for t in SAMPLES {
            assert_eq!(not_after(s, t), s <= t, "{s:?} {t:?}");
        }
    }
}

#[test]
fn insertion_sorts() {
    let mut v = Vec::new();
    for s in SAMPLES {
        insert_sorted(&mut v, s.to_string());
    }
    let mut want: Vec<String> = SAMPLES.iter().map(|s| s.to_string()).collect();
    want.sort();
    assert_eq!(v, want);
}

#[test]
fn numerals_agree_with_std() {
    for s in [
        "0", "-0", "+5", "007", "2147483647", "2147483648", "-2147483648", "-2147483649", "",
        "-", "+", "1a", " 1", "٣", "99999999999999999999999",
    ] {
        assert_eq!(parse_i32(s), s.parse::<i32>().ok(), "{s:?}");
    }
    for n in [0usize, 7, 10, 99, 100, 4096, usize::MAX] {
        assert_eq!(to_decimal(n), n.to_string());
    }
    assert_eq!(parse_i32(&to_decimal(123456)), Some(123456));
}

#[test]
fn hex_bytes_agree_with_std() {
    for a in ['0', '9', 'a', 'F', 'g', '+', '-', ' ', 'é'] {
        for b in ['0', '7', 'c', 'E', 'G', '+'] {
            let text: String = [a, b].iter().collect();
            assert_eq!(parse_hex_byte(a, b), u8::from_str_radix(&text, 16).ok(), "{text:?}");
        }
    }
}

#[test]
fn bounds_hold_for_literals() {
    let floor = |s: &str, b| Real::parse(s).unwrap().at_least(b).text().to_string();
    assert_eq!(floor("-3", Bound::Zero), "0.0");
    assert_eq!(floor("3e-9", Bound::Zero), "3e-9");
    assert_eq!(floor("0.0999", Bound::Tenth), "0.1");
    assert_eq!(floor("0.1000", Bound::Tenth), "0.1000");
    assert_eq!(floor("1e-1", Bound::Tenth), "1e-1");
    assert_eq!(floor("0.00001e4", Bound::Tenth), "0.00001e4");
    assert_eq!(floor("999e-3", Bound::One), "1.0");
    assert_eq!(floor("1000e-3", Bound::One), "1000e-3");
    assert_eq!(floor("nan", Bound::One), "1.0");
    assert_eq!(floor("-inf", Bound::Tenth), "0.1");
    assert_eq!(floor("inf", Bound::One), "inf");
    assert_eq!(floor("1e99999999999999999999999999999999999999", Bound::One).len(), 40);
    assert_eq!(floor("1e-99999999999999999999999999999999999999", Bound::Tenth), "0.1");
    let unit = |s: &str| Real::parse(s).unwrap().clamp_unit().text().to_string();
    assert_eq!(unit("0.92"), "0.92");
    assert_eq!(unit("0.05"), "0.1");
    assert_eq!(unit("7"), "1.0");
    assert_eq!(unit("NaN"), "NaN");
    assert_eq!(floor(&floor("0.01", Bound::Tenth), Bound::Tenth), "0.1");
}

#[test]
fn literals_agree_with_std() {
    for s in [
        "1", "-1.5", "+.5", "5.", ".", "", "-", "e", "1e5", "1E+5", "1e-", "1e5.0", "1.5.5",
        "inf", "-INF", "infinity", "infinit", "nan", "+NaN", "0x1", "1f", "1_0", " 1", "١",
    ] {
        assert_eq!(Real::parse(s).is_some(), s.parse::<f64>().is_ok(), "{s:?}");
    }
}

#[test]
fn joining_twice_is_joining_once() {
    for a in ["", "/a", "/a/", "a"] {
        for b in ["b", "/b", "b/"] {
            for c in ["c", "/c", ""] {
                let left = join_path(&join_path(a, b), c);
                assert_eq!(left, join_path(a, &join_path(b, c)));
            }
        }
    }
}

#[test]
fn directories_have_their_bases() {
    let mut env = Env::new();
    assert_eq!(home_relative("x", &env), "x");
    assert_eq!(cache_relative("x", &env), ".cache/x");
    env.set("HOME", "/h");
    assert_eq!(home_relative("x", &env), "/h/x");
    assert_eq!(cache_relative("x", &env), "/h/.cache/x");
    env.set("XDG_CACHE_HOME", "/c");
    assert_eq!(cache_relative("x", &env), "/c/x");
    env.set("HOME", "");
    assert_eq!(home_relative("x", &env), "x");
    assert_eq!(env.get("HOME"), Some(String::new()));
    assert_eq!(env.get("NOPE"), None);
}

#[test]
fn clamping_is_done_once_and_for_all() {
    let mut t = Theme::default();
    t.corner_radius = 999;
    t.window_corner_radius = 999;
    t.search_bar_width = 5000;
    t.search_bar_corner_radius = 999;
    t.clamp();
    let radii = (t.corner_radius, t.window_corner_radius, t.search_bar_corner_radius);
    assert_eq!((radii, t.search_bar_width), ((175, 185, 22), 1179));
    t.clamp();
    assert_eq!((t.corner_radius, t.window_corner_radius, t.search_bar_corner_radius), radii);
    assert_eq!((t.search_bar_x0(), t.search_bar_y0(), t.icon_area_y0()), (0, 386, 10));
    t.search_bar_width = 300;
    assert_eq!(t.search_bar_x0(), 439);
    let cfg = Config::defaults(&Env::new()).finish().finish();
    assert!(cfg.secondary.enabled);
}

#[test]
fn opaque_stays_opaque() {
    for a in 0..=255u8 {
        let mut px = [3u8, 4, 5, 255];
        blend_over(&mut px, 0, [200, 100, 0], a);
        assert_eq!(px[3], 255);
    }
    // Rounding can lift a channel above a half-transparent pixel's alpha.
    let mut px = [100u8; 4];
    blend_over(&mut px, 0, [255; 3], 1);
    assert_eq!(px, [101, 101, 101, 100]);
}

#[test]
fn white_space_is_what_std_says() {
    for c in (0..=0x10ffff).filter_map(char::from_u32) {
        assert_eq!(trim(&c.to_string()).is_empty(), c.is_whitespace(), "{c:?}");
    }
}
