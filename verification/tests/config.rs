use walldeck::config::{strip_comment, Config, TransitionOpts};
use walldeck::paths::{expand_path, join_path, Env};
use walldeck::value::{parse_hex_color, Value};

fn with<'a>(raw: &'a str, key: &'a str, env: &'a Env) -> Value<'a> {
    Value { raw, key, loc: "test:1", env }
}

fn home() -> Env {
    let mut env = Env::new();
    env.set("HOME", "/home/test");
    env
}

fn some(s: &str) -> Option<String> {
    Some(s.to_string())
}

#[test]
fn text_strips_optional_quotes() {
    let env = Env::new();
    let v = |raw, key| with(raw, key, &env);
    assert_eq!(v("  hello  ", "k").text(), "hello");
    assert_eq!(v("\" spaced \"", "k").text(), " spaced ");
    assert_eq!(v("\"", "k").text(), "\"", "a lone quote isn't a pair");
}

#[test]
fn empty_value_means_unset() {
    let env = Env::new();
    let v = |raw, key| with(raw, key, &env);
    assert_eq!(v("", "k").opt_text(), None);
    assert_eq!(v("  ", "k").opt_text(), None);
    assert_eq!(v("x", "k").opt_text(), Some("x".into()));
}

#[test]
fn booleans_accept_common_spellings() {
    let env = Env::new();
    let mut log = Vec::new();
    for s in ["true", "yes", "on", "1", "TRUE"] {
        assert_eq!(with(s, "k", &env).boolean(&mut log), Some(true), "{s}");
    }
    for s in ["false", "no", "off", "0"] {
        assert_eq!(with(s, "k", &env).boolean(&mut log), Some(false), "{s}");
    }
    assert!(log.is_empty());
    assert_eq!(with("maybe", "k", &env).boolean(&mut log), None);
    assert_eq!(log, vec!["walldeck: test:1: 'maybe' is not a boolean (true/false) for k"]);
}

#[test]
fn unset_transition_options_emit_no_flags() {
    assert!(TransitionOpts::default().to_args().is_empty());
}

#[test]
fn transition_options_map_to_flags_in_order() {
    let opts = TransitionOpts {
        transition_type: Some("wipe".into()),
        fps: Some("144".into()),
        angle: Some("30".into()),
        extra_args: vec!["--invert-y".into()],
        ..TransitionOpts::default()
    };
    assert_eq!(
        opts.to_args(),
        vec![
            "--transition-type", "wipe",
            "--transition-fps", "144",
            "--transition-angle", "30",
            "--invert-y",
        ]
    );
}

#[test]
fn every_transition_option_has_its_flag() {
    let s = |x: &str| Some(x.to_string());
    let opts = TransitionOpts {
        transition_type: s("a"),
        fps: s("b"),
        duration: s("c"),
        step: s("d"),
        angle: s("e"),
        pos: s("f"),
        bezier: s("g"),
        wave: s("h"),
        resize: s("i"),
        fill_color: s("j"),
        filter: s("k"),
        extra_args: vec![],
    };
    assert_eq!(
        opts.to_args().join(" "),
        "--transition-type a --transition-fps b --transition-duration c --transition-step d \
         --transition-angle e --transition-pos f --transition-bezier g --transition-wave h \
         --resize i --fill-color j --filter k"
    );
}

#[test]
fn an_empty_option_is_omitted() {
    let opts = TransitionOpts { fps: Some(String::new()), ..TransitionOpts::default() };
    assert!(opts.to_args().is_empty());
}

#[test]
fn expands_tilde_and_variables() {
    let mut env = home();
    env.set("WALLDECK_TEST_VAR", "xyz");
    assert_eq!(expand_path("~/pics", &env), "/home/test/pics");
    assert_eq!(expand_path("~", &env), "/home/test");
    assert_eq!(expand_path("$HOME/a", &env), "/home/test/a");
    assert_eq!(expand_path("${WALLDECK_TEST_VAR}/b", &env), "xyz/b");
    assert_eq!(expand_path("/plain/path", &env), "/plain/path");
    // Undefined variables vanish, matching shell behavior.
    assert_eq!(expand_path("$NOPE_NOT_SET/c", &env), "/c");
    // A bare '$' is not a variable reference.
    assert_eq!(expand_path("/a$/b", &env), "/a$/b");
    // '~' only expands at the start.
    assert_eq!(expand_path("/a/~/b", &env), "/a/~/b");
}

#[test]
fn expansion_edge_cases() {
    let env = home();
    assert_eq!(expand_path("~user/x", &env), "~user/x");
    assert_eq!(expand_path("${HOME", &env), "/home/test", "an unclosed brace ends with the text");
    assert_eq!(expand_path("a${}b", &env), "a$b");
    assert_eq!(expand_path("$HOME$HOME", &env), "/home/test/home/test");
    assert_eq!(expand_path("~", &Env::new()), "");
}

#[test]
fn unset_xdg_cache_home_falls_back_to_home_cache_not_empty_string() {
    assert_eq!(
        expand_path("$XDG_CACHE_HOME/walldeck", &home()),
        "/home/test/.cache/walldeck",
        "must fall back to $HOME/.cache per the XDG Base Directory spec, not collapse to /walldeck"
    );
}

#[test]
fn set_xdg_cache_home_is_still_honored() {
    let mut env = home();
    env.set("XDG_CACHE_HOME", "/custom/cache");
    assert_eq!(expand_path("$XDG_CACHE_HOME/walldeck", &env), "/custom/cache/walldeck");
}

#[test]
fn other_xdg_vars_have_spec_fallbacks_too() {
    let env = home();
    assert_eq!(expand_path("$XDG_CONFIG_HOME/x", &env), "/home/test/.config/x");
    assert_eq!(expand_path("$XDG_DATA_HOME/x", &env), "/home/test/.local/share/x");
    assert_eq!(expand_path("$XDG_STATE_HOME/x", &env), "/home/test/.local/state/x");
}

#[test]
fn non_xdg_vars_are_unaffected_by_the_fallback_logic() {
    assert_eq!(expand_path("$WALLDECK_TOTALLY_UNSET_VAR/x", &home()), "/x");
}

#[test]
fn secondary_keys_route_to_the_secondary_target() {
    let env = home();
    let mut log = Vec::new();
    let mut cfg = Config::defaults(&env);
    assert!(cfg.set_key("transition_type", &with("fade", "transition_type", &env), &mut log));
    assert!(cfg.set_key(
        "secondary_transition_type",
        &with("grow", "secondary_transition_type", &env),
        &mut log
    ));
    assert_eq!(cfg.opts.transition_type.as_deref(), Some("fade"));
    assert_eq!(cfg.secondary.opts.transition_type.as_deref(), Some("grow"));
}

#[test]
fn unknown_keys_are_rejected_so_the_caller_can_warn() {
    let env = home();
    let mut log = Vec::new();
    let mut cfg = Config::defaults(&env);
    assert!(!cfg.set_key("not_a_real_key", &with("1", "not_a_real_key", &env), &mut log));
}

#[test]
fn empty_secondary_suffix_disables_the_target() {
    let env = home();
    let mut log = Vec::new();
    let mut cfg = Config::defaults(&env);
    cfg.set_key("secondary_suffix", &with("", "secondary_suffix", &env), &mut log);
    let cfg = cfg.finish();
    assert!(!cfg.secondary.enabled, "an empty suffix would match every file");
}

#[test]
fn clearing_a_transition_option_unsets_it() {
    let env = home();
    let mut log = Vec::new();
    let mut cfg = Config::defaults(&env);
    assert_eq!(cfg.opts.transition_type.as_deref(), Some("center"));
    cfg.set_key("transition_type", &with("", "transition_type", &env), &mut log);
    assert_eq!(cfg.opts.transition_type, None, "empty must mean 'omit the flag'");
}

#[test]
fn hash_inside_quotes_is_not_a_comment() {
    assert_eq!(
        strip_comment(r##"background = "#1e1e2eeb""##),
        r##"background = "#1e1e2eeb""##
    );
    assert_eq!(
        strip_comment(r##"background = "#1e1e2eeb"  # icon panel color"##),
        r##"background = "#1e1e2eeb"  "##
    );
    assert_eq!(strip_comment("padding = 10  # inset"), "padding = 10  ");
    assert_eq!(strip_comment("# whole line comment"), "");
}

#[test]
fn color_value_with_trailing_comment_parses() {
    let env = Env::new();
    let mut log = Vec::new();
    let stripped = strip_comment(r##"background = "#1e1e2eeb"  # icon panel color"##);
    let line = stripped.trim();
    let (key, raw_value) = line.split_once('=').unwrap();
    let val = with(raw_value.trim(), key.trim(), &env);
    assert!(val.color(&mut log).is_some(), "expected a valid color, got raw={:?}", val.raw);
}

#[test]
fn colors_have_six_or_eight_digits() {
    assert_eq!(parse_hex_color("#1e1E2eeb").map(|c| c.0), Some([0x1e, 0x1e, 0x2e, 0xeb]));
    assert_eq!(parse_hex_color("\"#010203\"").map(|c| c.0), Some([1, 2, 3, 255]));
    assert_eq!(parse_hex_color("a0b0c0").map(|c| c.0), Some([0xa0, 0xb0, 0xc0, 255]));
    assert!(parse_hex_color("#12345").is_none());
    assert!(parse_hex_color("#gg0000").is_none());
    assert!(parse_hex_color("").is_none());
}

#[test]
fn numbers_read_or_warn() {
    let env = Env::new();
    let mut log = Vec::new();
    assert_eq!(with(" 42 ", "k", &env).integer(&mut log), Some(42));
    assert_eq!(with("-7", "k", &env).integer(&mut log), Some(-7));
    assert_eq!(with("+7", "k", &env).integer(&mut log), Some(7));
    assert_eq!(with("2147483647", "k", &env).integer(&mut log), Some(i32::MAX));
    assert_eq!(with("-2147483648", "k", &env).integer(&mut log), Some(i32::MIN));
    assert_eq!(with("300", "k", &env).byte(&mut log), Some(255));
    assert_eq!(with("-1", "k", &env).byte(&mut log), Some(0));
    assert_eq!(with("190", "k", &env).byte(&mut log), Some(190));
    assert!(log.is_empty());
    assert_eq!(with("2147483648", "k", &env).integer(&mut log), None);
    assert_eq!(with("x", "k", &env).byte(&mut log), None);
    assert_eq!(with("1,2", "k", &env).float(&mut log).is_some(), false);
    assert!(with("12", "k", &env).color(&mut log).is_none());
    assert_eq!(
        log,
        vec![
            "walldeck: test:1: '2147483648' is not a valid integer for k",
            "walldeck: test:1: 'x' is not a valid 0-255 value for k",
            "walldeck: test:1: '1,2' is not a valid number for k",
            "walldeck: test:1: '12' is not a valid color (expected \"#rrggbb\" or \"#rrggbbaa\") for k",
        ]
    );
}

#[test]
fn reals_keep_their_digits() {
    let env = Env::new();
    let mut log = Vec::new();
    for s in ["20.0", ".5", "5.", "1e3", "-2.5E-1", "inf", "+Infinity", "7"] {
        let r = with(s, "k", &env).float(&mut log).expect(s);
        assert_eq!(r.text(), s);
        assert!(r.text().parse::<f64>().is_ok());
    }
    for s in ["", ".", "e5", "1e", "1.2.3", "0x10", "1_000", "--1", "infin"] {
        assert!(with(s, "k", &env).float(&mut log).is_none(), "{s}");
        assert!(s.parse::<f64>().is_err());
    }
}

#[test]
fn a_curve_has_four_numbers() {
    let env = Env::new();
    let mut log = Vec::new();
    let c = with("0.42, 0.0 ,0.58,1", "k", &env).curve(&mut log).unwrap();
    assert_eq!([c.0.text(), c.1.text(), c.2.text(), c.3.text()].join("|"), "0.42|0.0|0.58|1");
    assert!(with("1,2,3", "k", &env).curve(&mut log).is_none());
    assert!(with("1,2,3,x", "k", &env).curve(&mut log).is_none());
    assert_eq!(
        log,
        vec![
            "walldeck: test:1: '1,2,3' is not 4 comma-separated numbers for k",
            "walldeck: test:1: '1,2,3,x' is not 4 valid numbers for k",
        ]
    );
}

#[test]
fn extra_arguments_are_split_at_white_space() {
    let env = Env::new();
    assert_eq!(with("  --a\t b\u{2003}c ", "k", &env).args(), vec!["--a", "b", "c"]);
    assert!(with("   ", "k", &env).args().is_empty());
}

#[test]
fn defaults_follow_the_environment() {
    let cfg = Config::defaults(&home());
    assert_eq!(cfg.wallpaper_dir, "/home/test/Pictures/Wallpapers");
    assert_eq!(cfg.cache_dir, "/home/test/.cache/walldeck");
    assert_eq!(cfg.thumbnail_size, 350);
    assert_eq!(cfg.command, "awww");
    assert_eq!(cfg.secondary.namespace, some("overview"));
    assert_eq!(cfg.secondary.blur_sigma.text(), "20.0");
    assert_eq!(cfg.theme.window_width, 1179);
    assert_eq!(cfg.theme.surface_height(), 430);
    let bare = Config::defaults(&Env::new());
    assert_eq!(bare.wallpaper_dir, "Pictures/Wallpapers");
    assert_eq!(bare.cache_dir, ".cache/walldeck");
}

#[test]
fn the_config_path_prefers_its_own_variable() {
    let mut env = home();
    assert_eq!(Config::path(&env), some("/home/test/.config/walldeck/config.conf"));
    env.set("XDG_CONFIG_HOME", "/cfg");
    assert_eq!(Config::path(&env), some("/cfg/walldeck/config.conf"));
    env.set("WALLDECK_CONFIG", "/own.conf");
    assert_eq!(Config::path(&env), some("/own.conf"));
}

#[test]
fn a_file_is_read_line_by_line() {
    let env = home();
    let mut log = Vec::new();
    let text = "# comment\n[paths]\nwallpaper_dir = ~/w\nthumbnail_size = 0\nicon_size=100\n\
                corner_radius = 80 # too round\nbackground = \"#01020304\"\nsound_command =\n\
                bogus = 1\nnonsense\nspacing = x\nscroll_smoothing = 0.01\nicon_size = 60\n";
    let cfg = Config::load(&env, Some(text), &mut log);
    assert_eq!(cfg.wallpaper_dir, "/home/test/w");
    assert_eq!(cfg.thumbnail_size, 1, "held to one");
    assert_eq!(cfg.theme.icon_size, 60, "the last value wins");
    assert_eq!(cfg.theme.corner_radius, 30, "held to half the icon");
    assert_eq!(cfg.theme.background.0, [1, 2, 3, 4]);
    assert_eq!(cfg.sound_file, None, "no command, no sound");
    assert_eq!(cfg.theme.spacing, 15, "an unreadable value changes nothing");
    assert_eq!(cfg.theme.scroll_smoothing.text(), "0.1", "held to its floor");
    assert_eq!(log.len(), 3, "{log:?}");
    assert!(log[0].contains("bogus"), "{log:?}");
    assert!(log[2].contains("'x' is not a valid integer for spacing"), "{log:?}");
}

#[test]
fn without_a_file_there_are_the_defaults() {
    let env = home();
    let mut log = Vec::new();
    let cfg = Config::load(&env, None, &mut log);
    assert!(log.is_empty());
    assert_eq!(cfg.command, "awww");
    assert_eq!(cfg.sound_path(false), None);
    assert_eq!(
        cfg.sound_path(true),
        some("/usr/share/sounds/freedesktop/stereo/complete.oga")
    );
}

#[test]
fn paths_are_joined_like_directories() {
    assert_eq!(join_path("/a", "b"), "/a/b");
    assert_eq!(join_path("/a/", "b"), "/a/b");
    assert_eq!(join_path("/a", "/b"), "/b");
    assert_eq!(join_path("", "b"), "b");
    assert_eq!(join_path("/a", ""), "/a/");
    for (a, b) in [("/a", "b"), ("/a/", "b"), ("/a", "/b"), ("", "b"), ("/a", "")] {
        assert_eq!(std::path::Path::new(a).join(b).to_str().unwrap(), join_path(a, b));
    }
}

#[test]
fn lines_that_set_nothing_can_be_dropped() {
    let env = home();
    let (mut log, mut none) = (Vec::new(), Vec::new());
    let long = "[layout]\n\nicon_size = 60\n# note\nbogus = 1\njunk\nspacing = x\npadding = 3\n";
    let a = Config::load(&env, Some(long), &mut log);
    let b = Config::load(&env, Some("icon_size = 60\npadding = 3\n"), &mut none);
    assert_eq!((a.theme.icon_size, a.theme.padding, a.theme.spacing), (60, 3, 15));
    assert_eq!((b.theme.icon_size, b.theme.padding, b.theme.spacing), (60, 3, 15));
    assert_eq!((log.len(), none.len()), (3, 0));
}
