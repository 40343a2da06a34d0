use walldeck::config::Config;
use walldeck::paths::Env;
use walldeck::startup::{answer, cache_problem, check_setup, offer, read_args, Request};

fn names(v: &[&str]) -> Vec<String> {
    v.iter().map(|s| s.to_string()).collect()
}

fn config() -> Config {
    let mut cfg = Config::defaults(&Env::new());
    cfg.wallpaper_dir = "/w".to_string();
    cfg
}

#[test]
fn the_first_argument_decides() {
    let run = |args: &[&str]| {
        answer(&read_args(&names(args)), "1.2.3", &Some("/c.conf".to_string()))
            .map(|e| (e.out, e.err, e.code))
    };
    assert!(run(&[]).is_none());
    let (out, err, code) = run(&["--help", "--nope"]).unwrap();
    assert!(out.starts_with("walldeck — a Wayland layer-shell wallpaper picker\n\nUSAGE:\n"));
    assert!(out.ends_with("    WALLDECK_CONFIG    Override the config file path\n"));
    assert_eq!((err.as_str(), code), ("", 0));
    assert_eq!(run(&["-h"]).unwrap().0, out);
    assert_eq!(run(&["-V"]).unwrap(), ("walldeck 1.2.3\n".into(), "".into(), 0));
    assert_eq!(run(&["--version"]).unwrap().0, "walldeck 1.2.3\n");
    assert_eq!(run(&["--config-path"]).unwrap().0, "/c.conf\n");
    assert_eq!(
        run(&["--nope"]).unwrap(),
        (out, "walldeck: unrecognized argument '--nope'\n\n".into(), 2)
    );
    assert_eq!(
        answer(&Request::ConfigPath, "1", &None).unwrap().out,
        "(could not determine a config path)\n"
    );
}

#[test]
fn the_setup_is_checked_in_order() {
    let cfg = config();
    assert_eq!(check_setup(&cfg, true, true), None);
    assert_eq!(
        check_setup(&cfg, false, false).unwrap(),
        "walldeck: backend 'awww' not found on PATH (set `command` in the config to point at your \
         wallpaper daemon's CLI)"
    );
    assert_eq!(
        check_setup(&cfg, true, false).unwrap(),
        "walldeck: wallpaper directory '/w' does not exist (set `wallpaper_dir` in the config)"
    );
    assert_eq!(cache_problem("x"), "walldeck: could not build the thumbnail cache: x");
}

#[test]
fn what_is_offered_is_sorted_and_without_variants() {
    let cfg = config();
    let got = offer(&cfg, &Ok(names(&["b.png", "a-b.jpg", "readme.md", "a.jpg"])));
    match got {
        Ok(v) => assert_eq!(v, names(&["a.jpg", "b.png"])),
        Err(_) => panic!("refused"),
    }
}

#[test]
fn nothing_to_offer_is_explained() {
    let cfg = config();
    let line = |r: Result<Vec<String>, String>| match offer(&cfg, &r) {
        Err(x) => (x.line, x.notice),
        Ok(_) => panic!("offered"),
    };
    assert_eq!(
        line(Err("denied".into())),
        ("walldeck: could not read '/w': denied".to_string(), None)
    );
    assert_eq!(
        line(Ok(names(&["x.txt"]))),
        (
            "walldeck: no images in /w (supported: jpg, jpeg, png, gif, bmp, webp)".to_string(),
            None
        )
    );
    let msg = "Every image in /w looks like a '-b' variant".to_string();
    assert_eq!(
        line(Ok(names(&["x-b.png"]))),
        (format!("walldeck: {msg}"), Some(("walldeck: no wallpapers".to_string(), msg)))
    );
}
