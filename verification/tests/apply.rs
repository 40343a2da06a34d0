use walldeck::apply::{after_blur, after_primary, after_probe, after_secondary, apply_selection, Effect, Step};
use walldeck::config::Config;
use walldeck::feedback::{notify, play_sound};
use walldeck::paths::Env;
use walldeck::wallpaper::{apply, path_candidates, ApplyError, Run};

fn config() -> Config {
    let mut env = Env::new();
    env.set("HOME", "/h");
    let mut cfg = Config::defaults(&env);
    cfg.wallpaper_dir = "/w".to_string();
    cfg
}

fn show(effects: &[Effect]) -> Vec<String> {
    effects
        .iter()
        .map(|e| match e {
            Effect::Say(s) => format!("say {s}"),
            Effect::Notify { summary, body } => format!("notify {summary} | {body}"),
            Effect::Sound => "sound".to_string(),
        })
        .collect()
}

fn finish(s: Step) -> (Vec<String>, i32) {
    match s {
        Step::Finish { effects, code } => (show(&effects), code),
        _ => panic!("not finished"),
    }
}

fn failed() -> Result<(), ApplyError> {
    Err(ApplyError::Backend { status: "exit status: 1".into(), stderr: "no daemon".into() })
}

#[test]
fn the_primary_target_comes_first() {
    let cfg = config();
    match apply_selection(&cfg, "forest.jpg") {
        Step::Primary { args } => assert_eq!(
            args,
            vec!["img", "--transition-type", "center", "--transition-fps", "60", "/w/forest.jpg"]
        ),
        _ => panic!("unexpected step"),
    }
}

#[test]
fn a_failing_primary_target_is_fatal() {
    let cfg = config();
    let (effects, code) = finish(after_primary(&cfg, "forest.jpg", &failed()));
    assert_eq!(code, 1);
    let msg = "Could not apply forest.jpg: exited with exit status: 1: no daemon";
    assert_eq!(
        effects,
        vec![format!("say walldeck: {msg}"), format!("notify walldeck: wallpaper failed | {msg}")]
    );
}

#[test]
fn without_a_secondary_target_that_is_all() {
    let mut cfg = config();
    cfg.secondary.enabled = false;
    let (effects, code) = finish(after_primary(&cfg, "forest.jpg", &Ok(())));
    assert_eq!(code, 0);
    assert_eq!(effects, vec!["notify Wallpaper changed | forest.jpg", "sound"]);
}

#[test]
fn a_variant_on_disk_goes_to_the_secondary_target() {
    let cfg = config();
    match after_primary(&cfg, "forest.jpg", &Ok(())) {
        Step::Probe { path } => assert_eq!(path, "/w/forest-b.jpg"),
        _ => panic!("unexpected step"),
    }
    match after_probe(&cfg, "forest.jpg", true) {
        Step::Secondary { args } => assert_eq!(
            args,
            vec!["img", "--transition-fps", "60", "--namespace", "overview", "/w/forest-b.jpg"]
        ),
        _ => panic!("unexpected step"),
    }
    let (effects, code) = finish(after_secondary(&cfg, "forest.jpg", &Ok(())));
    assert_eq!(code, 0);
    assert_eq!(effects, vec!["notify Wallpaper changed | forest.jpg\nforest-b.jpg", "sound"]);
}

#[test]
fn a_missing_variant_is_quiet_unless_required() {
    let mut cfg = config();
    let msg = "no '-b' variant for forest.jpg (forest-b.jpg not found)";
    let (effects, code) = finish(after_probe(&cfg, "forest.jpg", false));
    assert_eq!(code, 0);
    assert_eq!(
        effects,
        vec![
            format!("say walldeck: {msg}, leaving that target unchanged"),
            "notify Wallpaper changed | forest.jpg".to_string(),
            "sound".to_string(),
        ]
    );
    cfg.secondary.required = true;
    let (effects, code) = finish(after_probe(&cfg, "forest.jpg", false));
    assert_eq!(code, 1);
    assert_eq!(effects[1], format!("notify walldeck: wallpaper failed | {msg}"));
}

#[test]
fn a_blurred_copy_stands_in() {
    let mut cfg = config();
    cfg.secondary.auto_blur = true;
    match after_probe(&cfg, "forest.jpg", false) {
        Step::Blur { src, name } => {
            assert_eq!((src.as_str(), name.as_str()), ("/w/forest.jpg", "forest-b.jpg"))
        }
        _ => panic!("unexpected step"),
    }
    match after_blur(&cfg, "forest.jpg", &Ok("/c/blurred/forest-b.jpg".to_string())) {
        Step::Secondary { args } => assert_eq!(args.last().unwrap(), "/c/blurred/forest-b.jpg"),
        _ => panic!("unexpected step"),
    }
    let (effects, code) = finish(after_blur(&cfg, "forest.jpg", &Err("boom".to_string())));
    assert_eq!(code, 0);
    assert_eq!(
        effects[0],
        "say walldeck: could not auto-generate a blurred '-b' variant for forest.jpg: boom, \
         leaving that target unchanged"
    );
}

#[test]
fn a_missing_daemon_is_tolerated_unless_required() {
    let mut cfg = config();
    let msg = "could not apply forest-b.jpg to namespace 'overview': exited with exit status: 1: \
               no daemon (is a daemon running for it? set `secondary_enabled = false` if you only \
               run one)";
    let (effects, code) = finish(after_secondary(&cfg, "forest.jpg", &failed()));
    assert_eq!(code, 0);
    assert_eq!(
        effects,
        vec![
            format!("say walldeck: {msg}"),
            format!("notify walldeck: secondary target skipped | {msg}"),
            "notify Wallpaper changed | forest.jpg".to_string(),
            "sound".to_string(),
        ]
    );
    cfg.secondary.required = true;
    cfg.secondary.namespace = None;
    let (effects, code) = finish(after_secondary(&cfg, "forest.jpg", &failed()));
    assert_eq!(code, 1);
    assert!(effects[0].contains("to the default namespace: "), "{effects:?}");
}

#[test]
fn runs_are_judged_by_their_end() {
    assert!(apply(
        "awww",
        Run::Ended { success: true, status: "exit status: 0".into(), stderr: "x".into() }
    )
    .is_ok());
    let e = apply("awww", Run::Failed("No such file".into())).unwrap_err();
    assert_eq!(e.message(), "failed to run 'awww': No such file");
    let e = apply(
        "awww",
        Run::Ended { success: false, status: "signal: 9".into(), stderr: " \n".into() },
    )
    .unwrap_err();
    assert_eq!(e.message(), "exited with signal: 9");
    let e = apply(
        "awww",
        Run::Ended { success: false, status: "s".into(), stderr: "\u{a0}bad\n".into() },
    )
    .unwrap_err();
    assert_eq!(e.message(), "exited with s: bad", "wide white space is trimmed as well");
}

#[test]
fn programs_are_looked_up_on_the_path() {
    assert_eq!(path_candidates("./x/awww", Some("/bin")), vec!["./x/awww"]);
    assert_eq!(path_candidates("awww", Some("/bin:/usr/bin/::")), vec![
        "/bin/awww",
        "/usr/bin/awww",
        "awww",
        "awww",
    ]);
    assert!(path_candidates("awww", None).is_empty());
}

#[test]
fn feedback_is_optional() {
    let mut cfg = config();
    assert_eq!(
        notify(&cfg, "Summary", "Body").unwrap(),
        vec!["-u", "low", "-a", "walldeck", "Summary", "Body"]
    );
    assert_eq!(
        play_sound(&cfg, true).unwrap(),
        vec!["/usr/share/sounds/freedesktop/stereo/complete.oga"]
    );
    assert!(play_sound(&cfg, false).is_none());
    cfg.notifications = false;
    cfg.sound_file = None;
    assert!(notify(&cfg, "Summary", "Body").is_none());
    assert!(play_sound(&cfg, true).is_none());
}
