use walldeck::config::Config;
use walldeck::images::{filter_originals, full_path, list_images, thumb_path, variant_name};
use walldeck::paths::Env;

fn names(v: &[&str]) -> Vec<String> {
    v.iter().map(|s| s.to_string()).collect()
}

#[test]
fn variant_name_inserts_suffix_before_the_extension() {
    assert_eq!(variant_name("wall.jpg", "-b"), "wall-b.jpg");
    assert_eq!(variant_name("a.b.png", "-blur"), "a.b-blur.png");
    assert_eq!(variant_name("noext", "-b"), "noext-b");
}

#[test]
fn filter_drops_only_variants() {
    let got = filter_originals(names(&["a.jpg", "a-b.jpg", "b-blue.png", "c.png"]), "-b");
    assert_eq!(
        got,
        names(&["a.jpg", "b-blue.png", "c.png"]),
        "'-blue' ends with 'e', not the '-b' suffix on the stem"
    );
}

#[test]
fn empty_suffix_filters_nothing() {
    let all = names(&["a.jpg", "b.jpg"]);
    assert_eq!(filter_originals(all.clone(), ""), all);
}

#[test]
fn round_trips_with_the_filter() {
    let originals = filter_originals(names(&["x.jpg", "x-b.jpg"]), "-b");
    assert_eq!(originals, names(&["x.jpg"]));
    assert_eq!(variant_name(&originals[0], "-b"), "x-b.jpg");
}

#[test]
fn listings_are_sorted_images() {
    let got = list_images(&names(&["z.PNG", "b.jpeg", "notes.txt", "B.webp", "é.gif", "jpg", "a.jpg"]));
    let mut want = names(&["z.PNG", "b.jpeg", "B.webp", "é.gif", "a.jpg"]);
    want.sort();
    assert_eq!(got, want);
}

#[test]
fn listing_order_does_not_depend_on_the_directory() {
    let a = list_images(&names(&["a.jpg", "c.png", "b.bmp"]));
    let b = list_images(&names(&["c.png", "b.bmp", "a.jpg"]));
    assert_eq!(a, b);
}

#[test]
fn variants_are_hidden() {
    for name in ["forest.jpg", "a.b.png", "noext"] {
        let v = variant_name(name, "-b");
        assert_ne!(v, name);
        assert!(filter_originals(vec![v], "-b").is_empty());
    }
    // A suffix with a dot on a name without one moves the extension.
    assert_eq!(filter_originals(vec![variant_name("noext", ".b")], ".b").len(), 1);
}

#[test]
fn files_lie_below_their_directories() {
    let mut env = Env::new();
    env.set("HOME", "/home/test");
    let cfg = Config::defaults(&env);
    assert_eq!(full_path(&cfg, "x.jpg"), "/home/test/Pictures/Wallpapers/x.jpg");
    assert_eq!(thumb_path(&cfg, "x.jpg"), "/home/test/.cache/walldeck/x.jpg");
}
