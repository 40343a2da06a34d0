//! The configuration: one flat `key = value` file.
//!
//! `[section]` headers are cosmetic and `#` starts a comment. Every setting
//! has a built-in default, and a line that does not read is reported and
//! otherwise ignored, so reading a configuration never fails.

use vstd::prelude::*;
use crate::literal::{literal_of, plain_decimals_are_literals, reaches, Bound, Real};
use crate::numerals::{i32_value, numeral, to_decimal};
use crate::paths::{
    below_cache, below_home, cache_relative, expand_path, expanded, home_relative, join_path,
    joined, value_or_empty, Env,
};
use crate::text::{
    chars_of, concat2, concat3, copy_of, copy_opt, find_char, first_index, first_index_bounds,
    first_index_is, has_prefix, is_space, line_feeds_end_lines, lines, lines_of, opt_text, same,
    starts_with, string_of, texts, texts_push, trim, trimmed, trimming_leaves_the_middle, words_of,
};
use crate::theme::{
    at_least_int, default_theme, kind_accepts, kind_logged, real_or, set_real, theme_kind,
    theme_with, Kind, Theme, ThemeView,
};
use crate::value::{bool_value, Value, ValueView};

verus! {

// ---------------------------------------------------------------- transitions

/// Backend command-line options for one wallpaper target. Every field is
/// optional: an unset or empty one is simply not passed, leaving the backend's
/// own default in effect. `extra_args` is the escape hatch for anything else.
pub struct TransitionOpts {
    pub transition_type: Option<String>,
    pub fps: Option<String>,
    pub duration: Option<String>,
    pub step: Option<String>,
    pub angle: Option<String>,
    pub pos: Option<String>,
    pub bezier: Option<String>,
    pub wave: Option<String>,
    pub resize: Option<String>,
    pub fill_color: Option<String>,
    pub filter: Option<String>,
    pub extra_args: Vec<String>,
}

/// What transition options say, as mathematics.
pub struct OptsView {
    pub transition_type: Option<Seq<char>>,
    pub fps: Option<Seq<char>>,
    pub duration: Option<Seq<char>>,
    pub step: Option<Seq<char>>,
    pub angle: Option<Seq<char>>,
    pub pos: Option<Seq<char>>,
    pub bezier: Option<Seq<char>>,
    pub wave: Option<Seq<char>>,
    pub resize: Option<Seq<char>>,
    pub fill_color: Option<Seq<char>>,
    pub filter: Option<Seq<char>>,
    pub extra_args: Seq<Seq<char>>,
}

impl View for TransitionOpts {
    type V = OptsView;

    open spec fn view(&self) -> OptsView {
        OptsView {
            transition_type: opt_text(self.transition_type),
            fps: opt_text(self.fps),
            duration: opt_text(self.duration),
            step: opt_text(self.step),
            angle: opt_text(self.angle),
            pos: opt_text(self.pos),
            bezier: opt_text(self.bezier),
            wave: opt_text(self.wave),
            resize: opt_text(self.resize),
            fill_color: opt_text(self.fill_color),
            filter: opt_text(self.filter),
            extra_args: texts(self.extra_args@),
        }
    }
}

pub open spec fn no_opts() -> OptsView {
    OptsView {
        transition_type: None,
        fps: None,
        duration: None,
        step: None,
        angle: None,
        pos: None,
        bezier: None,
        wave: None,
        resize: None,
        fill_color: None,
        filter: None,
        extra_args: seq![],
    }
}

/// The flag and its value, or nothing for an option without one.
pub open spec fn flag_args(flag: Seq<char>, value: Option<Seq<char>>) -> Seq<Seq<char>> {
    match value {
        Some(v) => if v.len() > 0 {
            seq![flag, v]
        } else {
            seq![]
        },
        None => seq![],
    }
}

impl OptsView {
    /// The command-line arguments the options stand for, in their fixed
    /// order, and the extra ones behind them.
    pub open spec fn args(self) -> Seq<Seq<char>> {
        flag_args("--transition-type"@, self.transition_type)
            + flag_args("--transition-fps"@, self.fps)
            + flag_args("--transition-duration"@, self.duration)
            + flag_args("--transition-step"@, self.step)
            + flag_args("--transition-angle"@, self.angle)
            + flag_args("--transition-pos"@, self.pos)
            + flag_args("--transition-bezier"@, self.bezier)
            + flag_args("--transition-wave"@, self.wave)
            + flag_args("--resize"@, self.resize)
            + flag_args("--fill-color"@, self.fill_color)
            + flag_args("--filter"@, self.filter)
            + self.extra_args
    }
}

fn push_flag(args: &mut Vec<String>, flag: &str, value: &Option<String>)
    ensures
        texts(final(args)@) == texts(old(args)@) + flag_args(flag@, opt_text(*value)),
{
    let ghost before = args@;
    if let Some(v) = value {
        if !v.as_str().is_empty() {
            let f: String = copy_of(flag);
            let w: String = copy_of(v.as_str());
            proof {
                texts_push(before, f);
                texts_push(before.push(f), w);
            }
            args.push(f);
            args.push(w);
        }
    }
    assert(texts(args@) =~= texts(before) + flag_args(flag@, opt_text(*value)));
}

impl Default for TransitionOpts {
    fn default() -> (r: TransitionOpts)
        ensures
            r@ == no_opts(),
    {
        let r: TransitionOpts = TransitionOpts {
            transition_type: None,
            fps: None,
            duration: None,
            step: None,
            angle: None,
            pos: None,
            bezier: None,
            wave: None,
            resize: None,
            fill_color: None,
            filter: None,
            extra_args: Vec::new(),
        };
        assert(texts(r.extra_args@) =~= seq![]);
        r
    }
}

impl TransitionOpts {
    /// Flattens into command-line arguments, skipping anything unset.
    pub fn to_args(&self) -> (r: Vec<String>)
        ensures
            texts(r@) == self@.args(),
    {
        let mut args: Vec<String> = Vec::new();
        assert(texts(args@) =~= seq![]);
        push_flag(&mut args, "--transition-type", &self.transition_type);
        assert(texts(args@) =~= flag_args("--transition-type"@, opt_text(self.transition_type)));
        push_flag(&mut args, "--transition-fps", &self.fps);
        push_flag(&mut args, "--transition-duration", &self.duration);
        push_flag(&mut args, "--transition-step", &self.step);
        push_flag(&mut args, "--transition-angle", &self.angle);
        push_flag(&mut args, "--transition-pos", &self.pos);
        push_flag(&mut args, "--transition-bezier", &self.bezier);
        push_flag(&mut args, "--transition-wave", &self.wave);
        push_flag(&mut args, "--resize", &self.resize);
        push_flag(&mut args, "--fill-color", &self.fill_color);
        push_flag(&mut args, "--filter", &self.filter);
        let ghost flags = texts(args@);
        let mut i: usize = 0;
        while i < self.extra_args.len()
            invariant
                i <= self.extra_args@.len(),
                texts(args@) == flags + texts(self.extra_args@).take(i as int),
            decreases self.extra_args@.len() - i,
        {
            let a: String = copy_of(self.extra_args[i].as_str());
            proof {
                texts_push(args@, a);
                assert(texts(args@.push(a)) =~= flags + texts(self.extra_args@).take(i + 1));
            }
            args.push(a);
            i = i + 1;
        }
        assert(texts(self.extra_args@).take(i as int) =~= texts(self.extra_args@));
        args
    }
}

pub open spec fn transition_owns(key: Seq<char>) -> bool {
    key == "transition_type"@
        || key == "transition_fps"@
        || key == "transition_duration"@
        || key == "transition_step"@
        || key == "transition_angle"@
        || key == "transition_pos"@
        || key == "transition_bezier"@
        || key == "transition_wave"@
        || key == "resize"@
        || key == "fill_color"@
        || key == "filter"@
        || key == "extra_args"@
}

/// Transition options after their setting `key` was read from `v`.
pub open spec fn transition_with(t: OptsView, key: Seq<char>, v: ValueView) -> OptsView {
    if key == "transition_type"@ {
        OptsView { transition_type: v.opt_text(), ..t }
    } else if key == "transition_fps"@ {
        OptsView { fps: v.opt_text(), ..t }
    } else if key == "transition_duration"@ {
        OptsView { duration: v.opt_text(), ..t }
    } else if key == "transition_step"@ {
        OptsView { step: v.opt_text(), ..t }
    } else if key == "transition_angle"@ {
        OptsView { angle: v.opt_text(), ..t }
    } else if key == "transition_pos"@ {
        OptsView { pos: v.opt_text(), ..t }
    } else if key == "transition_bezier"@ {
        OptsView { bezier: v.opt_text(), ..t }
    } else if key == "transition_wave"@ {
        OptsView { wave: v.opt_text(), ..t }
    } else if key == "resize"@ {
        OptsView { resize: v.opt_text(), ..t }
    } else if key == "fill_color"@ {
        OptsView { fill_color: v.opt_text(), ..t }
    } else if key == "filter"@ {
        OptsView { filter: v.opt_text(), ..t }
    } else if key == "extra_args"@ {
        OptsView { extra_args: words_of(v.text()), ..t }
    } else {
        t
    }
}

pub fn set_transition_key(opts: &mut TransitionOpts, key: &str, v: &Value) -> (owned: bool)
    ensures
        owned == transition_owns(key@),
        final(opts)@ == transition_with(old(opts)@, key@, v@),
{
    if same(key, "transition_type") {
        opts.transition_type = v.opt_text();
    } else if same(key, "transition_fps") {
        opts.fps = v.opt_text();
    } else if same(key, "transition_duration") {
        opts.duration = v.opt_text();
    } else if same(key, "transition_step") {
        opts.step = v.opt_text();
    } else if same(key, "transition_angle") {
        opts.angle = v.opt_text();
    } else if same(key, "transition_pos") {
        opts.pos = v.opt_text();
    } else if same(key, "transition_bezier") {
        opts.bezier = v.opt_text();
    } else if same(key, "transition_wave") {
        opts.wave = v.opt_text();
    } else if same(key, "resize") {
        opts.resize = v.opt_text();
    } else if same(key, "fill_color") {
        opts.fill_color = v.opt_text();
    } else if same(key, "filter") {
        opts.filter = v.opt_text();
    } else if same(key, "extra_args") {
        opts.extra_args = v.args();
    } else {
        return false;
    }
    true
}

// ---------------------------------------------------------------- settings

/// An optional second wallpaper target: the same selection applied to a
/// different backend namespace, using a differently-suffixed file.
pub struct SecondaryTarget {
    pub enabled: bool,
    pub namespace: Option<String>,
    /// Appended to the filename stem to find this target's file.
    pub suffix: String,
    /// When false, a failure applying this target is only a warning.
    pub required: bool,
    /// When a wallpaper has no matching variant on disk, generate a blurred
    /// copy instead of skipping this target.
    pub auto_blur: bool,
    /// Gaussian blur sigma for `auto_blur`.
    pub blur_sigma: Real,
    pub opts: TransitionOpts,
}

pub struct SecondaryView {
    pub enabled: bool,
    pub namespace: Option<Seq<char>>,
    pub suffix: Seq<char>,
    pub required: bool,
    pub auto_blur: bool,
    pub blur_sigma: Seq<char>,
    pub opts: OptsView,
}

impl View for SecondaryTarget {
    type V = SecondaryView;

    open spec fn view(&self) -> SecondaryView {
        SecondaryView {
            enabled: self.enabled,
            namespace: opt_text(self.namespace),
            suffix: self.suffix@,
            required: self.required,
            auto_blur: self.auto_blur,
            blur_sigma: self.blur_sigma@,
            opts: self.opts@,
        }
    }
}

pub struct Config {
    pub wallpaper_dir: String,
    pub cache_dir: String,
    pub thumbnail_size: u32,
    /// `None` disables the sound entirely.
    pub sound_file: Option<String>,
    pub sound_command: String,
    pub notifications: bool,
    pub command: String,
    pub namespace: Option<String>,
    pub opts: TransitionOpts,
    pub secondary: SecondaryTarget,
    pub theme: Theme,
}

/// What a configuration says, as mathematics.
pub struct ConfigView {
    pub wallpaper_dir: Seq<char>,
    pub cache_dir: Seq<char>,
    pub thumbnail_size: u32,
    pub sound_file: Option<Seq<char>>,
    pub sound_command: Seq<char>,
    pub notifications: bool,
    pub command: Seq<char>,
    pub namespace: Option<Seq<char>>,
    pub opts: OptsView,
    pub secondary: SecondaryView,
    pub theme: ThemeView,
}

impl View for Config {
    type V = ConfigView;

    open spec fn view(&self) -> ConfigView {
        ConfigView {
            wallpaper_dir: self.wallpaper_dir@,
            cache_dir: self.cache_dir@,
            thumbnail_size: self.thumbnail_size,
            sound_file: opt_text(self.sound_file),
            sound_command: self.sound_command@,
            notifications: self.notifications,
            command: self.command@,
            namespace: opt_text(self.namespace),
            opts: self.opts@,
            secondary: self.secondary@,
            theme: self.theme@,
        }
    }
}

/// The built-in configuration in an environment.
pub open spec fn default_config(env: Map<Seq<char>, Seq<char>>) -> ConfigView {
    ConfigView {
        wallpaper_dir: below_home("Pictures/Wallpapers"@, env),
        cache_dir: below_cache("walldeck"@, env),
        thumbnail_size: 350,
        sound_file: Some("/usr/share/sounds/freedesktop/stereo/complete.oga"@),
        sound_command: "pw-play"@,
        notifications: true,
        command: "awww"@,
        namespace: None,
        opts: OptsView { transition_type: Some("center"@), fps: Some("60"@), ..no_opts() },
        secondary: SecondaryView {
            enabled: true,
            namespace: Some("overview"@),
            suffix: "-b"@,
            required: false,
            auto_blur: false,
            blur_sigma: "20.0"@,
            opts: OptsView { fps: Some("60"@), ..no_opts() },
        },
        theme: default_theme(),
    }
}

impl ConfigView {
    /// What every configuration in use keeps to.
    pub open spec fn wf(self) -> bool {
        self.thumbnail_size >= 1 && self.theme.wf()
    }

    /// The sound to play, given whether its file is there.
    pub open spec fn sound(self, is_file: bool) -> Option<Seq<char>> {
        if is_file {
            self.sound_file
        } else {
            None
        }
    }

    /// The settings that depend on one another brought in line: radii fit
    /// their boxes, no command means no sound, and a secondary target without
    /// a suffix of its own is no target.
    pub open spec fn finished(self) -> ConfigView {
        ConfigView {
            sound_file: if self.sound_command.len() == 0 {
                None
            } else {
                self.sound_file
            },
            secondary: SecondaryView {
                enabled: self.secondary.enabled && self.secondary.suffix.len() > 0,
                ..self.secondary
            },
            theme: self.theme.clamped(),
            ..self
        }
    }
}

/// The key of the secondary target's option, without its prefix.
pub open spec fn secondary_key(key: Seq<char>) -> Option<Seq<char>> {
    if has_prefix(key, "secondary_"@) {
        Some(key.skip(10))
    } else {
        None
    }
}

/// The kind of the setting behind one of the configuration's own keys, for
/// those that not every text reads as.
pub open spec fn config_kind(key: Seq<char>) -> Option<Kind> {
    if key == "thumbnail_size"@ {
        Some(Kind::Int)
    } else if key == "notifications"@ || key == "secondary_enabled"@ || key
        == "secondary_required"@ || key == "secondary_auto_blur"@ {
        Some(Kind::Bool)
    } else if key == "secondary_blur_sigma"@ {
        Some(Kind::Real)
    } else {
        None
    }
}

/// Whether a key is the configuration's own (and not the theme's).
pub open spec fn config_owns(key: Seq<char>) -> bool {
    config_kind(key) is Some || key == "wallpaper_dir"@ || key == "cache_dir"@ || key
        == "sound_file"@ || key == "sound_command"@ || key == "command"@ || key == "namespace"@
        || key == "secondary_namespace"@ || key == "secondary_suffix"@ || match secondary_key(
        key,
    ) {
        Some(rest) => transition_owns(rest),
        None => transition_owns(key),
    }
}

pub open spec fn bool_or(s: Seq<char>, before: bool) -> bool {
    match bool_value(s) {
        Some(b) => b,
        None => before,
    }
}

/// The configuration after its setting `key` was read from `v`.
pub open spec fn config_with(c: ConfigView, key: Seq<char>, v: ValueView) -> ConfigView {
    let s = v.text();
    if key == "thumbnail_size"@ {
        ConfigView {
            thumbnail_size: match i32_value(s) {
                Some(n) => at_least_int(n, 1) as u32,
                None => c.thumbnail_size,
            },
            ..c
        }
    } else if key == "notifications"@ {
        ConfigView { notifications: bool_or(s, c.notifications), ..c }
    } else if key == "secondary_enabled"@ {
        ConfigView {
            secondary: SecondaryView {
                enabled: bool_or(s, c.secondary.enabled),
                ..c.secondary
            },
            ..c
        }
    } else if key == "secondary_required"@ {
        ConfigView {
            secondary: SecondaryView {
                required: bool_or(s, c.secondary.required),
                ..c.secondary
            },
            ..c
        }
    } else if key == "secondary_auto_blur"@ {
        ConfigView {
            secondary: SecondaryView {
                auto_blur: bool_or(s, c.secondary.auto_blur),
                ..c.secondary
            },
            ..c
        }
    } else if key == "secondary_blur_sigma"@ {
        ConfigView {
            secondary: SecondaryView {
                blur_sigma: real_or(s, Bound::Tenth, c.secondary.blur_sigma),
                ..c.secondary
            },
            ..c
        }
    } else if key == "wallpaper_dir"@ {
        ConfigView { wallpaper_dir: expanded(s, v.env), ..c }
    } else if key == "cache_dir"@ {
        ConfigView { cache_dir: expanded(s, v.env), ..c }
    } else if key == "sound_file"@ {
        ConfigView {
            sound_file: match v.opt_text() {
                Some(t) => Some(expanded(t, v.env)),
                None => None,
            },
            ..c
        }
    } else if key == "sound_command"@ {
        ConfigView { sound_command: s, ..c }
    } else if key == "command"@ {
        ConfigView { command: s, ..c }
    } else if key == "namespace"@ {
        ConfigView { namespace: v.opt_text(), ..c }
    } else if key == "secondary_namespace"@ {
        ConfigView {
            secondary: SecondaryView { namespace: v.opt_text(), ..c.secondary },
            ..c
        }
    } else if key == "secondary_suffix"@ {
        ConfigView { secondary: SecondaryView { suffix: s, ..c.secondary }, ..c }
    } else {
        match secondary_key(key) {
            Some(rest) => ConfigView {
                secondary: SecondaryView {
                    opts: transition_with(c.secondary.opts, rest, v),
                    ..c.secondary
                },
                ..c
            },
            None => ConfigView { opts: transition_with(c.opts, key, v), ..c },
        }
    }
}

fn set_bool(slot: &mut bool, v: &Value, log: &mut Vec<String>)
    ensures
        *final(slot) == bool_or(v@.text(), *old(slot)),
        texts(final(log)@) == kind_logged(Some(Kind::Bool), v@, texts(old(log)@)),
{
    if let Some(b) = v.boolean(log) {
        *slot = b;
    }
}

impl SecondaryTarget {
    fn defaults() -> (r: SecondaryTarget)
        ensures
            r@ == default_config(Map::empty()).secondary,
    {
        proof {
            reveal_strlit("20.0");
            plain_decimals_are_literals("20.0"@, 2);
        }
        let mut opts: TransitionOpts = TransitionOpts::default();
        opts.fps = Some(copy_of("60"));
        SecondaryTarget {
            enabled: true,
            namespace: Some(copy_of("overview")),
            suffix: copy_of("-b"),
            required: false,
            auto_blur: false,
            blur_sigma: Real::known("20.0"),
            opts,
        }
    }
}

/// Where the configuration file is looked for.
pub open spec fn config_path(env: Map<Seq<char>, Seq<char>>) -> Option<Seq<char>> {
    let explicit = value_or_empty(env, "WALLDECK_CONFIG"@);
    let base = value_or_empty(env, "XDG_CONFIG_HOME"@);
    if explicit.len() > 0 {
        Some(expanded(explicit, env))
    } else if base.len() > 0 {
        Some(joined(base, "walldeck/config.conf"@))
    } else if env.dom().contains("HOME"@) {
        Some(joined(env["HOME"@] + "/.config"@, "walldeck/config.conf"@))
    } else {
        None
    }
}

impl Config {
    /// The built-in configuration in an environment.
    pub fn defaults(env: &Env) -> (c: Config)
        ensures
            c@ == default_config(env@),
            c@.wf(),
    {
        let mut opts: TransitionOpts = TransitionOpts::default();
        opts.transition_type = Some(copy_of("center"));
        opts.fps = Some(copy_of("60"));
        Config {
            wallpaper_dir: home_relative("Pictures/Wallpapers", env),
            cache_dir: cache_relative("walldeck", env),
            thumbnail_size: 350,
            sound_file: Some(copy_of("/usr/share/sounds/freedesktop/stereo/complete.oga")),
            sound_command: copy_of("pw-play"),
            notifications: true,
            command: copy_of("awww"),
            namespace: None,
            opts,
            secondary: SecondaryTarget::defaults(),
            theme: Theme::default(),
        }
    }

    /// Path the configuration would be read from, whether or not it exists:
    /// an explicit one, else the XDG configuration directory, else
    /// `~/.config`.
    pub fn path(env: &Env) -> (r: Option<String>)
        ensures
            opt_text(r) == config_path(env@),
    {
        let explicit: String = env.get_or_empty("WALLDECK_CONFIG");
        if !explicit.as_str().is_empty() {
            return Some(expand_path(explicit.as_str(), env));
        }
        let base: String = env.get_or_empty("XDG_CONFIG_HOME");
        if !base.as_str().is_empty() {
            return Some(join_path(base.as_str(), "walldeck/config.conf"));
        }
        match env.get("HOME") {
            Some(home) => {
                let dir: String = concat2(home.as_str(), "/.config");
                Some(join_path(dir.as_str(), "walldeck/config.conf"))
            },
            None => None,
        }
    }

    /// Applies a single key. Returns false, and changes nothing, if the key is
    /// not the configuration's own, so that it can be offered to the theme.
    pub fn set_key(&mut self, key: &str, v: &Value, log: &mut Vec<String>) -> (owned: bool)
        ensures
            owned == config_owns(key@),
            final(self)@ == config_with(old(self)@, key@, v@),
            old(self)@.wf() ==> final(self)@.wf(),
            texts(final(log)@) == kind_logged(config_kind(key@), v@, texts(old(log)@)),
    {
        proof {
            reveal_strlit("secondary_");
        }
        if same(key, "thumbnail_size") {
            if let Some(n) = v.integer(log) {
                self.thumbnail_size = if n < 1 {
                    1
                } else {
                    n as u32
                };
            }
        } else if same(key, "notifications") {
            set_bool(&mut self.notifications, v, log);
        } else if same(key, "secondary_enabled") {
            set_bool(&mut self.secondary.enabled, v, log);
        } else if same(key, "secondary_required") {
            set_bool(&mut self.secondary.required, v, log);
        } else if same(key, "secondary_auto_blur") {
            set_bool(&mut self.secondary.auto_blur, v, log);
        } else if same(key, "secondary_blur_sigma") {
            set_real(&mut self.secondary.blur_sigma, Bound::Tenth, v, log);
        } else if same(key, "wallpaper_dir") {
            self.wallpaper_dir = v.path();
        } else if same(key, "cache_dir") {
            self.cache_dir = v.path();
        } else if same(key, "sound_file") {
            self.sound_file = match v.opt_text() {
                Some(s) => Some(expand_path(s.as_str(), v.env)),
                None => None,
            };
        } else if same(key, "sound_command") {
            self.sound_command = v.text();
        } else if same(key, "command") {
            self.command = v.text();
        } else if same(key, "namespace") {
            self.namespace = v.opt_text();
        } else if same(key, "secondary_namespace") {
            self.secondary.namespace = v.opt_text();
        } else if same(key, "secondary_suffix") {
            self.secondary.suffix = v.text();
        } else if starts_with(key, "secondary_") {
            // Transition options for both targets share one table,
            // distinguished by the prefix.
            let k: Vec<char> = chars_of(key);
            let rest: String = string_of(&k, 10, k.len());
            assert(rest@ =~= key@.skip(10));
            return set_transition_key(&mut self.secondary.opts, rest.as_str(), v);
        } else {
            return set_transition_key(&mut self.opts, key, v);
        }
        true
    }

    /// Normalization that depends on several settings at once, so it cannot
    /// be done key by key.
    pub fn finish(self) -> (c: Config)
        ensures
            c@ == self@.finished(),
            self@.wf() ==> c@.wf(),
    {
        let mut c: Config = self;
        c.theme.clamp();
        if c.sound_command.as_str().is_empty() {
            c.sound_file = None;
        }
        // An empty suffix would make the secondary file identical to the
        // primary, and every wallpaper look like its own variant.
        if c.secondary.suffix.as_str().is_empty() {
            c.secondary.enabled = false;
        }
        c
    }

    /// The sound to play, given whether the configured file is there.
    pub fn sound_path(&self, is_file: bool) -> (r: Option<String>)
        ensures
            opt_text(r) == self@.sound(is_file),
    {
        if is_file {
            copy_opt(&self.sound_file)
        } else {
            None
        }
    }
}

// ---------------------------------------------------------------- lines

/// The number of double quotes in a text.
pub open spec fn quotes(s: Seq<char>) -> nat
    decreases s.len(),
{
    if s.len() == 0 {
        0
    } else if s.last() == '"' {
        quotes(s.drop_last()) + 1
    } else {
        quotes(s.drop_last())
    }
}

/// A `#` starts a comment unless it stands inside double quotes.
pub open spec fn opens_comment(s: Seq<char>, i: int) -> bool {
    s[i] == '#' && quotes(s.take(i)) % 2 == 0
}

/// The position, from `i` on, where the comment starts, or the end.
pub open spec fn comment_start(s: Seq<char>, i: int) -> int
    decreases s.len() - i,
{
    if i >= s.len() {
        s.len() as int
    } else if opens_comment(s, i) {
        i
    } else {
        comment_start(s, i + 1)
    }
}

/// A line up to its comment.
pub open spec fn uncommented(s: Seq<char>) -> Seq<char> {
    s.take(comment_start(s, 0))
}

/// Cuts a line at its first unquoted `#`.
pub fn strip_comment(line: &str) -> (r: String)
    ensures
        r@ == uncommented(line@),
{
    let v: Vec<char> = chars_of(line);
    let mut in_quotes: bool = false;
    let mut i: usize = 0;
    assert(quotes(v@.take(0)) == 0);
    while i < v.len()
        invariant
            i <= v@.len(),
            v@ == line@,
            comment_start(v@, i as int) == comment_start(v@, 0),
            in_quotes == (quotes(v@.take(i as int)) % 2 == 1),
        decreases v@.len() - i,
    {
        let c: char = v[i];
        if c == '#' && !in_quotes {
            assert(v@.subrange(0, i as int) =~= v@.take(i as int));
            return string_of(&v, 0, i);
        }
        assert(v@.take(i + 1).drop_last() =~= v@.take(i as int));
        if c == '"' {
            in_quotes = !in_quotes;
        }
        i = i + 1;
    }
    assert(v@.subrange(0, i as int) =~= v@.take(i as int));
    string_of(&v, 0, i)
}

/// Whether a line, without comment and surrounding white space, says nothing:
/// it is blank or a section header.
pub open spec fn says_nothing(line: Seq<char>) -> bool {
    line.len() == 0 || (line[0] == '[' && line.last() == ']')
}

/// A configuration being read, with the warnings so far.
pub struct Reading {
    pub config: ConfigView,
    pub log: Seq<Seq<char>>,
}

/// The place of line `n` in the file at `path`.
pub open spec fn place(path: Seq<char>, n: nat) -> Seq<char> {
    path + ":"@ + numeral(n)
}

/// What one setting does to a reading: it goes to the configuration, else to
/// the theme, else it is reported as unknown.
pub open spec fn setting_read(r: Reading, v: ValueView) -> Reading {
    if config_owns(v.key) {
        Reading {
            config: config_with(r.config, v.key, v),
            log: kind_logged(config_kind(v.key), v, r.log),
        }
    } else if theme_kind(v.key) is Some {
        Reading {
            config: ConfigView {
                theme: theme_with(r.config.theme, v.key, v.text()),
                ..r.config
            },
            log: kind_logged(theme_kind(v.key), v, r.log),
        }
    } else {
        Reading {
            log: r.log.push(
                "walldeck: "@ + v.loc + ": unknown key '"@ + v.key + "', ignoring"@,
            ),
            ..r
        }
    }
}

/// What one line does to a reading.
pub open spec fn line_read(
    r: Reading,
    raw_line: Seq<char>,
    loc: Seq<char>,
    env: Map<Seq<char>, Seq<char>>,
) -> Reading {
    let line = trimmed(uncommented(raw_line));
    let k = first_index(line, '=');
    if says_nothing(line) {
        r
    } else if k == line.len() {
        Reading {
            log: r.log.push("walldeck: "@ + loc + ": expected `key = value`, skipping"@),
            ..r
        }
    } else {
        setting_read(
            r,
            ValueView {
                raw: trimmed(line.skip(k + 1)),
                key: trimmed(line.take(k)),
                loc,
                env,
            },
        )
    }
}

/// A reading after the first `n` lines.
pub open spec fn lines_read(
    r: Reading,
    all: Seq<Seq<char>>,
    n: nat,
    path: Seq<char>,
    env: Map<Seq<char>, Seq<char>>,
) -> Reading
    decreases n,
{
    if n == 0 {
        r
    } else {
        line_read(
            lines_read(r, all, (n - 1) as nat, path, env),
            all[n - 1],
            place(path, n),
            env,
        )
    }
}

/// The reading of a whole file.
pub open spec fn file_read(
    text: Seq<char>,
    path: Seq<char>,
    env: Map<Seq<char>, Seq<char>>,
    log: Seq<Seq<char>>,
) -> Reading {
    let all = lines_of(text);
    lines_read(Reading { config: default_config(env), log }, all, all.len(), path, env)
}

/// The configuration in effect and the warnings on the way to it.
pub open spec fn loaded(
    env: Map<Seq<char>, Seq<char>>,
    text: Option<Seq<char>>,
    log: Seq<Seq<char>>,
) -> Reading {
    match (config_path(env), text) {
        (Some(path), Some(t)) => {
            let r = file_read(t, path, env, log);
            Reading { config: r.config.finished(), log: r.log }
        },
        _ => Reading { config: default_config(env).finished(), log },
    }
}

impl Config {
    /// Reads one line into the configuration.
    pub fn read_line(&mut self, raw_line: &str, loc: &str, env: &Env, log: &mut Vec<String>)
        ensures
            (Reading { config: final(self)@, log: texts(final(log)@) }) == line_read(
                Reading { config: old(self)@, log: texts(old(log)@) },
                raw_line@,
                loc@,
                env@,
            ),
            old(self)@.wf() ==> final(self)@.wf(),
    {
        let body: String = strip_comment(raw_line);
        let line: String = trim(body.as_str());
        let v: Vec<char> = chars_of(line.as_str());
        if v.len() == 0 || (v[0] == '[' && v[v.len() - 1] == ']') {
            return;
        }
        assert(v@.skip(0) =~= line@);
        let k: usize = find_char(&v, 0, '=');
        if k == v.len() {
            let s: String = concat3("walldeck: ", loc, ": expected `key = value`, skipping");
            proof {
                texts_push(log@, s);
            }
            log.push(s);
            return;
        }
        let left: String = string_of(&v, 0, k);
        let right: String = string_of(&v, k + 1, v.len());
        assert(left@ =~= line@.take(k as int));
        assert(right@ =~= line@.skip(k + 1));
        let key: String = trim(left.as_str());
        let raw: String = trim(right.as_str());
        let value: Value = Value { raw: raw.as_str(), key: key.as_str(), loc, env };
        let ghost before = Reading { config: self@, log: texts(log@) };
        if self.set_key(key.as_str(), &value, log) {
            return;
        }
        proof {
            unowned_keys_change_nothing(before.config, key@, value@);
        }
        if self.theme.set_key(key.as_str(), &value, log) {
            return;
        }
        proof {
            crate::theme::unowned_theme_keys_change_nothing(before.config.theme, key@, value@.text());
        }
        let mut s: String = concat3("walldeck: ", loc, ": unknown key '");
        s.append(key.as_str());
        s.append("', ignoring");
        proof {
            texts_push(log@, s);
        }
        log.push(s);
    }

    /// The configuration in effect: the defaults, changed by what the file at
    /// the configuration's path says. `text` is the content of that file,
    /// `None` when it could not be read.
    pub fn load(env: &Env, text: Option<&str>, log: &mut Vec<String>) -> (c: Config)
        ensures
            (Reading { config: c@, log: texts(final(log)@) }) == loaded(
                env@,
                match text {
                    Some(t) => Some(t@),
                    None => None,
                },
                texts(old(log)@),
            ),
            c@.wf(),
    {
        let mut c: Config = Config::defaults(env);
        let (path, t): (String, &str) = match (Config::path(env), text) {
            (Some(path), Some(t)) => (path, t),
            _ => {
                return c.finish();
            },
        };
        let all: Vec<String> = lines(t);
        let ghost start = Reading { config: c@, log: texts(log@) };
        let ghost ls = texts(all@);
        let mut i: usize = 0;
        while i < all.len()
            invariant
                i <= all@.len(),
                ls == texts(all@),
                c@.wf(),
                (Reading { config: c@, log: texts(log@) }) == lines_read(
                    start,
                    ls,
                    i as nat,
                    path@,
                    env@,
                ),
            decreases all@.len() - i,
        {
            let n: String = to_decimal(i + 1);
            let loc: String = concat3(path.as_str(), ":", n.as_str());
            assert(ls[i as int] == all@[i as int]@);
            c.read_line(all[i].as_str(), loc.as_str(), env, log);
            i = i + 1;
        }
        c.finish()
    }
}

// ---------------------------------------------------------------- laws

/// A key that is not the configuration's own changes nothing in it.
pub proof fn unowned_keys_change_nothing(c: ConfigView, key: Seq<char>, v: ValueView)
    requires
        !config_owns(key),
    ensures
        config_with(c, key, v) == c,
        config_kind(key) is None,
{
}

/// A value that does not read as its key's kind leaves the configuration as
/// it was.
pub proof fn unreadable_values_change_nothing(c: ConfigView, key: Seq<char>, v: ValueView)
    requires
        config_kind(key) is Some,
        !kind_accepts(config_kind(key)->0, v.text()),
    ensures
        config_with(c, key, v) == c,
{
}

/// Setting the same key twice is setting it to the second value, when that
/// one reads.
pub proof fn the_last_value_wins(c: ConfigView, key: Seq<char>, v: ValueView, w: ValueView)
    requires
        config_kind(key) is Some ==> kind_accepts(config_kind(key)->0, w.text()),
    ensures
        config_with(config_with(c, key, v), key, w) == config_with(c, key, w),
{
}

/// Blank lines, comments and section headers leave a reading as it is.
pub proof fn lines_that_say_nothing_change_nothing(
    r: Reading,
    raw_line: Seq<char>,
    loc: Seq<char>,
    env: Map<Seq<char>, Seq<char>>,
)
    requires
        says_nothing(trimmed(uncommented(raw_line))),
    ensures
        line_read(r, raw_line, loc, env) == r,
{
}

proof fn lines_without_settings_change_nothing(
    r: Reading,
    all: Seq<Seq<char>>,
    n: nat,
    path: Seq<char>,
    env: Map<Seq<char>, Seq<char>>,
)
    requires
        n <= all.len(),
        forall|i: int| 0 <= i < all.len() ==> says_nothing(trimmed(uncommented(#[trigger] all[i]))),
    ensures
        lines_read(r, all, n, path, env) == r,
    decreases n,
{
    if n > 0 {
        lines_without_settings_change_nothing(r, all, (n - 1) as nat, path, env);
        lines_that_say_nothing_change_nothing(r, all[n - 1], place(path, n), env);
    }
}

/// A file without settings is as good as no file: the defaults, and no
/// warnings.
pub proof fn a_file_without_settings_is_the_defaults(
    text: Seq<char>,
    path: Seq<char>,
    env: Map<Seq<char>, Seq<char>>,
    log: Seq<Seq<char>>,
)
    requires
        forall|i: int|
            0 <= i < lines_of(text).len() ==> says_nothing(
                trimmed(uncommented(#[trigger] lines_of(text)[i])),
            ),
    ensures
        file_read(text, path, env, log) == (Reading { config: default_config(env), log }),
{
    let all = lines_of(text);
    lines_without_settings_change_nothing(
        Reading { config: default_config(env), log },
        all,
        all.len(),
        path,
        env,
    );
}

/// The value that a line gives to a key.
pub open spec fn line_value(
    line: Seq<char>,
    loc: Seq<char>,
    env: Map<Seq<char>, Seq<char>>,
) -> ValueView {
    let k = first_index(line, '=');
    ValueView { raw: trimmed(line.skip(k + 1)), key: trimmed(line.take(k)), loc, env }
}

/// A line that sets nothing although it tries: it has no `=`, its key is
/// unknown, or its value does not read as the key's kind.
pub open spec fn is_mistaken(
    line: Seq<char>,
    loc: Seq<char>,
    env: Map<Seq<char>, Seq<char>>,
) -> bool {
    let v = line_value(line, loc, env);
    !says_nothing(line) && (first_index(line, '=') == line.len() || if config_owns(v.key) {
        config_kind(v.key) is Some && !kind_accepts(config_kind(v.key)->0, v.text())
    } else {
        theme_kind(v.key) is None || !kind_accepts(theme_kind(v.key)->0, v.text())
    })
}

/// A mistaken line warns, once, and is otherwise ignored. Any other line does
/// not warn.
pub proof fn mistakes_only_warn(
    r: Reading,
    raw_line: Seq<char>,
    loc: Seq<char>,
    env: Map<Seq<char>, Seq<char>>,
)
    ensures
        is_mistaken(trimmed(uncommented(raw_line)), loc, env) ==> {
            let after = line_read(r, raw_line, loc, env);
            &&& after.config == r.config
            &&& after.log.len() == r.log.len() + 1
            &&& after.log.drop_last() == r.log
        },
        !is_mistaken(trimmed(uncommented(raw_line)), loc, env) ==> line_read(
            r,
            raw_line,
            loc,
            env,
        ).log == r.log,
{
    let line = trimmed(uncommented(raw_line));
    let v = line_value(line, loc, env);
    let after = line_read(r, raw_line, loc, env);
    first_index_bounds(line, '=');
    if is_mistaken(line, loc, env) {
        assert(after.log.drop_last() =~= r.log);
        if first_index(line, '=') < line.len() {
            if config_owns(v.key) {
                unreadable_values_change_nothing(r.config, v.key, v);
            } else if theme_kind(v.key) is Some {
                crate::theme::unreadable_values_change_nothing(r.config.theme, v.key, v.text());
            }
        }
    }
}

/// Whether a line leaves the configuration as it is, wherever it stands: it is
/// blank, a comment, a section header, or mistaken.
pub open spec fn sets_nothing(raw_line: Seq<char>, env: Map<Seq<char>, Seq<char>>) -> bool {
    let line = trimmed(uncommented(raw_line));
    says_nothing(line) || is_mistaken(line, Seq::empty(), env)
}

/// The place of a line and the warnings so far have no part in what the line
/// sets.
proof fn places_set_nothing(
    a: Reading,
    b: Reading,
    raw_line: Seq<char>,
    la: Seq<char>,
    lb: Seq<char>,
    env: Map<Seq<char>, Seq<char>>,
)
    requires
        a.config == b.config,
    ensures
        line_read(a, raw_line, la, env).config == line_read(b, raw_line, lb, env).config,
        is_mistaken(trimmed(uncommented(raw_line)), la, env) == is_mistaken(
            trimmed(uncommented(raw_line)),
            lb,
            env,
        ),
{
    let line = trimmed(uncommented(raw_line));
    let va = line_value(line, la, env);
    let vb = line_value(line, lb, env);
    assert(va.text() == vb.text());
    assert(va.opt_text() == vb.opt_text());
}

proof fn kept_lines_decide(
    a: Reading,
    b: Reading,
    all: Seq<Seq<char>>,
    n: nat,
    path: Seq<char>,
    env: Map<Seq<char>, Seq<char>>,
)
    requires
        a.config == b.config,
        n <= all.len(),
    ensures
        ({
            let kept = all.take(n as int).filter(|l: Seq<char>| !sets_nothing(l, env));
            lines_read(a, all, n, path, env).config == lines_read(
                b,
                kept,
                kept.len(),
                path,
                env,
            ).config
        }),
    decreases n,
{
    let f = |l: Seq<char>| !sets_nothing(l, env);
    let kept = all.take(n as int).filter(f);
    reveal(Seq::filter);
    if n > 0 {
        let m = (n - 1) as nat;
        let l = all[n - 1];
        let before = all.take(n - 1).filter(f);
        let ra = lines_read(a, all, m, path, env);
        let rb = lines_read(b, before, before.len(), path, env);
        kept_lines_decide(a, b, all, m, path, env);
        assert(all.take(n as int).drop_last() =~= all.take(n - 1));
        assert(all.take(n as int).last() == l);
        places_set_nothing(ra, ra, l, place(path, n), Seq::empty(), env);
        if sets_nothing(l, env) {
            assert(kept == before);
            mistakes_only_warn(ra, l, place(path, n), env);
        } else {
            assert(kept == before.push(l));
            places_set_nothing(ra, rb, l, place(path, n), place(path, kept.len()), env);
            same_lines_read_the_same(b, before, kept, before.len(), path, env);
        }
    } else {
        assert(all.take(0) =~= Seq::<Seq<char>>::empty());
        assert(kept =~= Seq::<Seq<char>>::empty());
    }
}

/// Only the lines read so far count.
proof fn same_lines_read_the_same(
    r: Reading,
    a: Seq<Seq<char>>,
    b: Seq<Seq<char>>,
    n: nat,
    path: Seq<char>,
    env: Map<Seq<char>, Seq<char>>,
)
    requires
        n <= a.len(),
        n <= b.len(),
        forall|i: int| 0 <= i < n ==> a[i] == b[i],
    ensures
        lines_read(r, a, n, path, env) == lines_read(r, b, n, path, env),
    decreases n,
{
    if n > 0 {
        same_lines_read_the_same(r, a, b, (n - 1) as nat, path, env);
    }
}

/// Blank lines, comments, section headers, lines without `=`, unknown keys and
/// unreadable values can be dropped from a file: what is left gives the same
/// configuration.
pub proof fn only_settings_count(
    text: Seq<char>,
    shorter: Seq<char>,
    path: Seq<char>,
    env: Map<Seq<char>, Seq<char>>,
    log: Seq<Seq<char>>,
)
    requires
        lines_of(shorter) == lines_of(text).filter(|l: Seq<char>| !sets_nothing(l, env)),
    ensures
        file_read(shorter, path, env, log).config == file_read(text, path, env, log).config,
{
    let all = lines_of(text);
    let start = Reading { config: default_config(env), log };
    assert(all.take(all.len() as int) =~= all);
    kept_lines_decide(start, start, all, all.len(), path, env);
}

/// Finishing a finished configuration changes nothing.
pub proof fn finishing_is_idempotent(c: ConfigView)
    ensures
        c.finished().finished() == c.finished(),
{
    crate::theme::clamping_is_idempotent(c.theme);
}

/// Unset options pass nothing, and what is passed is only flags with their
/// values, in pairs, before the extra arguments.
pub proof fn unset_options_emit_no_flags(t: OptsView)
    requires
        t == (OptsView { extra_args: t.extra_args, ..no_opts() }),
    ensures
        t.args() == t.extra_args,
{
    assert(t.args() =~= t.extra_args);
}

/// The two targets' transition options are independent: a key without the
/// prefix never reaches the secondary target, and one with it never reaches
/// the primary one.
pub proof fn targets_are_independent(c: ConfigView, key: Seq<char>, v: ValueView)
    ensures
        secondary_key(key) is None ==> config_with(c, key, v).secondary.opts == c.secondary.opts,
        secondary_key(key) is Some ==> config_with(c, key, v).opts == c.opts,
{
}

/// What tells the keys of the transition options apart.
proof fn transition_keys_differ()
    ensures
        "transition_type"@.len() == 15,
        "transition_fps"@.len() == 14,
        "transition_duration"@.len() == 19,
        "transition_step"@.len() == 15,
        "transition_angle"@.len() == 16,
        "transition_pos"@.len() == 14,
        "transition_bezier"@.len() == 17,
        "transition_wave"@.len() == 15,
        "resize"@.len() == 6,
        "fill_color"@.len() == 10,
        "filter"@.len() == 6,
        "extra_args"@.len() == 10,
        "transition_type"@[11] == 't',
        "transition_fps"@[11] == 'f',
        "transition_step"@[11] == 's',
        "transition_pos"@[11] == 'p',
        "transition_wave"@[11] == 'w',
        "resize"@[0] == 'r',
        "fill_color"@[0] == 'f',
        "filter"@[0] == 'f',
        "extra_args"@[0] == 'e',
{
    reveal_strlit("transition_type");
    reveal_strlit("transition_fps");
    reveal_strlit("transition_duration");
    reveal_strlit("transition_step");
    reveal_strlit("transition_angle");
    reveal_strlit("transition_pos");
    reveal_strlit("transition_bezier");
    reveal_strlit("transition_wave");
    reveal_strlit("resize");
    reveal_strlit("fill_color");
    reveal_strlit("filter");
    reveal_strlit("extra_args");
}

/// What tells the configuration's own keys apart, and from those of the
/// transition options.
proof fn own_keys_differ()
    ensures
        "thumbnail_size"@.len() == 14,
        "notifications"@.len() == 13,
        "secondary_enabled"@.len() == 17,
        "secondary_required"@.len() == 18,
        "secondary_auto_blur"@.len() == 19,
        "secondary_blur_sigma"@.len() == 20,
        "wallpaper_dir"@.len() == 13,
        "cache_dir"@.len() == 9,
        "sound_file"@.len() == 10,
        "sound_command"@.len() == 13,
        "command"@.len() == 7,
        "namespace"@.len() == 9,
        "secondary_namespace"@.len() == 19,
        "secondary_suffix"@.len() == 16,
        "transition_type"@.len() == 15,
        "transition_fps"@.len() == 14,
        "transition_duration"@.len() == 19,
        "transition_step"@.len() == 15,
        "transition_angle"@.len() == 16,
        "transition_pos"@.len() == 14,
        "transition_bezier"@.len() == 17,
        "transition_wave"@.len() == 15,
        "resize"@.len() == 6,
        "fill_color"@.len() == 10,
        "filter"@.len() == 6,
        "extra_args"@.len() == 10,
        "thumbnail_size"@[11] == 'i',
        "notifications"@[0] == 'n',
        "secondary_enabled"@[0] == 's',
        "secondary_auto_blur"@[10] == 'a',
        "wallpaper_dir"@[0] == 'w',
        "cache_dir"@[0] == 'c',
        "sound_file"@[0] == 's',
        "sound_command"@[0] == 's',
        "namespace"@[0] == 'n',
        "secondary_namespace"@[10] == 'n',
        "secondary_suffix"@[0] == 's',
        "transition_type"@[11] == 't',
        "transition_fps"@[11] == 'f',
        "transition_duration"@[10] == '_',
        "transition_step"@[11] == 's',
        "transition_angle"@[0] == 't',
        "transition_pos"@[11] == 'p',
        "transition_bezier"@[0] == 't',
        "transition_wave"@[11] == 'w',
        "resize"@[0] == 'r',
        "fill_color"@[0] == 'f',
        "filter"@[0] == 'f',
        "extra_args"@[0] == 'e',
{
    reveal_strlit("thumbnail_size");
    reveal_strlit("notifications");
    reveal_strlit("secondary_enabled");
    reveal_strlit("secondary_required");
    reveal_strlit("secondary_auto_blur");
    reveal_strlit("secondary_blur_sigma");
    reveal_strlit("wallpaper_dir");
    reveal_strlit("cache_dir");
    reveal_strlit("sound_file");
    reveal_strlit("sound_command");
    reveal_strlit("command");
    reveal_strlit("namespace");
    reveal_strlit("secondary_namespace");
    reveal_strlit("secondary_suffix");
    reveal_strlit("transition_type");
    reveal_strlit("transition_fps");
    reveal_strlit("transition_duration");
    reveal_strlit("transition_step");
    reveal_strlit("transition_angle");
    reveal_strlit("transition_pos");
    reveal_strlit("transition_bezier");
    reveal_strlit("transition_wave");
    reveal_strlit("resize");
    reveal_strlit("fill_color");
    reveal_strlit("filter");
    reveal_strlit("extra_args");
}

/// A value's text, or unset where it is empty.
pub open spec fn text_or_unset(v: ValueView) -> Option<Seq<char>> {
    if v.text().len() > 0 {
        Some(v.text())
    } else {
        None
    }
}

/// Each transition option is set by its own key and by no other, and unset by
/// an empty value; the extra arguments are the value's words.
#[verifier::rlimit(40)]
pub proof fn each_transition_option_has_its_own_key(t: OptsView, key: Seq<char>, v: ValueView)
    ensures
        transition_with(t, key, v).transition_type == (if key == "transition_type"@ {
            text_or_unset(v)
        } else {
            t.transition_type
        }),
        transition_with(t, key, v).fps == (if key == "transition_fps"@ {
            text_or_unset(v)
        } else {
            t.fps
        }),
        transition_with(t, key, v).duration == (if key == "transition_duration"@ {
            text_or_unset(v)
        } else {
            t.duration
        }),
        transition_with(t, key, v).step == (if key == "transition_step"@ {
            text_or_unset(v)
        } else {
            t.step
        }),
        transition_with(t, key, v).angle == (if key == "transition_angle"@ {
            text_or_unset(v)
        } else {
            t.angle
        }),
        transition_with(t, key, v).pos == (if key == "transition_pos"@ {
            text_or_unset(v)
        } else {
            t.pos
        }),
        transition_with(t, key, v).bezier == (if key == "transition_bezier"@ {
            text_or_unset(v)
        } else {
            t.bezier
        }),
        transition_with(t, key, v).wave == (if key == "transition_wave"@ {
            text_or_unset(v)
        } else {
            t.wave
        }),
        transition_with(t, key, v).resize == (if key == "resize"@ {
            text_or_unset(v)
        } else {
            t.resize
        }),
        transition_with(t, key, v).fill_color == (if key == "fill_color"@ {
            text_or_unset(v)
        } else {
            t.fill_color
        }),
        transition_with(t, key, v).filter == (if key == "filter"@ {
            text_or_unset(v)
        } else {
            t.filter
        }),
        transition_with(t, key, v).extra_args == (if key == "extra_args"@ {
            words_of(v.text())
        } else {
            t.extra_args
        }),
{
    transition_keys_differ();
}

/// A key of the secondary target's options is the primary one's with a prefix.
proof fn prefixed_keys(key: Seq<char>, rest: Seq<char>)
    ensures
        secondary_key(key) == Some(rest) <==> key == "secondary_"@ + rest,
{
    reveal_strlit("secondary_");
    if key == "secondary_"@ + rest {
        assert(key.take(10) =~= "secondary_"@);
        assert(key.skip(10) =~= rest);
    }
    if secondary_key(key) == Some(rest) {
        assert(key =~= key.take(10) + key.skip(10));
    }
}

/// A key without the prefix of the secondary target sets an option of the
/// primary one, and a key with it the same option of the secondary one;
/// nothing else changes with them.
#[verifier::rlimit(60)]
pub proof fn the_prefix_tells_the_targets_apart(c: ConfigView, key: Seq<char>, v: ValueView)
    ensures
        transition_owns(key) ==> config_with(c, key, v) == (ConfigView {
            opts: transition_with(c.opts, key, v),
            ..c
        }),
        transition_owns(key) ==> config_with(c, "secondary_"@ + key, v) == (ConfigView {
            secondary: SecondaryView {
                opts: transition_with(c.secondary.opts, key, v),
                ..c.secondary
            },
            ..c
        }),
        transition_owns(key) ==> config_owns(key) && config_owns("secondary_"@ + key),
        transition_owns(key) ==> config_kind(key) is None && config_kind("secondary_"@ + key) is None,
{
    if transition_owns(key) {
        let s = "secondary_"@ + key;
        own_keys_differ();
        reveal_strlit("secondary_");
        prefixed_keys(s, key);
        assert(key[0] != 's') by {
            reveal_strlit("transition_type");
            reveal_strlit("transition_fps");
            reveal_strlit("transition_duration");
            reveal_strlit("transition_step");
            reveal_strlit("transition_angle");
            reveal_strlit("transition_pos");
            reveal_strlit("transition_bezier");
            reveal_strlit("transition_wave");
            reveal_strlit("resize");
            reveal_strlit("fill_color");
            reveal_strlit("filter");
            reveal_strlit("extra_args");
        }
        if secondary_key(key) is Some {
            assert(key.take(10)[0] == key[0]);
        }
        assert(s.len() == 10 + key.len());
        assert(s[10] == key[0]);
        assert(s != "secondary_enabled"@ && s != "secondary_required"@ && s
            != "secondary_auto_blur"@ && s != "secondary_blur_sigma"@ && s
            != "secondary_namespace"@ && s != "secondary_suffix"@) by {
            secondary_rests(key);
        }
        assert(s != "thumbnail_size"@ && s != "notifications"@ && s != "wallpaper_dir"@ && s
            != "cache_dir"@ && s != "sound_file"@ && s != "sound_command"@ && s != "command"@ && s
            != "namespace"@) by {
            assert(s[1] == 'e' && s[2] == 'c');
            assert("thumbnail_size"@[1] == 'h' && "notifications"@[1] == 'o'
                && "wallpaper_dir"@[1] == 'a' && "cache_dir"@[1] == 'a' && "sound_file"@[1] == 'o'
                && "sound_command"@[1] == 'o' && "command"@[1] == 'o' && "namespace"@[1] == 'a') by {
                reveal_strlit("thumbnail_size");
                reveal_strlit("notifications");
                reveal_strlit("wallpaper_dir");
                reveal_strlit("cache_dir");
                reveal_strlit("sound_file");
                reveal_strlit("sound_command");
                reveal_strlit("command");
                reveal_strlit("namespace");
            }
        }
    }
}

/// The secondary target's own keys are not those of its options.
proof fn secondary_rests(key: Seq<char>)
    requires
        transition_owns(key),
    ensures
        "secondary_"@ + key != "secondary_enabled"@,
        "secondary_"@ + key != "secondary_required"@,
        "secondary_"@ + key != "secondary_auto_blur"@,
        "secondary_"@ + key != "secondary_blur_sigma"@,
        "secondary_"@ + key != "secondary_namespace"@,
        "secondary_"@ + key != "secondary_suffix"@,
{
    let s = "secondary_"@ + key;
    reveal_strlit("secondary_");
    reveal_strlit("transition_type");
    reveal_strlit("transition_fps");
    reveal_strlit("transition_duration");
    reveal_strlit("transition_step");
    reveal_strlit("transition_angle");
    reveal_strlit("transition_pos");
    reveal_strlit("transition_bezier");
    reveal_strlit("transition_wave");
    reveal_strlit("resize");
    reveal_strlit("fill_color");
    reveal_strlit("filter");
    reveal_strlit("extra_args");
    reveal_strlit("secondary_enabled");
    reveal_strlit("secondary_required");
    reveal_strlit("secondary_auto_blur");
    reveal_strlit("secondary_blur_sigma");
    reveal_strlit("secondary_namespace");
    reveal_strlit("secondary_suffix");
    assert(s.skip(10) =~= key);
    if s == "secondary_enabled"@ {
        assert(s.len() == 17 && s[10] == 'e' && s[11] == 'n' && s[12] == 'a');
        assert(key[0] == s[10] && key[1] == s[11] && key[2] == s[12]);
    }
    if s == "secondary_required"@ {
        assert(s.len() == 18 && s[10] == 'r' && s[11] == 'e' && s[12] == 'q');
        assert(key[0] == s[10] && key[1] == s[11] && key[2] == s[12]);
    }
    if s == "secondary_auto_blur"@ {
        assert(s.len() == 19 && s[10] == 'a' && s[11] == 'u' && s[12] == 't');
        assert(key[0] == s[10] && key[1] == s[11] && key[2] == s[12]);
    }
    if s == "secondary_blur_sigma"@ {
        assert(s.len() == 20 && s[10] == 'b' && s[11] == 'l' && s[12] == 'u');
        assert(key[0] == s[10] && key[1] == s[11] && key[2] == s[12]);
    }
    if s == "secondary_namespace"@ {
        assert(s.len() == 19 && s[10] == 'n' && s[11] == 'a' && s[12] == 'm');
        assert(key[0] == s[10] && key[1] == s[11] && key[2] == s[12]);
    }
    if s == "secondary_suffix"@ {
        assert(s.len() == 16 && s[10] == 's' && s[11] == 'u' && s[12] == 'f');
        assert(key[0] == s[10] && key[1] == s[11] && key[2] == s[12]);
    }
}

/// Each of the configuration's own settings is set by its own key and by no
/// other: directories and the sound's file are expanded, texts are taken as they
/// are, an empty text unsets what can be unset, and a value that does not read
/// as what its key asks for leaves the setting as it was.
#[verifier::rlimit(60)]
pub proof fn each_setting_has_its_own_key(c: ConfigView, key: Seq<char>, v: ValueView)
    ensures
        config_with(c, key, v).wallpaper_dir == (if key == "wallpaper_dir"@ {
            expanded(v.text(), v.env)
        } else {
            c.wallpaper_dir
        }),
        config_with(c, key, v).cache_dir == (if key == "cache_dir"@ {
            expanded(v.text(), v.env)
        } else {
            c.cache_dir
        }),
        config_with(c, key, v).sound_file == (if key == "sound_file"@ {
            if v.text().len() > 0 {
                Some(expanded(v.text(), v.env))
            } else {
                None
            }
        } else {
            c.sound_file
        }),
        config_with(c, key, v).sound_command == (if key == "sound_command"@ {
            v.text()
        } else {
            c.sound_command
        }),
        config_with(c, key, v).command == (if key == "command"@ {
            v.text()
        } else {
            c.command
        }),
        config_with(c, key, v).namespace == (if key == "namespace"@ {
            text_or_unset(v)
        } else {
            c.namespace
        }),
        config_with(c, key, v).secondary.namespace == (if key == "secondary_namespace"@ {
            text_or_unset(v)
        } else {
            c.secondary.namespace
        }),
        config_with(c, key, v).secondary.suffix == (if key == "secondary_suffix"@ {
            v.text()
        } else {
            c.secondary.suffix
        }),
        config_with(c, key, v).notifications == (if key == "notifications"@ && bool_value(v.text()) is Some {
            bool_value(v.text())->0
        } else {
            c.notifications
        }),
        config_with(c, key, v).secondary.enabled == (if key == "secondary_enabled"@ && bool_value(v.text()) is Some {
            bool_value(v.text())->0
        } else {
            c.secondary.enabled
        }),
        config_with(c, key, v).secondary.required == (if key == "secondary_required"@ && bool_value(v.text()) is Some {
            bool_value(v.text())->0
        } else {
            c.secondary.required
        }),
        config_with(c, key, v).secondary.auto_blur == (if key == "secondary_auto_blur"@ && bool_value(v.text()) is Some {
            bool_value(v.text())->0
        } else {
            c.secondary.auto_blur
        }),
        config_with(c, key, v).thumbnail_size == (if key == "thumbnail_size"@ && i32_value(
            v.text(),
        ) is Some {
            if i32_value(v.text())->0 < 1 {
                1
            } else {
                i32_value(v.text())->0 as u32
            }
        } else {
            c.thumbnail_size
        }),
        config_with(c, key, v).secondary.blur_sigma == (if key == "secondary_blur_sigma"@
            && literal_of(v.text()) is Some {
            if reaches(literal_of(v.text())->0, Bound::Tenth) {
                v.text()
            } else {
                "0.1"@
            }
        } else {
            c.secondary.blur_sigma
        }),
        config_with(c, key, v).theme == c.theme,
{
    own_keys_differ();
}

/// Each transition option of either target is set by its own key and by no
/// other.
#[verifier::rlimit(100)]
pub proof fn each_target_has_its_own_options(c: ConfigView, key: Seq<char>, v: ValueView)
    ensures
        config_with(c, key, v).opts.transition_type == (if key == "transition_type"@ {
            text_or_unset(v)
        } else {
            c.opts.transition_type
        }),
        config_with(c, key, v).secondary.opts.transition_type == (if key == "secondary_"@ + "transition_type"@ {
            text_or_unset(v)
        } else {
            c.secondary.opts.transition_type
        }),
        config_with(c, key, v).opts.fps == (if key == "transition_fps"@ {
            text_or_unset(v)
        } else {
            c.opts.fps
        }),
        config_with(c, key, v).secondary.opts.fps == (if key == "secondary_"@ + "transition_fps"@ {
            text_or_unset(v)
        } else {
            c.secondary.opts.fps
        }),
        config_with(c, key, v).opts.duration == (if key == "transition_duration"@ {
            text_or_unset(v)
        } else {
            c.opts.duration
        }),
        config_with(c, key, v).secondary.opts.duration == (if key == "secondary_"@ + "transition_duration"@ {
            text_or_unset(v)
        } else {
            c.secondary.opts.duration
        }),
        config_with(c, key, v).opts.step == (if key == "transition_step"@ {
            text_or_unset(v)
        } else {
            c.opts.step
        }),
        config_with(c, key, v).secondary.opts.step == (if key == "secondary_"@ + "transition_step"@ {
            text_or_unset(v)
        } else {
            c.secondary.opts.step
        }),
        config_with(c, key, v).opts.angle == (if key == "transition_angle"@ {
            text_or_unset(v)
        } else {
            c.opts.angle
        }),
        config_with(c, key, v).secondary.opts.angle == (if key == "secondary_"@ + "transition_angle"@ {
            text_or_unset(v)
        } else {
            c.secondary.opts.angle
        }),
        config_with(c, key, v).opts.pos == (if key == "transition_pos"@ {
            text_or_unset(v)
        } else {
            c.opts.pos
        }),
        config_with(c, key, v).secondary.opts.pos == (if key == "secondary_"@ + "transition_pos"@ {
            text_or_unset(v)
        } else {
            c.secondary.opts.pos
        }),
        config_with(c, key, v).opts.bezier == (if key == "transition_bezier"@ {
            text_or_unset(v)
        } else {
            c.opts.bezier
        }),
        config_with(c, key, v).secondary.opts.bezier == (if key == "secondary_"@ + "transition_bezier"@ {
            text_or_unset(v)
        } else {
            c.secondary.opts.bezier
        }),
        config_with(c, key, v).opts.wave == (if key == "transition_wave"@ {
            text_or_unset(v)
        } else {
            c.opts.wave
        }),
        config_with(c, key, v).secondary.opts.wave == (if key == "secondary_"@ + "transition_wave"@ {
            text_or_unset(v)
        } else {
            c.secondary.opts.wave
        }),
        config_with(c, key, v).opts.resize == (if key == "resize"@ {
            text_or_unset(v)
        } else {
            c.opts.resize
        }),
        config_with(c, key, v).secondary.opts.resize == (if key == "secondary_"@ + "resize"@ {
            text_or_unset(v)
        } else {
            c.secondary.opts.resize
        }),
        config_with(c, key, v).opts.fill_color == (if key == "fill_color"@ {
            text_or_unset(v)
        } else {
            c.opts.fill_color
        }),
        config_with(c, key, v).secondary.opts.fill_color == (if key == "secondary_"@ + "fill_color"@ {
            text_or_unset(v)
        } else {
            c.secondary.opts.fill_color
        }),
        config_with(c, key, v).opts.filter == (if key == "filter"@ {
            text_or_unset(v)
        } else {
            c.opts.filter
        }),
        config_with(c, key, v).secondary.opts.filter == (if key == "secondary_"@ + "filter"@ {
            text_or_unset(v)
        } else {
            c.secondary.opts.filter
        }),
        config_with(c, key, v).opts.extra_args == (if key == "extra_args"@ {
            words_of(v.text())
        } else {
            c.opts.extra_args
        }),
        config_with(c, key, v).secondary.opts.extra_args == (if key == "secondary_"@
            + "extra_args"@ {
            words_of(v.text())
        } else {
            c.secondary.opts.extra_args
        }),
{
    each_transition_option_has_its_own_key(c.opts, key, v);
    targets_are_independent(c, key, v);
    the_prefix_tells_the_targets_apart(c, key, v);
    let rest = key.skip(10);
    each_transition_option_has_its_own_key(c.secondary.opts, rest, v);
    the_prefix_tells_the_targets_apart(c, rest, v);
    prefixed_keys(key, "transition_type"@);
    prefixed_keys(key, "transition_fps"@);
    prefixed_keys(key, "transition_duration"@);
    prefixed_keys(key, "transition_step"@);
    prefixed_keys(key, "transition_angle"@);
    prefixed_keys(key, "transition_pos"@);
    prefixed_keys(key, "transition_bezier"@);
    prefixed_keys(key, "transition_wave"@);
    prefixed_keys(key, "resize"@);
    prefixed_keys(key, "fill_color"@);
    prefixed_keys(key, "filter"@);
    prefixed_keys(key, "extra_args"@);
    if has_prefix(key, "secondary_"@) {
        prefixed_keys(key, rest);
    }
}

/// What tells the configuration's keys from the theme's.
proof fn owners_differ()
    ensures
        "thumbnail_size"@.len() == 14,
        "notifications"@.len() == 13,
        "secondary_enabled"@.len() == 17,
        "secondary_required"@.len() == 18,
        "secondary_auto_blur"@.len() == 19,
        "secondary_blur_sigma"@.len() == 20,
        "wallpaper_dir"@.len() == 13,
        "cache_dir"@.len() == 9,
        "sound_file"@.len() == 10,
        "sound_command"@.len() == 13,
        "command"@.len() == 7,
        "namespace"@.len() == 9,
        "secondary_namespace"@.len() == 19,
        "secondary_suffix"@.len() == 16,
        "transition_type"@.len() == 15,
        "transition_fps"@.len() == 14,
        "transition_duration"@.len() == 19,
        "transition_step"@.len() == 15,
        "transition_angle"@.len() == 16,
        "transition_pos"@.len() == 14,
        "transition_bezier"@.len() == 17,
        "transition_wave"@.len() == 15,
        "resize"@.len() == 6,
        "fill_color"@.len() == 10,
        "filter"@.len() == 6,
        "extra_args"@.len() == 10,
        "window_width"@.len() == 12,
        "window_height"@.len() == 13,
        "icon_size"@.len() == 9,
        "spacing"@.len() == 7,
        "padding"@.len() == 7,
        "corner_radius"@.len() == 13,
        "window_corner_radius"@.len() == 20,
        "search_bar_height"@.len() == 17,
        "search_bar_width"@.len() == 16,
        "search_bar_gap"@.len() == 14,
        "search_bar_corner_radius"@.len() == 24,
        "highlight_border_width"@.len() == 22,
        "background"@.len() == 10,
        "search_bar_background"@.len() == 21,
        "search_text_color"@.len() == 17,
        "highlight_border"@.len() == 16,
        "dim_opacity"@.len() == 11,
        "open_duration_ms"@.len() == 16,
        "close_duration_ms"@.len() == 17,
        "open_close_scale_from"@.len() == 21,
        "scroll_smoothing"@.len() == 16,
        "highlight_smoothing"@.len() == 19,
        "momentum_half_life_ms"@.len() == 21,
        "open_close_curve"@.len() == 16,
        "wheel_step"@.len() == 10,
        "background"@[0] == 'b',
        "cache_dir"@[0] == 'c',
        "close_duration_ms"@[0] == 'c',
        "close_duration_ms"@[2] == 'o',
        "command"@[0] == 'c',
        "corner_radius"@[0] == 'c',
        "extra_args"@[0] == 'e',
        "fill_color"@[0] == 'f',
        "highlight_border"@[0] == 'h',
        "highlight_border"@[2] == 'g',
        "highlight_smoothing"@[0] == 'h',
        "icon_size"@[0] == 'i',
        "namespace"@[0] == 'n',
        "notifications"@[0] == 'n',
        "open_close_curve"@[0] == 'o',
        "open_close_curve"@[2] == 'e',
        "open_duration_ms"@[0] == 'o',
        "open_duration_ms"@[2] == 'e',
        "padding"@[0] == 'p',
        "scroll_smoothing"@[0] == 's',
        "scroll_smoothing"@[2] == 'r',
        "search_bar_gap"@[0] == 's',
        "search_bar_height"@[0] == 's',
        "search_bar_height"@[2] == 'a',
        "search_bar_width"@[0] == 's',
        "search_bar_width"@[2] == 'a',
        "search_text_color"@[0] == 's',
        "search_text_color"@[2] == 'a',
        "secondary_auto_blur"@[0] == 's',
        "secondary_blur_sigma"@[0] == 's',
        "secondary_enabled"@[2] == 'c',
        "secondary_namespace"@[0] == 's',
        "secondary_suffix"@[2] == 'c',
        "sound_command"@[0] == 's',
        "sound_file"@[0] == 's',
        "spacing"@[0] == 's',
        "thumbnail_size"@[0] == 't',
        "transition_angle"@[0] == 't',
        "transition_bezier"@[0] == 't',
        "transition_duration"@[0] == 't',
        "transition_fps"@[0] == 't',
        "transition_pos"@[0] == 't',
        "wallpaper_dir"@[0] == 'w',
        "wallpaper_dir"@[1] == 'a',
        "wheel_step"@[0] == 'w',
        "window_corner_radius"@[0] == 'w',
        "window_height"@[0] == 'w',
        "window_height"@[1] == 'i',
{
    reveal_strlit("thumbnail_size");
    reveal_strlit("notifications");
    reveal_strlit("secondary_enabled");
    reveal_strlit("secondary_required");
    reveal_strlit("secondary_auto_blur");
    reveal_strlit("secondary_blur_sigma");
    reveal_strlit("wallpaper_dir");
    reveal_strlit("cache_dir");
    reveal_strlit("sound_file");
    reveal_strlit("sound_command");
    reveal_strlit("command");
    reveal_strlit("namespace");
    reveal_strlit("secondary_namespace");
    reveal_strlit("secondary_suffix");
    reveal_strlit("transition_type");
    reveal_strlit("transition_fps");
    reveal_strlit("transition_duration");
    reveal_strlit("transition_step");
    reveal_strlit("transition_angle");
    reveal_strlit("transition_pos");
    reveal_strlit("transition_bezier");
    reveal_strlit("transition_wave");
    reveal_strlit("resize");
    reveal_strlit("fill_color");
    reveal_strlit("filter");
    reveal_strlit("extra_args");
    reveal_strlit("window_width");
    reveal_strlit("window_height");
    reveal_strlit("icon_size");
    reveal_strlit("spacing");
    reveal_strlit("padding");
    reveal_strlit("corner_radius");
    reveal_strlit("window_corner_radius");
    reveal_strlit("search_bar_height");
    reveal_strlit("search_bar_width");
    reveal_strlit("search_bar_gap");
    reveal_strlit("search_bar_corner_radius");
    reveal_strlit("highlight_border_width");
    reveal_strlit("background");
    reveal_strlit("search_bar_background");
    reveal_strlit("search_text_color");
    reveal_strlit("highlight_border");
    reveal_strlit("dim_opacity");
    reveal_strlit("open_duration_ms");
    reveal_strlit("close_duration_ms");
    reveal_strlit("open_close_scale_from");
    reveal_strlit("scroll_smoothing");
    reveal_strlit("highlight_smoothing");
    reveal_strlit("momentum_half_life_ms");
    reveal_strlit("open_close_curve");
    reveal_strlit("wheel_step");
}

/// No key is both the configuration's and the theme's.
#[verifier::rlimit(60)]
pub proof fn every_key_has_one_owner(key: Seq<char>)
    ensures
        config_owns(key) ==> theme_kind(key) is None,
{
    owners_differ();
    if theme_kind(key) is Some {
        assert(!has_prefix(key, "secondary_"@)) by {
            reveal_strlit("secondary_");
            reveal_strlit("window_width");
            reveal_strlit("window_height");
            reveal_strlit("icon_size");
            reveal_strlit("spacing");
            reveal_strlit("padding");
            reveal_strlit("corner_radius");
            reveal_strlit("window_corner_radius");
            reveal_strlit("search_bar_height");
            reveal_strlit("search_bar_width");
            reveal_strlit("search_bar_gap");
            reveal_strlit("search_bar_corner_radius");
            reveal_strlit("highlight_border_width");
            reveal_strlit("background");
            reveal_strlit("search_bar_background");
            reveal_strlit("search_text_color");
            reveal_strlit("highlight_border");
            reveal_strlit("dim_opacity");
            reveal_strlit("open_duration_ms");
            reveal_strlit("close_duration_ms");
            reveal_strlit("open_close_scale_from");
            reveal_strlit("scroll_smoothing");
            reveal_strlit("highlight_smoothing");
            reveal_strlit("momentum_half_life_ms");
            reveal_strlit("open_close_curve");
            reveal_strlit("wheel_step");
            if has_prefix(key, "secondary_"@) {
                assert(key.take(10)[0] == key[0] && key.take(10)[2] == key[2] && key.take(10)[1]
                    == key[1]);
            }
        }
        assert(secondary_key(key) is None);
    }
}

/// An option that is set is passed as its own flag and its value.
pub proof fn each_option_has_its_own_flag(value: Seq<char>, extra: Seq<Seq<char>>)
    ensures
        value.len() > 0 ==> (OptsView { transition_type: Some(value), ..no_opts() }).args() == seq![
            "--transition-type"@,
            value,
        ],
        value.len() > 0 ==> (OptsView { fps: Some(value), ..no_opts() }).args() == seq![
            "--transition-fps"@,
            value,
        ],
        value.len() > 0 ==> (OptsView { duration: Some(value), ..no_opts() }).args() == seq![
            "--transition-duration"@,
            value,
        ],
        value.len() > 0 ==> (OptsView { step: Some(value), ..no_opts() }).args() == seq![
            "--transition-step"@,
            value,
        ],
        value.len() > 0 ==> (OptsView { angle: Some(value), ..no_opts() }).args() == seq![
            "--transition-angle"@,
            value,
        ],
        value.len() > 0 ==> (OptsView { pos: Some(value), ..no_opts() }).args() == seq![
            "--transition-pos"@,
            value,
        ],
        value.len() > 0 ==> (OptsView { bezier: Some(value), ..no_opts() }).args() == seq![
            "--transition-bezier"@,
            value,
        ],
        value.len() > 0 ==> (OptsView { wave: Some(value), ..no_opts() }).args() == seq![
            "--transition-wave"@,
            value,
        ],
        value.len() > 0 ==> (OptsView { resize: Some(value), ..no_opts() }).args() == seq![
            "--resize"@,
            value,
        ],
        value.len() > 0 ==> (OptsView { fill_color: Some(value), ..no_opts() }).args() == seq![
            "--fill-color"@,
            value,
        ],
        value.len() > 0 ==> (OptsView { filter: Some(value), ..no_opts() }).args() == seq![
            "--filter"@,
            value,
        ],
        (OptsView { extra_args: extra, ..no_opts() }).args() == extra,
        no_opts().args().len() == 0,
{
    if value.len() > 0 {
        assert((OptsView { transition_type: Some(value), ..no_opts() }).args() =~= seq!["--transition-type"@, value]);
    }
    if value.len() > 0 {
        assert((OptsView { fps: Some(value), ..no_opts() }).args() =~= seq!["--transition-fps"@, value]);
    }
    if value.len() > 0 {
        assert((OptsView { duration: Some(value), ..no_opts() }).args() =~= seq!["--transition-duration"@, value]);
    }
    if value.len() > 0 {
        assert((OptsView { step: Some(value), ..no_opts() }).args() =~= seq!["--transition-step"@, value]);
    }
    if value.len() > 0 {
        assert((OptsView { angle: Some(value), ..no_opts() }).args() =~= seq!["--transition-angle"@, value]);
    }
    if value.len() > 0 {
        assert((OptsView { pos: Some(value), ..no_opts() }).args() =~= seq!["--transition-pos"@, value]);
    }
    if value.len() > 0 {
        assert((OptsView { bezier: Some(value), ..no_opts() }).args() =~= seq!["--transition-bezier"@, value]);
    }
    if value.len() > 0 {
        assert((OptsView { wave: Some(value), ..no_opts() }).args() =~= seq!["--transition-wave"@, value]);
    }
    if value.len() > 0 {
        assert((OptsView { resize: Some(value), ..no_opts() }).args() =~= seq!["--resize"@, value]);
    }
    if value.len() > 0 {
        assert((OptsView { fill_color: Some(value), ..no_opts() }).args() =~= seq!["--fill-color"@, value]);
    }
    if value.len() > 0 {
        assert((OptsView { filter: Some(value), ..no_opts() }).args() =~= seq!["--filter"@, value]);
    }
    assert((OptsView { extra_args: extra, ..no_opts() }).args() =~= extra);
}

/// Options are passed side by side, in a fixed order, and the extra arguments
/// behind them.
pub proof fn options_are_passed_side_by_side(t: OptsView)
    ensures
        t.args() == (OptsView { transition_type: t.transition_type, ..no_opts() }).args()
            + (OptsView { fps: t.fps, ..no_opts() }).args()
            + (OptsView { duration: t.duration, ..no_opts() }).args()
            + (OptsView { step: t.step, ..no_opts() }).args()
            + (OptsView { angle: t.angle, ..no_opts() }).args()
            + (OptsView { pos: t.pos, ..no_opts() }).args()
            + (OptsView { bezier: t.bezier, ..no_opts() }).args()
            + (OptsView { wave: t.wave, ..no_opts() }).args()
            + (OptsView { resize: t.resize, ..no_opts() }).args()
            + (OptsView { fill_color: t.fill_color, ..no_opts() }).args()
            + (OptsView { filter: t.filter, ..no_opts() }).args()
            + t.extra_args,
{
    assert((OptsView { transition_type: t.transition_type, ..no_opts() }).args() =~= flag_args("--transition-type"@, t.transition_type));
    assert((OptsView { fps: t.fps, ..no_opts() }).args() =~= flag_args("--transition-fps"@, t.fps));
    assert((OptsView { duration: t.duration, ..no_opts() }).args() =~= flag_args("--transition-duration"@, t.duration));
    assert((OptsView { step: t.step, ..no_opts() }).args() =~= flag_args("--transition-step"@, t.step));
    assert((OptsView { angle: t.angle, ..no_opts() }).args() =~= flag_args("--transition-angle"@, t.angle));
    assert((OptsView { pos: t.pos, ..no_opts() }).args() =~= flag_args("--transition-pos"@, t.pos));
    assert((OptsView { bezier: t.bezier, ..no_opts() }).args() =~= flag_args("--transition-bezier"@, t.bezier));
    assert((OptsView { wave: t.wave, ..no_opts() }).args() =~= flag_args("--transition-wave"@, t.wave));
    assert((OptsView { resize: t.resize, ..no_opts() }).args() =~= flag_args("--resize"@, t.resize));
    assert((OptsView { fill_color: t.fill_color, ..no_opts() }).args() =~= flag_args("--fill-color"@, t.fill_color));
    assert((OptsView { filter: t.filter, ..no_opts() }).args() =~= flag_args("--filter"@, t.filter));
    assert(t.args() =~= (OptsView { transition_type: t.transition_type, ..no_opts() }).args()
            + (OptsView { fps: t.fps, ..no_opts() }).args()
            + (OptsView { duration: t.duration, ..no_opts() }).args()
            + (OptsView { step: t.step, ..no_opts() }).args()
            + (OptsView { angle: t.angle, ..no_opts() }).args()
            + (OptsView { pos: t.pos, ..no_opts() }).args()
            + (OptsView { bezier: t.bezier, ..no_opts() }).args()
            + (OptsView { wave: t.wave, ..no_opts() }).args()
            + (OptsView { resize: t.resize, ..no_opts() }).args()
            + (OptsView { fill_color: t.fill_color, ..no_opts() }).args()
            + (OptsView { filter: t.filter, ..no_opts() }).args()
            + t.extra_args);
}

/// An option with an empty value is as good as unset.
pub proof fn empty_options_are_not_passed(flag: Seq<char>, value: Option<Seq<char>>)
    ensures
        value is None || value->0.len() == 0 ==> flag_args(flag, value).len() == 0,
        value is Some && value->0.len() > 0 ==> flag_args(flag, value) == seq![flag, value->0],
{
}

/// A setting reaches its owner: whatever the key, the configuration's settings
/// change as the configuration says and the theme's as the theme says, and a key
/// that neither knows is reported with its place and name.
pub proof fn settings_reach_their_owner(r: Reading, v: ValueView)
    ensures
        setting_read(r, v).config == (ConfigView {
            theme: theme_with(r.config.theme, v.key, v.text()),
            ..config_with(r.config, v.key, v)
        }),
        !config_owns(v.key) && theme_kind(v.key) is None ==> setting_read(r, v).config == r.config
            && setting_read(r, v).log == r.log.push(
            "walldeck: "@ + v.loc + ": unknown key '"@ + v.key + "', ignoring"@,
        ),
{
    every_key_has_one_owner(v.key);
    if config_owns(v.key) {
        crate::theme::unowned_theme_keys_change_nothing(r.config.theme, v.key, v.text());
    } else {
        unowned_keys_change_nothing(r.config, v.key, v);
        if theme_kind(v.key) is None {
            crate::theme::unowned_theme_keys_change_nothing(r.config.theme, v.key, v.text());
        }
    }
}

// ---------------------------------------------------------------- comments

proof fn quotes_add_up(a: Seq<char>, b: Seq<char>)
    ensures
        quotes(a + b) == quotes(a) + quotes(b),
    decreases b.len(),
{
    if b.len() > 0 {
        assert((a + b).drop_last() =~= a + b.drop_last());
        quotes_add_up(a, b.drop_last());
    } else {
        assert(a + b =~= a);
    }
}

proof fn no_quotes_to_count(a: Seq<char>)
    requires
        !a.contains('"'),
    ensures
        quotes(a) == 0,
    decreases a.len(),
{
    if a.len() > 0 {
        assert(a.contains(a[a.len() - 1]));
        assert forall|c: char| a.drop_last().contains(c) implies a.contains(c) by {
            let j = choose|j: int| 0 <= j < a.drop_last().len() && a.drop_last()[j] == c;
            assert(a[j] == c);
        }
        no_quotes_to_count(a.drop_last());
    }
}

proof fn comments_start_at(s: Seq<char>, i: int, k: int)
    requires
        0 <= i <= k <= s.len(),
        forall|j: int| i <= j < k ==> !opens_comment(s, j),
        k < s.len() ==> opens_comment(s, k),
    ensures
        comment_start(s, i) == k,
    decreases k - i,
{
    if i < k {
        comments_start_at(s, i + 1, k);
    }
}

/// A comment goes from the first `#` outside of quotes to the end of the line:
/// what stands before it is kept, and a line without one is kept whole.
pub proof fn comments_end_a_line(a: Seq<char>, rest: Seq<char>)
    requires
        !a.contains('#'),
    ensures
        !a.contains('"') ==> uncommented(a + seq!['#'] + rest) == a,
        uncommented(a) == a,
{
    let s = a + seq!['#'] + rest;
    let k = a.len() as int;
    assert(s.take(k) =~= a);
    assert forall|j: int| 0 <= j < k implies !opens_comment(s, j) && !opens_comment(a, j) by {
        assert(a.contains(a[j]));
        assert(s[j] == a[j]);
    }
    if !a.contains('"') {
        no_quotes_to_count(a);
        comments_start_at(s, 0, k);
    }
    comments_start_at(a, 0, k);
    assert(a.take(k) =~= a);
}

/// A `#` between quotes is no comment.
pub proof fn quoted_hashes_are_kept(a: Seq<char>, q: Seq<char>, b: Seq<char>)
    requires
        !a.contains('#'),
        !a.contains('"'),
        !q.contains('"'),
        !b.contains('#'),
    ensures
        uncommented(a + seq!['"'] + q + seq!['"'] + b) == a + seq!['"'] + q + seq!['"'] + b,
{
    let s = a + seq!['"'] + q + seq!['"'] + b;
    no_quotes_to_count(a);
    assert forall|j: int| 0 <= j < s.len() implies !opens_comment(s, j) by {
        if j < a.len() {
            assert(a.contains(a[j]));
            assert(s[j] == a[j]);
        } else if a.len() < j < a.len() + 1 + q.len() {
            let m = j - a.len() - 1;
            let t = q.take(m);
            assert(s.take(j) =~= a + seq!['"'] + t);
            assert forall|c: char| t.contains(c) implies q.contains(c) by {
                let i = choose|i: int| 0 <= i < t.len() && t[i] == c;
                assert(q[i] == c);
            }
            no_quotes_to_count(t);
            quotes_add_up(a + seq!['"'], t);
            quotes_add_up(a, seq!['"']);
            assert(seq!['"'].drop_last() =~= Seq::<char>::empty());
            assert(quotes(Seq::<char>::empty()) == 0);
            assert(quotes(seq!['"']) == 1);
        } else if j > a.len() + 1 + q.len() {
            let m = j - a.len() - 2 - q.len();
            assert(b.contains(b[m]));
            assert(s[j] == b[m]);
        }
    }
    comments_start_at(s, 0, s.len() as int);
    assert(s.take(s.len() as int) =~= s);
}

/// Nothing but white space.
pub open spec fn is_blank(s: Seq<char>) -> bool {
    forall|i: int| 0 <= i < s.len() ==> is_space(#[trigger] s[i])
}

proof fn blanks_join(a: Seq<char>, b: Seq<char>)
    requires
        is_blank(a),
        is_blank(b),
    ensures
        is_blank(a + b),
{
    assert forall|i: int| 0 <= i < (a + b).len() implies is_space(#[trigger] (a + b)[i]) by {
        if i < a.len() {
            assert(is_space(a[i]));
        } else {
            assert(is_space(b[i - a.len()]));
        }
    }
}

/// A line `name = value` sets what it names to what it says, whatever white space
/// stands around the name and the value, and whatever the value holds, further
/// `=` included; an empty value is a value too.
#[verifier::spinoff_prover]
#[verifier::rlimit(40)]
pub proof fn a_line_sets_what_it_names(
    r: Reading,
    a: Seq<char>,
    name: Seq<char>,
    b: Seq<char>,
    c: Seq<char>,
    value: Seq<char>,
    d: Seq<char>,
    loc: Seq<char>,
    env: Map<Seq<char>, Seq<char>>,
)
    requires
        is_blank(a) && is_blank(b) && is_blank(c) && is_blank(d),
        name.len() > 0,
        !name.contains('=') && !name.contains('#') && !value.contains('#'),
        !is_space(name[0]) && !is_space(name.last()) && name[0] != '[',
        value.len() > 0 ==> !is_space(value[0]) && !is_space(value.last()),
    ensures
        line_read(r, a + name + b + seq!['='] + c + value + d, loc, env) == setting_read(
            r,
            ValueView { raw: value, key: name, loc, env },
        ),
{
    let line = a + name + b + seq!['='] + c + value + d;
    let none = Seq::<char>::empty();
    let left = a + name + b;
    assert(!line.contains('#')) by {
        if line.contains('#') {
            let j = choose|j: int| 0 <= j < line.len() && line[j] == '#';
            let na = a.len() as int;
            let nb = na + name.len();
            let nc = nb + b.len();
            let nd = nc + 1 + c.len();
            let ne = nd + value.len();
            if j < na {
                assert(is_space(a[j]));
            } else if j < nb {
                assert(name.contains(name[j - na]));
            } else if j < nc {
                assert(is_space(b[j - nb]));
            } else if nc < j < nd {
                assert(is_space(c[j - nc - 1]));
            } else if nd <= j < ne {
                assert(value.contains(value[j - nd]));
            } else if j >= ne {
                assert(is_space(d[j - ne]));
            }
        }
    }
    comments_end_a_line(line, none);
    // The trimmed line: from the name to the value, or to the `=`.
    let right = c + value;
    let whole = if value.len() > 0 {
        name + b + seq!['='] + right
    } else {
        name + b + seq!['=']
    };
    let behind = if value.len() > 0 {
        d
    } else {
        right + d
    };
    if value.len() == 0 {
        assert(value =~= none);
        blanks_join(c, none);
        assert(right =~= c + none);
        blanks_join(right, d);
    }
    assert(line =~= a + whole + behind);
    assert(whole.last() == (if value.len() > 0 {
        value.last()
    } else {
        '='
    }));
    trimming_leaves_the_middle(a, whole, behind);
    let k = (name.len() + b.len()) as int;
    assert forall|j: int| 0 <= j < k implies whole[j] != '=' by {
        if j < name.len() {
            assert(name.contains(name[j]));
            assert(whole[j] == name[j]);
        } else {
            assert(is_space(b[j - name.len()]));
            assert(whole[j] == b[j - name.len()]);
        }
    }
    first_index_is(whole, '=', k);
    assert(whole.take(k) =~= none + name + b);
    trimming_leaves_the_middle(none, name, b);
    if value.len() > 0 {
        assert(whole.skip(k + 1) =~= c + value + none);
        trimming_leaves_the_middle(c, value, none);
    } else {
        assert(whole.skip(k + 1) =~= none);
        assert(value =~= none);
        assert(trimmed(none) == none);
    }
}

/// A comment behind a setting changes nothing about it.
pub proof fn comments_change_nothing(
    r: Reading,
    line: Seq<char>,
    comment: Seq<char>,
    loc: Seq<char>,
    env: Map<Seq<char>, Seq<char>>,
)
    requires
        !line.contains('#'),
        !line.contains('"'),
    ensures
        line_read(r, line + seq!['#'] + comment, loc, env) == line_read(r, line, loc, env),
{
    comments_end_a_line(line, comment);
}

/// Finishing silences a sound that has no command, gives up a secondary target
/// whose files could not be told from the primary ones, holds the theme's radii
/// to their boxes, and changes nothing else.
pub proof fn finishing_brings_settings_in_line(c: ConfigView)
    ensures
        c.sound_command.len() == 0 ==> c.finished().sound_file is None,
        c.sound_command.len() > 0 ==> c.finished().sound_file == c.sound_file,
        c.secondary.suffix.len() == 0 ==> !c.finished().secondary.enabled,
        c.secondary.suffix.len() > 0 ==> c.finished().secondary.enabled == c.secondary.enabled,
        c.finished() == (ConfigView {
            sound_file: c.finished().sound_file,
            secondary: SecondaryView { enabled: c.finished().secondary.enabled, ..c.secondary },
            theme: c.theme.clamped(),
            ..c
        }),
{
}

/// The configuration is looked for where `WALLDECK_CONFIG` says, else below
/// `XDG_CONFIG_HOME`, else below `.config` in the home directory, and nowhere
/// without any of them; a variable that is empty counts as unset.
pub proof fn the_configuration_is_looked_for_in_order(env: Map<Seq<char>, Seq<char>>)
    ensures
        ({
            let own = "WALLDECK_CONFIG"@;
            let base = "XDG_CONFIG_HOME"@;
            let has_own = env.dom().contains(own) && env[own].len() > 0;
            let has_base = env.dom().contains(base) && env[base].len() > 0;
            let has_home = env.dom().contains("HOME"@);
            &&& has_own ==> config_path(env) == Some(expanded(env[own], env))
            &&& !has_own && has_base && env[base].last() != '/' ==> config_path(env) == Some(
                env[base] + "/"@ + "walldeck/config.conf"@,
            )
            &&& !has_own && !has_base && has_home ==> config_path(env) == Some(
                env["HOME"@] + "/.config"@ + "/"@ + "walldeck/config.conf"@,
            )
            &&& !has_own && has_base ==> config_path(env) == Some(
                joined(env[base], "walldeck/config.conf"@),
            )
            &&& !has_own && !has_base && !has_home ==> config_path(env) is None
        }),
{
    reveal_strlit("walldeck/config.conf");
    reveal_strlit("/.config");
    if env.dom().contains("HOME"@) {
        let dir = env["HOME"@] + "/.config"@;
        assert(dir.last() == "/.config"@[7]);
    }
}

/// By default wallpapers are below the home directory, thumbnails in the cache,
/// there is no primary namespace, the secondary target is the overview's and
/// optional, and nothing is blurred unasked.
pub proof fn the_defaults_are_usable(env: Map<Seq<char>, Seq<char>>)
    ensures
        ({
            let c = default_config(env);
            &&& c.wf()
            &&& c.wallpaper_dir == below_home("Pictures/Wallpapers"@, env)
            &&& c.cache_dir == below_cache("walldeck"@, env)
            &&& c.thumbnail_size == c.theme.icon_size
            &&& c.theme == default_theme()
            &&& c.command == "awww"@
            &&& c.sound_command == "pw-play"@
            &&& c.sound_file == Some("/usr/share/sounds/freedesktop/stereo/complete.oga"@)
            &&& c.notifications
            &&& c.namespace is None
            &&& c.opts == (OptsView {
                transition_type: Some("center"@),
                fps: Some("60"@),
                ..no_opts()
            })
            &&& c.secondary.enabled && !c.secondary.required && !c.secondary.auto_blur
            &&& c.secondary.namespace == Some("overview"@)
            &&& c.secondary.suffix == "-b"@
            &&& c.secondary.blur_sigma == "20.0"@
            &&& c.secondary.opts == (OptsView { fps: Some("60"@), ..no_opts() })
            &&& c.finished() == c
        }),
{
    reveal_strlit("pw-play");
    reveal_strlit("-b");
    crate::theme::the_built_in_appearance_fits();
}

/// A sound is played only when its file is there.
pub proof fn a_missing_sound_is_not_played(c: ConfigView)
    ensures
        c.sound(true) == c.sound_file,
        c.sound(false) is None,
{
}

/// A setting warns exactly when its value does not read as what its key asks
/// for; settings that take any text never do.
#[verifier::rlimit(40)]
pub proof fn unreadable_settings_warn(v: ValueView, log: Seq<Seq<char>>)
    ensures
        v.key == "thumbnail_size"@ ==> (kind_logged(config_kind(v.key), v, log) == log <==> i32_value(
            v.text(),
        ) is Some),
        v.key == "notifications"@ || v.key == "secondary_enabled"@ || v.key
            == "secondary_required"@ || v.key == "secondary_auto_blur"@ ==> (kind_logged(
            config_kind(v.key),
            v,
            log,
        ) == log <==> bool_value(v.text()) is Some),
        v.key == "secondary_blur_sigma"@ ==> (kind_logged(config_kind(v.key), v, log) == log
            <==> literal_of(v.text()) is Some),
        v.key == "wallpaper_dir"@ || v.key == "cache_dir"@ || v.key == "sound_file"@ || v.key
            == "sound_command"@ || v.key == "command"@ || v.key == "namespace"@ || v.key
            == "secondary_namespace"@ || v.key == "secondary_suffix"@ || transition_owns(v.key)
            ==> config_owns(v.key) && kind_logged(config_kind(v.key), v, log) == log,
        kind_logged(config_kind(v.key), v, log) == log || kind_logged(
            config_kind(v.key),
            v,
            log,
        ).len() == log.len() + 1,
{
    own_keys_differ();
    if transition_owns(v.key) {
        the_prefix_tells_the_targets_apart(default_config(Map::empty()), v.key, v);
    }
    if config_kind(v.key) is Some && !kind_accepts(config_kind(v.key)->0, v.text()) {
        assert(kind_logged(config_kind(v.key), v, log).len() == log.len() + 1);
    }
}

// ---------------------------------------------------------------- files

/// The lines of a text that ends in a line feed and of what follows it are the
/// lines of the one and then those of the other.
proof fn lines_follow_lines(a: Seq<char>, b: Seq<char>)
    requires
        a.len() > 0,
        a.last() == '\n',
    ensures
        lines_of(a + b) == lines_of(a) + lines_of(b),
    decreases a.len(),
{
    first_index_bounds(a, '\n');
    let k = first_index(a, '\n');
    if k == a.len() {
        assert(a[a.len() - 1] != '\n');
    }
    let first = a.take(k);
    let rest = a.skip(k + 1);
    assert(!first.contains('\n'));
    assert(a =~= first + seq!['\n'] + rest);
    assert(a + b =~= first + seq!['\n'] + (rest + b));
    line_feeds_end_lines(first, rest);
    line_feeds_end_lines(first, rest + b);
    let line = lines_of(a)[0];
    if rest.len() > 0 {
        lines_follow_lines(rest, b);
        assert(seq![line] + (lines_of(rest) + lines_of(b)) =~= seq![line] + lines_of(rest)
            + lines_of(b));
    } else {
        assert(rest + b =~= b);
        assert(lines_of(rest).len() == 0);
        assert(seq![line] + lines_of(b) =~= seq![line] + lines_of(rest) + lines_of(b));
    }
}

/// A file is read line by line from its beginning, on top of the defaults: a
/// further line is read into what the lines before it came to, and warnings
/// name its number. Without a line there are the defaults.
pub proof fn files_are_read_line_by_line(
    a: Seq<char>,
    line: Seq<char>,
    path: Seq<char>,
    env: Map<Seq<char>, Seq<char>>,
    log: Seq<Seq<char>>,
)
    requires
        a.len() > 0 ==> a.last() == '\n',
        line.len() > 0,
        !line.contains('\n'),
    ensures
        file_read(Seq::empty(), path, env, log) == (Reading { config: default_config(env), log }),
        file_read(a + line, path, env, log) == line_read(
            file_read(a, path, env, log),
            line,
            path + ":"@ + numeral(lines_of(a).len() + 1),
            env,
        ),
{
    let all = lines_of(a + line);
    let start = Reading { config: default_config(env), log };
    line_feeds_end_lines(line, Seq::empty());
    if a.len() > 0 {
        lines_follow_lines(a, line);
    } else {
        assert(a + line =~= line);
        assert(a =~= Seq::empty());
    }
    assert(all =~= lines_of(a).push(line));
    same_lines_read_the_same(start, all, lines_of(a), lines_of(a).len(), path, env);
}

/// The configuration in effect is what the file says, brought in line; where
/// there is no file, or no place for one, it is the defaults, and nothing is
/// warned of.
pub proof fn the_file_is_in_effect(
    env: Map<Seq<char>, Seq<char>>,
    text: Seq<char>,
    log: Seq<Seq<char>>,
)
    ensures
        loaded(env, None, log) == (Reading { config: default_config(env).finished(), log }),
        config_path(env) is None ==> loaded(env, Some(text), log) == loaded(env, None, log),
        config_path(env) is Some ==> {
            let r = file_read(text, config_path(env)->0, env, log);
            &&& loaded(env, Some(text), log).config == r.config.finished()
            &&& loaded(env, Some(text), log).log == r.log
        },
{
}

/// A line that is blank or a section header says nothing, and any other line
/// without `=` is warned of, with its place.
pub proof fn lines_that_set_nothing(
    r: Reading,
    line: Seq<char>,
    loc: Seq<char>,
    env: Map<Seq<char>, Seq<char>>,
)
    requires
        !line.contains('#') && !line.contains('"') && !line.contains('='),
        line.len() > 0,
        !is_space(line[0]) && !is_space(line.last()),
    ensures
        line[0] == '[' && line.last() == ']' ==> line_read(r, line, loc, env) == r,
        !(line[0] == '[' && line.last() == ']') ==> line_read(r, line, loc, env) == (Reading {
            config: r.config,
            log: r.log.push("walldeck: "@ + loc + ": expected `key = value`, skipping"@),
        }),
        line_read(r, Seq::empty(), loc, env) == r,
{
    let none = Seq::<char>::empty();
    comments_end_a_line(line, none);
    comments_end_a_line(none, none);
    assert(none + line + none =~= line);
    trimming_leaves_the_middle(none, line, none);
    assert forall|j: int| 0 <= j < line.len() implies line[j] != '=' by {
        assert(line.contains(line[j]));
    }
    first_index_is(line, '=', line.len() as int);
}

/// A file whose last line is `name = value` sets what it names, over whatever
/// the file said before, and over the default.
#[verifier::spinoff_prover]
pub proof fn the_last_line_counts(
    a: Seq<char>,
    name: Seq<char>,
    value: Seq<char>,
    path: Seq<char>,
    env: Map<Seq<char>, Seq<char>>,
    log: Seq<Seq<char>>,
)
    requires
        a.len() > 0 ==> a.last() == '\n',
        name.len() > 0,
        value.len() > 0,
        !name.contains('=') && !name.contains('#') && !name.contains('\n'),
        !value.contains('#') && !value.contains('\n'),
        !is_space(name[0]) && !is_space(name.last()) && name[0] != '[',
        !is_space(value[0]) && !is_space(value.last()),
    ensures
        ({
            let before = file_read(a, path, env, log);
            let v = ValueView {
                raw: value,
                key: name,
                loc: path + ":"@ + numeral(lines_of(a).len() + 1),
                env,
            };
            file_read(a + (name + seq![' ', '=', ' '] + value), path, env, log).config
                == (ConfigView {
                theme: theme_with(before.config.theme, name, v.text()),
                ..config_with(before.config, name, v)
            })
        }),
{
    let line = name + seq![' ', '=', ' '] + value;
    let loc = path + ":"@ + numeral(lines_of(a).len() + 1);
    assert(!line.contains('\n')) by {
        if line.contains('\n') {
            let j = choose|j: int| 0 <= j < line.len() && line[j] == '\n';
            if j < name.len() {
                assert(name.contains(name[j]));
            } else if j >= name.len() + 3 {
                assert(value.contains(value[j - name.len() - 3]));
            }
        }
    }
    let v = ValueView { raw: value, key: name, loc, env };
    let none = Seq::<char>::empty();
    let gap = seq![' '];
    let before = file_read(a, path, env, log);
    assert(is_blank(none) && is_blank(gap));
    assert(none + name + gap + seq!['='] + gap + value + none =~= line);
    files_are_read_line_by_line(a, line, path, env, log);
    a_line_sets_what_it_names(before, none, name, gap, gap, value, none, loc, env);
    assert(line_read(before, line, loc, env) == setting_read(before, v));
    settings_reach_their_owner(before, v);
}

} // verus!
