//! Appearance settings: layout, colors, and motion.
//!
//! They are read out of the same file as everything else; this module owns
//! the fields, their defaults and their bounds.

use vstd::prelude::*;
use crate::literal::{
    floored, literal_of, plain_decimals_are_literals, reaches, unit_clamped, Bound, Real,
};
use crate::numerals::i32_value;
use crate::text::{same, texts};
use crate::value::{
    bool_name, bool_value, byte_name, byte_value, color_name, color_value, curve_complaint,
    curve_value, curve_view, int_name, real_name, real_value, Curve, CurveView, Rgba, Value,
    ValueView,
};

verus! {

pub struct Theme {
    pub window_width: i32,
    /// Height of the icon panel alone (thumbnails plus their padding); the
    /// search bar and its gap are added on top of this for the real surface.
    pub window_height: i32,
    pub icon_size: i32,
    pub spacing: i32,
    pub padding: i32,
    pub corner_radius: i32,
    /// Corner rounding of the icon panel itself, separate from the per-icon
    /// `corner_radius`.
    pub window_corner_radius: i32,
    pub search_bar_height: i32,
    /// Width of the search bar box, centered below the icon panel.
    pub search_bar_width: i32,
    /// Vertical gap between the icon panel and the search bar below it.
    pub search_bar_gap: i32,
    /// Corner rounding of the search bar box. Defaults to a full pill.
    pub search_bar_corner_radius: i32,
    pub background: Rgba,
    pub search_bar_background: Rgba,
    pub search_text_color: Rgba,
    pub highlight_border: Rgba,
    pub highlight_border_width: i32,
    /// Thumbnails that are not highlighted are drawn at this alpha out of 255.
    pub dim_opacity: u8,
    pub open_duration_ms: Real,
    pub close_duration_ms: Real,
    /// The panel scales up from this factor of its full size while opening,
    /// and back down to it while closing.
    pub open_close_scale_from: Real,
    /// Cubic-bezier control points (x1, y1, x2, y2) of the open and close
    /// easing curve.
    pub open_close_curve: Curve,
    /// How fast the rendered scroll position chases its target, in 1/sec.
    pub scroll_smoothing: Real,
    /// The same, for the sliding highlight ring.
    pub highlight_smoothing: Real,
    /// Momentum decay after touchpad or wheel input stops.
    pub momentum_half_life_ms: Real,
    /// Pixels scrolled per discrete mouse-wheel click.
    pub wheel_step: i32,
}

/// What a theme says, as mathematics.
pub struct ThemeView {
    pub window_width: i32,
    pub window_height: i32,
    pub icon_size: i32,
    pub spacing: i32,
    pub padding: i32,
    pub corner_radius: i32,
    pub window_corner_radius: i32,
    pub search_bar_height: i32,
    pub search_bar_width: i32,
    pub search_bar_gap: i32,
    pub search_bar_corner_radius: i32,
    pub background: Seq<u8>,
    pub search_bar_background: Seq<u8>,
    pub search_text_color: Seq<u8>,
    pub highlight_border: Seq<u8>,
    pub highlight_border_width: i32,
    pub dim_opacity: u8,
    pub open_duration_ms: Seq<char>,
    pub close_duration_ms: Seq<char>,
    pub open_close_scale_from: Seq<char>,
    pub open_close_curve: CurveView,
    pub scroll_smoothing: Seq<char>,
    pub highlight_smoothing: Seq<char>,
    pub momentum_half_life_ms: Seq<char>,
    pub wheel_step: i32,
}

impl View for Theme {
    type V = ThemeView;

    open spec fn view(&self) -> ThemeView {
        ThemeView {
            window_width: self.window_width,
            window_height: self.window_height,
            icon_size: self.icon_size,
            spacing: self.spacing,
            padding: self.padding,
            corner_radius: self.corner_radius,
            window_corner_radius: self.window_corner_radius,
            search_bar_height: self.search_bar_height,
            search_bar_width: self.search_bar_width,
            search_bar_gap: self.search_bar_gap,
            search_bar_corner_radius: self.search_bar_corner_radius,
            background: self.background@,
            search_bar_background: self.search_bar_background@,
            search_text_color: self.search_text_color@,
            highlight_border: self.highlight_border@,
            highlight_border_width: self.highlight_border_width,
            dim_opacity: self.dim_opacity,
            open_duration_ms: self.open_duration_ms@,
            close_duration_ms: self.close_duration_ms@,
            open_close_scale_from: self.open_close_scale_from@,
            open_close_curve: curve_view(self.open_close_curve),
            scroll_smoothing: self.scroll_smoothing@,
            highlight_smoothing: self.highlight_smoothing@,
            momentum_half_life_ms: self.momentum_half_life_ms@,
            wheel_step: self.wheel_step,
        }
    }
}

/// The built-in appearance.
pub open spec fn default_theme() -> ThemeView {
    ThemeView {
        window_width: 1179,
        window_height: 370,
        icon_size: 350,
        spacing: 15,
        padding: 10,
        corner_radius: 12,
        window_corner_radius: 20,
        search_bar_height: 44,
        search_bar_width: 300,
        search_bar_gap: 16,
        search_bar_corner_radius: 22,
        background: seq![0x1eu8, 0x1eu8, 0x2eu8, 0xebu8],
        search_bar_background: seq![0x18u8, 0x18u8, 0x25u8, 0xebu8],
        search_text_color: seq![0xcdu8, 0xd6u8, 0xf4u8, 0xffu8],
        highlight_border: seq![0xf9u8, 0xe2u8, 0xafu8, 0xffu8],
        highlight_border_width: 3,
        dim_opacity: 190,
        open_duration_ms: "200.0"@,
        close_duration_ms: "160.0"@,
        open_close_scale_from: "0.92"@,
        open_close_curve: ("0.42"@, "0.0"@, "0.58"@, "1.0"@),
        scroll_smoothing: "14.0"@,
        highlight_smoothing: "20.0"@,
        momentum_half_life_ms: "120.0"@,
        wheel_step: 60,
    }
}

// ---------------------------------------------------------------- keys

/// The types a setting can have.
pub enum Kind {
    Int,
    Byte,
    Bool,
    Color,
    Real,
    Curve,
}

/// Whether a text reads as a kind.
pub open spec fn kind_accepts(k: Kind, s: Seq<char>) -> bool {
    match k {
        Kind::Int => i32_value(s) is Some,
        Kind::Byte => byte_value(s) is Some,
        Kind::Bool => bool_value(s) is Some,
        Kind::Color => color_value(s) is Some,
        Kind::Real => real_value(s) is Some,
        Kind::Curve => curve_value(s) is Some,
    }
}

/// What a warning calls a kind.
pub open spec fn kind_name(k: Kind, s: Seq<char>) -> Seq<char> {
    match k {
        Kind::Int => int_name(),
        Kind::Byte => byte_name(),
        Kind::Bool => bool_name(),
        Kind::Color => color_name(),
        Kind::Real => real_name(),
        Kind::Curve => curve_complaint(s),
    }
}

/// The log after a setting of kind `k` was read from `v`.
pub open spec fn kind_logged(k: Option<Kind>, v: ValueView, log: Seq<Seq<char>>) -> Seq<
    Seq<char>,
> {
    match k {
        Some(k) => v.logged(log, kind_accepts(k, v.text()), kind_name(k, v.text())),
        None => log,
    }
}

pub open spec fn at_least_int(n: i32, low: i32) -> i32 {
    if n < low {
        low
    } else {
        n
    }
}

/// An integer setting after reading `s`: what was read, held to `low`, or
/// what it was.
pub open spec fn int_or(s: Seq<char>, low: i32, before: i32) -> i32 {
    match i32_value(s) {
        Some(n) => at_least_int(n, low),
        None => before,
    }
}

pub open spec fn color_or(s: Seq<char>, before: Seq<u8>) -> Seq<u8> {
    match color_value(s) {
        Some(c) => c,
        None => before,
    }
}

pub open spec fn real_or(s: Seq<char>, b: Bound, before: Seq<char>) -> Seq<char> {
    match real_value(s) {
        Some(x) => floored(x, b),
        None => before,
    }
}

/// The kind of the setting behind a key of the theme; `None` for a key that
/// is not the theme's.
pub open spec fn theme_kind(key: Seq<char>) -> Option<Kind> {
    if key == "window_width"@
        || key == "window_height"@
        || key == "icon_size"@
        || key == "spacing"@
        || key == "padding"@
        || key == "corner_radius"@
        || key == "window_corner_radius"@
        || key == "search_bar_height"@
        || key == "search_bar_width"@
        || key == "search_bar_gap"@
        || key == "search_bar_corner_radius"@
        || key == "highlight_border_width"@ {
        Some(Kind::Int)
    } else if key == "background"@
        || key == "search_bar_background"@
        || key == "search_text_color"@
        || key == "highlight_border"@ {
        Some(Kind::Color)
    } else if key == "dim_opacity"@ {
        Some(Kind::Byte)
    } else if key == "open_duration_ms"@
        || key == "close_duration_ms"@
        || key == "open_close_scale_from"@
        || key == "scroll_smoothing"@
        || key == "highlight_smoothing"@
        || key == "momentum_half_life_ms"@ {
        Some(Kind::Real)
    } else if key == "open_close_curve"@ {
        Some(Kind::Curve)
    } else if key == "wheel_step"@ {
        Some(Kind::Int)
    } else {
        None
    }
}

/// The theme after its setting `key` was read from the text `s`.
pub open spec fn theme_with(t: ThemeView, key: Seq<char>, s: Seq<char>) -> ThemeView {
    if key == "window_width"@ {
        ThemeView { window_width: int_or(s, 1, t.window_width), ..t }
    } else if key == "window_height"@ {
        ThemeView { window_height: int_or(s, 1, t.window_height), ..t }
    } else if key == "icon_size"@ {
        ThemeView { icon_size: int_or(s, 1, t.icon_size), ..t }
    } else if key == "spacing"@ {
        ThemeView { spacing: int_or(s, 0, t.spacing), ..t }
    } else if key == "padding"@ {
        ThemeView { padding: int_or(s, 0, t.padding), ..t }
    } else if key == "corner_radius"@ {
        ThemeView { corner_radius: int_or(s, 0, t.corner_radius), ..t }
    } else if key == "window_corner_radius"@ {
        ThemeView { window_corner_radius: int_or(s, 0, t.window_corner_radius), ..t }
    } else if key == "search_bar_height"@ {
        ThemeView { search_bar_height: int_or(s, 0, t.search_bar_height), ..t }
    } else if key == "search_bar_width"@ {
        ThemeView { search_bar_width: int_or(s, 1, t.search_bar_width), ..t }
    } else if key == "search_bar_gap"@ {
        ThemeView { search_bar_gap: int_or(s, 0, t.search_bar_gap), ..t }
    } else if key == "search_bar_corner_radius"@ {
        ThemeView { search_bar_corner_radius: int_or(s, 0, t.search_bar_corner_radius), ..t }
    } else if key == "highlight_border_width"@ {
        ThemeView { highlight_border_width: int_or(s, 0, t.highlight_border_width), ..t }
    } else if key == "background"@ {
        ThemeView { background: color_or(s, t.background), ..t }
    } else if key == "search_bar_background"@ {
        ThemeView { search_bar_background: color_or(s, t.search_bar_background), ..t }
    } else if key == "search_text_color"@ {
        ThemeView { search_text_color: color_or(s, t.search_text_color), ..t }
    } else if key == "highlight_border"@ {
        ThemeView { highlight_border: color_or(s, t.highlight_border), ..t }
    } else if key == "dim_opacity"@ {
        ThemeView {
            dim_opacity: match byte_value(s) {
                Some(n) => n,
                None => t.dim_opacity,
            },
            ..t
        }
    } else if key == "open_duration_ms"@ {
        ThemeView { open_duration_ms: real_or(s, Bound::Zero, t.open_duration_ms), ..t }
    } else if key == "close_duration_ms"@ {
        ThemeView { close_duration_ms: real_or(s, Bound::Zero, t.close_duration_ms), ..t }
    } else if key == "open_close_scale_from"@ {
        ThemeView {
            open_close_scale_from: match real_value(s) {
                Some(x) => unit_clamped(x),
                None => t.open_close_scale_from,
            },
            ..t
        }
    } else if key == "scroll_smoothing"@ {
        ThemeView { scroll_smoothing: real_or(s, Bound::Tenth, t.scroll_smoothing), ..t }
    } else if key == "highlight_smoothing"@ {
        ThemeView { highlight_smoothing: real_or(s, Bound::Tenth, t.highlight_smoothing), ..t }
    } else if key == "momentum_half_life_ms"@ {
        ThemeView { momentum_half_life_ms: real_or(s, Bound::One, t.momentum_half_life_ms), ..t }
    } else if key == "open_close_curve"@ {
        ThemeView {
            open_close_curve: match curve_value(s) {
                Some(c) => c,
                None => t.open_close_curve,
            },
            ..t
        }
    } else if key == "wheel_step"@ {
        ThemeView { wheel_step: int_or(s, i32::MIN, t.wheel_step), ..t }
    } else {
        t
    }
}

fn set_int(slot: &mut i32, low: i32, v: &Value, log: &mut Vec<String>)
    ensures
        *final(slot) == int_or(v@.text(), low, *old(slot)),
        texts(final(log)@) == kind_logged(Some(Kind::Int), v@, texts(old(log)@)),
{
    if let Some(n) = v.integer(log) {
        *slot = if n < low {
            low
        } else {
            n
        };
    }
}

fn set_color(slot: &mut Rgba, v: &Value, log: &mut Vec<String>)
    ensures
        final(slot)@ == color_or(v@.text(), old(slot)@),
        texts(final(log)@) == kind_logged(Some(Kind::Color), v@, texts(old(log)@)),
{
    if let Some(c) = v.color(log) {
        *slot = c;
    }
}

pub(crate) fn set_real(slot: &mut Real, b: Bound, v: &Value, log: &mut Vec<String>)
    ensures
        final(slot)@ == real_or(v@.text(), b, old(slot)@),
        texts(final(log)@) == kind_logged(Some(Kind::Real), v@, texts(old(log)@)),
{
    if let Some(x) = v.float(log) {
        *slot = x.at_least(b);
    }
}

// ---------------------------------------------------------------- layout

impl ThemeView {
    /// Sizes are positive; gaps, paddings, radii and widths are not negative.
    pub open spec fn wf(self) -> bool {
        &&& self.window_width >= 1
        &&& self.window_height >= 1
        &&& self.icon_size >= 1
        &&& self.spacing >= 0
        &&& self.padding >= 0
        &&& self.corner_radius >= 0
        &&& self.window_corner_radius >= 0
        &&& self.search_bar_height >= 0
        &&& self.search_bar_width >= 1
        &&& self.search_bar_gap >= 0
        &&& self.search_bar_corner_radius >= 0
        &&& self.highlight_border_width >= 0
    }

    /// Total height of the surface: the icon panel, a gap, the search bar.
    pub open spec fn surface_height(self) -> int {
        self.window_height + self.search_bar_gap + self.search_bar_height
    }

    /// The radii brought down to what their boxes can hold.
    pub open spec fn clamped(self) -> ThemeView {
        let width = at_least_int(min_i32(self.search_bar_width, self.window_width), 1);
        ThemeView {
            corner_radius: min_i32(self.corner_radius, half(self.icon_size)),
            window_corner_radius: min_i32(
                min_i32(self.window_corner_radius, half(self.window_width)),
                half(self.window_height),
            ),
            search_bar_width: width,
            search_bar_corner_radius: min_i32(
                min_i32(self.search_bar_corner_radius, half(width)),
                half(self.search_bar_height),
            ),
            ..self
        }
    }
}

pub open spec fn min_i32(a: i32, b: i32) -> i32 {
    if a <= b {
        a
    } else {
        b
    }
}

/// Half of `n`, rounded toward zero.
pub open spec fn half(n: i32) -> i32 {
    if n >= 0 {
        (n as int / 2) as i32
    } else {
        (-(-n as int / 2)) as i32
    }
}

fn lesser(a: i32, b: i32) -> (r: i32)
    ensures
        r == min_i32(a, b),
{
    if a <= b {
        a
    } else {
        b
    }
}

fn halved(n: i32) -> (r: i32)
    ensures
        r == half(n),
{
    n / 2
}

proof fn default_literals()
    ensures
        literal_of("200.0"@) is Some,
        literal_of("160.0"@) is Some,
        literal_of("0.92"@) is Some,
        literal_of("0.42"@) is Some,
        literal_of("0.0"@) is Some,
        literal_of("0.58"@) is Some,
        literal_of("1.0"@) is Some,
        literal_of("14.0"@) is Some,
        literal_of("20.0"@) is Some,
        literal_of("120.0"@) is Some,
{
    reveal_strlit("200.0");
    plain_decimals_are_literals("200.0"@, 3);
    reveal_strlit("160.0");
    plain_decimals_are_literals("160.0"@, 3);
    reveal_strlit("0.92");
    plain_decimals_are_literals("0.92"@, 1);
    reveal_strlit("0.42");
    plain_decimals_are_literals("0.42"@, 1);
    reveal_strlit("0.0");
    plain_decimals_are_literals("0.0"@, 1);
    reveal_strlit("0.58");
    plain_decimals_are_literals("0.58"@, 1);
    reveal_strlit("1.0");
    plain_decimals_are_literals("1.0"@, 1);
    reveal_strlit("14.0");
    plain_decimals_are_literals("14.0"@, 2);
    reveal_strlit("20.0");
    plain_decimals_are_literals("20.0"@, 2);
    reveal_strlit("120.0");
    plain_decimals_are_literals("120.0"@, 3);
}

impl Default for Theme {
    fn default() -> (t: Theme)
        ensures
            t@ == default_theme(),
            t@.wf(),
    {
        proof {
            default_literals();
        }
        let t: Theme = Theme {
            window_width: 1179,
            window_height: 370,
            icon_size: 350,
            spacing: 15,
            padding: 10,
            corner_radius: 12,
            window_corner_radius: 20,
            search_bar_height: 44,
            search_bar_width: 300,
            search_bar_gap: 16,
            search_bar_corner_radius: 22,
            background: Rgba([0x1e, 0x1e, 0x2e, 0xeb]),
            search_bar_background: Rgba([0x18, 0x18, 0x25, 0xeb]),
            search_text_color: Rgba([0xcd, 0xd6, 0xf4, 0xff]),
            highlight_border: Rgba([0xf9, 0xe2, 0xaf, 0xff]),
            highlight_border_width: 3,
            dim_opacity: 190,
            open_duration_ms: Real::known("200.0"),
            close_duration_ms: Real::known("160.0"),
            open_close_scale_from: Real::known("0.92"),
            open_close_curve: (
                Real::known("0.42"),
                Real::known("0.0"),
                Real::known("0.58"),
                Real::known("1.0"),
            ),
            scroll_smoothing: Real::known("14.0"),
            highlight_smoothing: Real::known("20.0"),
            momentum_half_life_ms: Real::known("120.0"),
            wheel_step: 60,
        };
        assert(t.background@ =~= default_theme().background);
        assert(t.search_bar_background@ =~= default_theme().search_bar_background);
        assert(t.search_text_color@ =~= default_theme().search_text_color);
        assert(t.highlight_border@ =~= default_theme().highlight_border);
        t
    }
}

impl Theme {
    pub fn copy(&self) -> (t: Theme)
        ensures
            t@ == self@,
    {
        Theme {
            window_width: self.window_width,
            window_height: self.window_height,
            icon_size: self.icon_size,
            spacing: self.spacing,
            padding: self.padding,
            corner_radius: self.corner_radius,
            window_corner_radius: self.window_corner_radius,
            search_bar_height: self.search_bar_height,
            search_bar_width: self.search_bar_width,
            search_bar_gap: self.search_bar_gap,
            search_bar_corner_radius: self.search_bar_corner_radius,
            background: self.background,
            search_bar_background: self.search_bar_background,
            search_text_color: self.search_text_color,
            highlight_border: self.highlight_border,
            highlight_border_width: self.highlight_border_width,
            dim_opacity: self.dim_opacity,
            open_duration_ms: self.open_duration_ms.copy(),
            close_duration_ms: self.close_duration_ms.copy(),
            open_close_scale_from: self.open_close_scale_from.copy(),
            open_close_curve: (
                self.open_close_curve.0.copy(),
                self.open_close_curve.1.copy(),
                self.open_close_curve.2.copy(),
                self.open_close_curve.3.copy(),
            ),
            scroll_smoothing: self.scroll_smoothing.copy(),
            highlight_smoothing: self.highlight_smoothing.copy(),
            momentum_half_life_ms: self.momentum_half_life_ms.copy(),
            wheel_step: self.wheel_step,
        }
    }

    /// Applies a single key. Returns false, and changes nothing, if the theme
    /// does not own it.
    pub fn set_key(&mut self, key: &str, v: &Value, log: &mut Vec<String>) -> (owned: bool)
        ensures
            owned == theme_kind(key@) is Some,
            final(self)@ == theme_with(old(self)@, key@, v@.text()),
            old(self)@.wf() ==> final(self)@.wf(),
            texts(final(log)@) == kind_logged(theme_kind(key@), v@, texts(old(log)@)),
    {
        if same(key, "window_width") {
            set_int(&mut self.window_width, 1, v, log);
        } else if same(key, "window_height") {
            set_int(&mut self.window_height, 1, v, log);
        } else if same(key, "icon_size") {
            set_int(&mut self.icon_size, 1, v, log);
        } else if same(key, "spacing") {
            set_int(&mut self.spacing, 0, v, log);
        } else if same(key, "padding") {
            set_int(&mut self.padding, 0, v, log);
        } else if same(key, "corner_radius") {
            set_int(&mut self.corner_radius, 0, v, log);
        } else if same(key, "window_corner_radius") {
            set_int(&mut self.window_corner_radius, 0, v, log);
        } else if same(key, "search_bar_height") {
            set_int(&mut self.search_bar_height, 0, v, log);
        } else if same(key, "search_bar_width") {
            set_int(&mut self.search_bar_width, 1, v, log);
        } else if same(key, "search_bar_gap") {
            set_int(&mut self.search_bar_gap, 0, v, log);
        } else if same(key, "search_bar_corner_radius") {
            set_int(&mut self.search_bar_corner_radius, 0, v, log);
        } else if same(key, "highlight_border_width") {
            set_int(&mut self.highlight_border_width, 0, v, log);
        } else if same(key, "background") {
            set_color(&mut self.background, v, log);
        } else if same(key, "search_bar_background") {
            set_color(&mut self.search_bar_background, v, log);
        } else if same(key, "search_text_color") {
            set_color(&mut self.search_text_color, v, log);
        } else if same(key, "highlight_border") {
            set_color(&mut self.highlight_border, v, log);
        } else if same(key, "dim_opacity") {
            if let Some(n) = v.byte(log) {
                self.dim_opacity = n;
            }
        } else if same(key, "open_duration_ms") {
            set_real(&mut self.open_duration_ms, Bound::Zero, v, log);
        } else if same(key, "close_duration_ms") {
            set_real(&mut self.close_duration_ms, Bound::Zero, v, log);
        } else if same(key, "open_close_scale_from") {
            if let Some(x) = v.float(log) {
                self.open_close_scale_from = x.clamp_unit();
            }
        } else if same(key, "scroll_smoothing") {
            set_real(&mut self.scroll_smoothing, Bound::Tenth, v, log);
        } else if same(key, "highlight_smoothing") {
            set_real(&mut self.highlight_smoothing, Bound::Tenth, v, log);
        } else if same(key, "momentum_half_life_ms") {
            set_real(&mut self.momentum_half_life_ms, Bound::One, v, log);
        } else if same(key, "open_close_curve") {
            if let Some(c) = v.curve(log) {
                self.open_close_curve = c;
            }
        } else if same(key, "wheel_step") {
            set_int(&mut self.wheel_step, i32::MIN, v, log);
        } else {
            return false;
        }
        true
    }

    /// Clamps radii against the boxes they round, so that an oversized value
    /// degrades to "as round as this shape can be".
    pub fn clamp(&mut self)
        ensures
            final(self)@ == old(self)@.clamped(),
            old(self)@.wf() ==> final(self)@.wf(),
    {
        self.corner_radius = lesser(self.corner_radius, halved(self.icon_size));
        self.window_corner_radius = lesser(
            lesser(self.window_corner_radius, halved(self.window_width)),
            halved(self.window_height),
        );
        let width: i32 = lesser(self.search_bar_width, self.window_width);
        self.search_bar_width = if width < 1 {
            1
        } else {
            width
        };
        self.search_bar_corner_radius = lesser(
            lesser(self.search_bar_corner_radius, halved(self.search_bar_width)),
            halved(self.search_bar_height),
        );
    }

    /// Total rendered surface height: the icon panel, then a gap, then the
    /// search bar sitting below it as its own floating pill.
    pub fn surface_height(&self) -> (h: i32)
        requires
            i32::MIN <= self@.window_height + self@.search_bar_gap <= i32::MAX,
            i32::MIN <= self@.surface_height() <= i32::MAX,
        ensures
            h == self@.surface_height(),
    {
        self.window_height + self.search_bar_gap + self.search_bar_height
    }

    /// Y offset where the icon row starts: the panel's own top padding.
    pub fn icon_area_y0(&self) -> (y: i32)
        ensures
            y == self@.padding,
    {
        self.padding
    }

    /// Y offset where the search bar pill starts, below the panel and gap.
    pub fn search_bar_y0(&self) -> (y: i32)
        requires
            i32::MIN <= self@.window_height + self@.search_bar_gap <= i32::MAX,
        ensures
            y == self@.window_height + self@.search_bar_gap,
    {
        self.window_height + self.search_bar_gap
    }

    /// X offset where the search bar pill starts, centered under the icon
    /// panel.
    pub fn search_bar_x0(&self) -> (x: i32)
        requires
            i32::MIN <= self@.window_width - self@.search_bar_width <= i32::MAX,
        ensures
            x == half((self@.window_width - self@.search_bar_width) as i32),
    {
        halved(self.window_width - self.search_bar_width)
    }
}

// ---------------------------------------------------------------- laws

/// Clamping leaves every radius within half of each side of its box, and the
/// search bar within the window.
pub proof fn clamped_radii_fit(t: ThemeView)
    requires
        t.wf(),
    ensures
        t.clamped().wf(),
        2 * t.clamped().corner_radius <= t.icon_size,
        2 * t.clamped().window_corner_radius <= t.window_width,
        2 * t.clamped().window_corner_radius <= t.window_height,
        1 <= t.clamped().search_bar_width <= t.window_width,
        2 * t.clamped().search_bar_corner_radius <= t.clamped().search_bar_width,
        2 * t.clamped().search_bar_corner_radius <= t.search_bar_height,
{
}

/// Clamping a clamped theme changes nothing.
pub proof fn clamping_is_idempotent(t: ThemeView)
    ensures
        t.clamped().clamped() == t.clamped(),
{
}

/// After clamping, the search bar lies within the surface: centered between
/// its sides, below the panel, and ending at its bottom.
pub proof fn search_bar_lies_in_the_surface(t: ThemeView)
    requires
        t.wf(),
    ensures
        ({
            let c = t.clamped();
            let x0 = half((c.window_width - c.search_bar_width) as i32);
            &&& 0 <= x0
            &&& x0 + c.search_bar_width <= c.window_width
            &&& c.window_height <= c.window_height + c.search_bar_gap
            &&& c.window_height + c.search_bar_gap + c.search_bar_height == c.surface_height()
        }),
{
}

/// A key that is not the theme's changes nothing in it.
pub proof fn unowned_theme_keys_change_nothing(t: ThemeView, key: Seq<char>, s: Seq<char>)
    requires
        theme_kind(key) is None,
    ensures
        theme_with(t, key, s) == t,
{
}

/// Setting the same key twice is setting it to the second value, when that
/// one reads.
pub proof fn the_last_value_wins(t: ThemeView, key: Seq<char>, s1: Seq<char>, s2: Seq<char>)
    requires
        theme_kind(key) is Some ==> kind_accepts(theme_kind(key)->0, s2),
    ensures
        theme_with(theme_with(t, key, s1), key, s2) == theme_with(t, key, s2),
{
}

/// A value that does not read as its key's kind leaves the theme as it was.
pub proof fn unreadable_values_change_nothing(t: ThemeView, key: Seq<char>, s: Seq<char>)
    requires
        theme_kind(key) is Some,
        !kind_accepts(theme_kind(key)->0, s),
    ensures
        theme_with(t, key, s) == t,
{
}

/// What tells the keys of a theme apart: their lengths, or else a character.
pub(crate) proof fn theme_keys_differ()
    ensures
        "window_width"@.len() == 12,
        "window_height"@.len() == 13,
        "icon_size"@.len() == 9,
        "spacing"@.len() == 7,
        "padding"@.len() == 7,
        "corner_radius"@.len() == 13,
        "window_corner_radius"@.len() == 20,
        "search_bar_height"@.len() == 17,
        "search_bar_width"@.len() == 16,
        "search_bar_gap"@.len() == 14,
        "search_bar_corner_radius"@.len() == 24,
        "highlight_border_width"@.len() == 22,
        "background"@.len() == 10,
        "search_bar_background"@.len() == 21,
        "search_text_color"@.len() == 17,
        "highlight_border"@.len() == 16,
        "dim_opacity"@.len() == 11,
        "open_duration_ms"@.len() == 16,
        "close_duration_ms"@.len() == 17,
        "open_close_scale_from"@.len() == 21,
        "scroll_smoothing"@.len() == 16,
        "highlight_smoothing"@.len() == 19,
        "momentum_half_life_ms"@.len() == 21,
        "open_close_curve"@.len() == 16,
        "wheel_step"@.len() == 10,
        "window_height"@[0] == 'w',
        "spacing"@[0] == 's',
        "padding"@[0] == 'p',
        "corner_radius"@[0] == 'c',
        "search_bar_height"@[7] == 'b',
        "search_bar_width"@[5] == 'h',
        "background"@[0] == 'b',
        "search_bar_background"@[0] == 's',
        "search_text_color"@[7] == 't',
        "highlight_border"@[5] == 'i',
        "open_duration_ms"@[5] == 'd',
        "close_duration_ms"@[7] == 'u',
        "open_close_scale_from"@[0] == 'o',
        "scroll_smoothing"@[5] == 'l',
        "momentum_half_life_ms"@[0] == 'm',
        "open_close_curve"@[5] == 'c',
        "wheel_step"@[0] == 'w',
{
    reveal_strlit("window_width");
    reveal_strlit("window_height");
    reveal_strlit("icon_size");
    reveal_strlit("spacing");
    reveal_strlit("padding");
    reveal_strlit("corner_radius");
    reveal_strlit("window_corner_radius");
    reveal_strlit("search_bar_height");
    reveal_strlit("search_bar_width");
    reveal_strlit("search_bar_gap");
    reveal_strlit("search_bar_corner_radius");
    reveal_strlit("highlight_border_width");
    reveal_strlit("background");
    reveal_strlit("search_bar_background");
    reveal_strlit("search_text_color");
    reveal_strlit("highlight_border");
    reveal_strlit("dim_opacity");
    reveal_strlit("open_duration_ms");
    reveal_strlit("close_duration_ms");
    reveal_strlit("open_close_scale_from");
    reveal_strlit("scroll_smoothing");
    reveal_strlit("highlight_smoothing");
    reveal_strlit("momentum_half_life_ms");
    reveal_strlit("open_close_curve");
    reveal_strlit("wheel_step");
}

/// Each size of a theme is set by its own key and by no other: a numeral is
/// taken over, held to the least that the size can be, and anything else leaves
/// the size as it was.
#[verifier::rlimit(60)]
pub proof fn each_size_has_its_own_key(t: ThemeView, key: Seq<char>, s: Seq<char>)
    ensures
        theme_with(t, key, s).window_width == (if key == "window_width"@ && i32_value(s) is Some {
            if i32_value(s)->0 < 1 {
                1
            } else {
                i32_value(s)->0
            }
        } else {
            t.window_width
        }),
        theme_with(t, key, s).window_height == (if key == "window_height"@ && i32_value(s) is Some {
            if i32_value(s)->0 < 1 {
                1
            } else {
                i32_value(s)->0
            }
        } else {
            t.window_height
        }),
        theme_with(t, key, s).icon_size == (if key == "icon_size"@ && i32_value(s) is Some {
            if i32_value(s)->0 < 1 {
                1
            } else {
                i32_value(s)->0
            }
        } else {
            t.icon_size
        }),
        theme_with(t, key, s).spacing == (if key == "spacing"@ && i32_value(s) is Some {
            if i32_value(s)->0 < 0 {
                0
            } else {
                i32_value(s)->0
            }
        } else {
            t.spacing
        }),
        theme_with(t, key, s).padding == (if key == "padding"@ && i32_value(s) is Some {
            if i32_value(s)->0 < 0 {
                0
            } else {
                i32_value(s)->0
            }
        } else {
            t.padding
        }),
        theme_with(t, key, s).corner_radius == (if key == "corner_radius"@ && i32_value(s) is Some {
            if i32_value(s)->0 < 0 {
                0
            } else {
                i32_value(s)->0
            }
        } else {
            t.corner_radius
        }),
        theme_with(t, key, s).window_corner_radius == (if key == "window_corner_radius"@ && i32_value(s) is Some {
            if i32_value(s)->0 < 0 {
                0
            } else {
                i32_value(s)->0
            }
        } else {
            t.window_corner_radius
        }),
        theme_with(t, key, s).search_bar_height == (if key == "search_bar_height"@ && i32_value(s) is Some {
            if i32_value(s)->0 < 0 {
                0
            } else {
                i32_value(s)->0
            }
        } else {
            t.search_bar_height
        }),
        theme_with(t, key, s).search_bar_width == (if key == "search_bar_width"@ && i32_value(s) is Some {
            if i32_value(s)->0 < 1 {
                1
            } else {
                i32_value(s)->0
            }
        } else {
            t.search_bar_width
        }),
        theme_with(t, key, s).search_bar_gap == (if key == "search_bar_gap"@ && i32_value(s) is Some {
            if i32_value(s)->0 < 0 {
                0
            } else {
                i32_value(s)->0
            }
        } else {
            t.search_bar_gap
        }),
        theme_with(t, key, s).search_bar_corner_radius == (if key == "search_bar_corner_radius"@ && i32_value(s) is Some {
            if i32_value(s)->0 < 0 {
                0
            } else {
                i32_value(s)->0
            }
        } else {
            t.search_bar_corner_radius
        }),
        theme_with(t, key, s).highlight_border_width == (if key == "highlight_border_width"@ && i32_value(s) is Some {
            if i32_value(s)->0 < 0 {
                0
            } else {
                i32_value(s)->0
            }
        } else {
            t.highlight_border_width
        }),
        theme_with(t, key, s).wheel_step == (if key == "wheel_step"@ && i32_value(s) is Some {
            i32_value(s)->0
        } else {
            t.wheel_step
        }),
{
    theme_keys_differ();
}

/// Each color, and the opacity of what is not selected, is set by its own key
/// and by no other, where the value reads as one.
pub proof fn each_color_has_its_own_key(t: ThemeView, key: Seq<char>, s: Seq<char>)
    ensures
        theme_with(t, key, s).background == (if key == "background"@ && color_value(s) is Some {
            color_value(s)->0
        } else {
            t.background
        }),
        theme_with(t, key, s).search_bar_background == (if key == "search_bar_background"@ && color_value(s) is Some {
            color_value(s)->0
        } else {
            t.search_bar_background
        }),
        theme_with(t, key, s).search_text_color == (if key == "search_text_color"@ && color_value(s) is Some {
            color_value(s)->0
        } else {
            t.search_text_color
        }),
        theme_with(t, key, s).highlight_border == (if key == "highlight_border"@ && color_value(s) is Some {
            color_value(s)->0
        } else {
            t.highlight_border
        }),
        theme_with(t, key, s).dim_opacity == (if key == "dim_opacity"@ && byte_value(s) is Some {
            byte_value(s)->0
        } else {
            t.dim_opacity
        }),
{
    theme_keys_differ();
}

/// Each setting of the motion is set by its own key and by no other, where the
/// value reads as one: a number is kept as it was written, or brought up to the
/// least that it can be.
pub proof fn each_motion_has_its_own_key(t: ThemeView, key: Seq<char>, s: Seq<char>)
    ensures
        theme_with(t, key, s).open_duration_ms == (if key == "open_duration_ms"@ && literal_of(s) is Some {
            if reaches(literal_of(s)->0, Bound::Zero) {
                s
            } else {
                "0.0"@
            }
        } else {
            t.open_duration_ms
        }),
        theme_with(t, key, s).close_duration_ms == (if key == "close_duration_ms"@ && literal_of(s) is Some {
            if reaches(literal_of(s)->0, Bound::Zero) {
                s
            } else {
                "0.0"@
            }
        } else {
            t.close_duration_ms
        }),
        theme_with(t, key, s).scroll_smoothing == (if key == "scroll_smoothing"@ && literal_of(s) is Some {
            if reaches(literal_of(s)->0, Bound::Tenth) {
                s
            } else {
                "0.1"@
            }
        } else {
            t.scroll_smoothing
        }),
        theme_with(t, key, s).highlight_smoothing == (if key == "highlight_smoothing"@ && literal_of(s) is Some {
            if reaches(literal_of(s)->0, Bound::Tenth) {
                s
            } else {
                "0.1"@
            }
        } else {
            t.highlight_smoothing
        }),
        theme_with(t, key, s).momentum_half_life_ms == (if key == "momentum_half_life_ms"@ && literal_of(s) is Some {
            if reaches(literal_of(s)->0, Bound::One) {
                s
            } else {
                "1.0"@
            }
        } else {
            t.momentum_half_life_ms
        }),
        theme_with(t, key, s).open_close_scale_from == (if key == "open_close_scale_from"@
            && literal_of(s) is Some {
            unit_clamped(s)
        } else {
            t.open_close_scale_from
        }),
        theme_with(t, key, s).open_close_curve == (if key == "open_close_curve"@ && curve_value(s) is Some {
            curve_value(s)->0
        } else {
            t.open_close_curve
        }),
{
    theme_keys_differ();
}

/// A radius that fits its box is kept, and a larger one becomes the largest that
/// fits; a search bar that is wider than the window becomes as wide; and nothing
/// else changes.
pub proof fn clamping_takes_the_largest_that_fits(t: ThemeView)
    requires
        t.wf(),
    ensures
        ({
            let c = t.clamped();
            &&& c.corner_radius == (if 2 * t.corner_radius <= t.icon_size {
                t.corner_radius as int
            } else {
                t.icon_size as int / 2
            })
            &&& c.window_corner_radius <= t.window_corner_radius
            &&& 2 * t.window_corner_radius <= t.window_width && 2 * t.window_corner_radius
                <= t.window_height ==> c.window_corner_radius == t.window_corner_radius
            &&& 2 * t.window_corner_radius > t.window_width || 2 * t.window_corner_radius
                > t.window_height ==> 2 * c.window_corner_radius + 2 > t.window_width || 2
                * c.window_corner_radius + 2 > t.window_height
            &&& c.search_bar_width == (if t.search_bar_width <= t.window_width {
                t.search_bar_width
            } else {
                t.window_width
            })
            &&& c.search_bar_corner_radius <= t.search_bar_corner_radius
            &&& 2 * t.search_bar_corner_radius <= c.search_bar_width && 2
                * t.search_bar_corner_radius <= t.search_bar_height ==> c.search_bar_corner_radius
                == t.search_bar_corner_radius
            &&& 2 * t.search_bar_corner_radius > c.search_bar_width || 2
                * t.search_bar_corner_radius > t.search_bar_height ==> 2
                * c.search_bar_corner_radius + 2 > c.search_bar_width || 2
                * c.search_bar_corner_radius + 2 > t.search_bar_height
            &&& c == (ThemeView {
                corner_radius: c.corner_radius,
                window_corner_radius: c.window_corner_radius,
                search_bar_width: c.search_bar_width,
                search_bar_corner_radius: c.search_bar_corner_radius,
                ..t
            })
        }),
{
}

/// The surface is as high as the panel, the gap and the search bar together,
/// and a bar that fits the window is centered: what is left over is the same on
/// both sides, but for one pixel where it is odd.
pub proof fn the_bar_is_centered(t: ThemeView)
    requires
        t.wf(),
        t.search_bar_width <= t.window_width,
    ensures
        t.surface_height() == t.window_height + t.search_bar_gap + t.search_bar_height,
        ({
            let left = half((t.window_width - t.search_bar_width) as i32);
            let right = t.window_width - t.search_bar_width - left;
            0 <= left <= right <= left + 1
        }),
{
}

/// The built-in appearance hangs together: the panel holds a row of icons with
/// its padding above and below, the bar is a full pill, every radius fits, and
/// three icons fit the window.
pub proof fn the_built_in_appearance_fits()
    ensures
        ({
            let t = default_theme();
            &&& t.wf()
            &&& t.clamped() == t
            &&& t.window_height == t.icon_size + 2 * t.padding
            &&& 2 * t.search_bar_corner_radius == t.search_bar_height
            &&& t.search_bar_width <= t.window_width
            &&& 2 * t.padding + 3 * t.icon_size + 2 * t.spacing <= t.window_width
            &&& t.search_bar_height >= 21
            &&& t.icon_size == 350 && t.spacing == 15 && t.padding == 10 && t.window_width == 1179
            &&& t.corner_radius == 12 && t.window_corner_radius == 20 && t.search_bar_gap == 16
            &&& t.search_bar_height == 44 && t.search_bar_width == 300
            &&& t.highlight_border_width == 3 && t.dim_opacity == 190 && t.wheel_step == 60
            &&& t.background == seq![0x1eu8, 0x1e, 0x2e, 0xeb]
            &&& t.search_bar_background == seq![0x18u8, 0x18, 0x25, 0xeb]
            &&& t.search_text_color == seq![0xcdu8, 0xd6, 0xf4, 0xff]
            &&& t.highlight_border == seq![0xf9u8, 0xe2, 0xaf, 0xff]
            &&& t.open_duration_ms == "200.0"@ && t.close_duration_ms == "160.0"@
            &&& t.open_close_scale_from == "0.92"@
            &&& t.open_close_curve == ("0.42"@, "0.0"@, "0.58"@, "1.0"@)
            &&& t.scroll_smoothing == "14.0"@ && t.highlight_smoothing == "20.0"@
            &&& t.momentum_half_life_ms == "120.0"@
        }),
{
}

/// A setting of the theme warns exactly when its value does not read as what its
/// key asks for.
#[verifier::rlimit(40)]
pub proof fn unreadable_settings_warn(v: ValueView, log: Seq<Seq<char>>)
    ensures
        v.key == "window_width"@
            || v.key == "window_height"@
            || v.key == "icon_size"@
            || v.key == "spacing"@
            || v.key == "padding"@
            || v.key == "corner_radius"@
            || v.key == "window_corner_radius"@
            || v.key == "search_bar_height"@
            || v.key == "search_bar_width"@
            || v.key == "search_bar_gap"@
            || v.key == "search_bar_corner_radius"@
            || v.key == "highlight_border_width"@
            || v.key == "wheel_step"@ ==> theme_kind(v.key) is Some && (kind_logged(
            theme_kind(v.key),
            v,
            log,
        ) == log <==> i32_value(v.text()) is Some),
        v.key == "background"@
            || v.key == "search_bar_background"@
            || v.key == "search_text_color"@
            || v.key == "highlight_border"@ ==> theme_kind(v.key) is Some && (kind_logged(
            theme_kind(v.key),
            v,
            log,
        ) == log <==> color_value(v.text()) is Some),
        v.key == "open_duration_ms"@
            || v.key == "close_duration_ms"@
            || v.key == "open_close_scale_from"@
            || v.key == "scroll_smoothing"@
            || v.key == "highlight_smoothing"@
            || v.key == "momentum_half_life_ms"@ ==> theme_kind(v.key) is Some && (kind_logged(
            theme_kind(v.key),
            v,
            log,
        ) == log <==> literal_of(v.text()) is Some),
        v.key == "dim_opacity"@ ==> theme_kind(v.key) is Some && (kind_logged(
            theme_kind(v.key),
            v,
            log,
        ) == log <==> byte_value(v.text()) is Some),
        v.key == "open_close_curve"@ ==> theme_kind(v.key) is Some && (kind_logged(
            theme_kind(v.key),
            v,
            log,
        ) == log <==> curve_value(v.text()) is Some),
{
    theme_keys_differ();
    if theme_kind(v.key) is Some && !kind_accepts(theme_kind(v.key)->0, v.text()) {
        assert(kind_logged(theme_kind(v.key), v, log).len() == log.len() + 1);
    }
}

} // verus!
