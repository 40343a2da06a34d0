//! The picker's state: which thumbnails are shown, which one is selected, and
//! how input, frames and the open and close animation change that.
//!
//! Rendered positions are real numbers that ease toward their targets; the
//! state here only ever compares them with whole numbers, for which a
//! [`Position`] is enough. Layout and targets are whole numbers throughout.

use vstd::prelude::*;
use vstd::arithmetic::div_mod::{lemma_fundamental_div_mod, lemma_fundamental_div_mod_converse};
use crate::font::Font;
use crate::pixels::Pixels;
use crate::text::{
    chars_of, concat2, contains, copy_of, has_infix, lowercased, opt_text, string_of, to_lowercase,
};
use crate::theme::{Theme, ThemeView};

verus! {

/// Initial delay of the key repeat.
pub const KEY_REPEAT_DELAY_MS: u32 = 400;

/// Interval of the key repeat.
pub const KEY_REPEAT_INTERVAL_MS: u32 = 40;

/// A pause after which scrolling counts as a fresh gesture.
pub const FRESH_GESTURE_MS: u32 = 150;

/// The left mouse button's event code.
pub const BTN_LEFT: u32 = 0x110;

/// A real number as far as comparing it with whole numbers goes: the largest
/// whole number that does not exceed it, and whether that is the number
/// itself.
#[derive(Clone, Copy, PartialEq, Eq, Structural, Debug)]
pub struct Position {
    pub whole: i64,
    pub exact: bool,
}

impl Position {
    /// The number is less than `n`.
    pub open spec fn is_below(self, n: int) -> bool {
        self.whole < n
    }

    /// The number is greater than `n`.
    pub open spec fn is_above(self, n: int) -> bool {
        self.whole > n || (self.whole == n && !self.exact)
    }

    pub fn below(self, n: i64) -> (b: bool)
        ensures
            b == self.is_below(n as int),
    {
        self.whole < n
    }

    pub fn above(self, n: i64) -> (b: bool)
        ensures
            b == self.is_above(n as int),
    {
        self.whole > n || (self.whole == n && !self.exact)
    }
}

#[derive(Clone, Copy, PartialEq, Eq, Structural, Debug)]
pub enum AnimPhase {
    Opening,
    Idle,
    Closing,
}

/// A thumbnail that can be picked, decoded once up front.
pub struct Entry {
    pub filename: String,
    pub pixels: Pixels,
}

/// A directional key held down, for synthesizing repeat while it stays
/// pressed.
#[derive(Clone, Copy, PartialEq, Eq, Structural, Debug)]
pub struct HeldKey {
    pub dir: i32,
    pub pressed_at: u32,
    pub last_repeat: u32,
}

#[derive(Clone, Copy, PartialEq, Eq, Structural, Debug)]
pub enum Selection {
    /// An index into the entries.
    Picked(usize),
    Cancelled,
}

/// A new target for the scroll position. `stop` says that it had to be held to
/// a bound, which ends the momentum.
#[derive(Clone, Copy, PartialEq, Eq, Structural, Debug)]
pub struct ScrollMove {
    pub target: i32,
    pub stop: bool,
}

/// The keys the picker knows.
#[derive(Clone, Copy, PartialEq, Eq, Structural, Debug)]
pub enum Key {
    Escape,
    Enter,
    Backspace,
    Left,
    Right,
    Home,
    End,
    Other,
}

/// What a frame starts from: the time since the last one, and how long the
/// present phase has lasted.
#[derive(Clone, Copy, PartialEq, Eq, Structural, Debug)]
pub struct FrameTiming {
    pub since_last: Option<u32>,
    pub phase: AnimPhase,
    pub elapsed: u32,
}

/// What the physics of a frame came to: which eased values still move,
/// whether the present phase's duration is over, and the scroll target.
#[derive(Clone, Copy)]
pub struct Motion {
    pub scroll_moving: bool,
    pub highlight_moving: bool,
    pub phase_done: bool,
    pub scroll_target: Position,
}

/// The time since the last scroll event, at least a millisecond, and whether
/// the gap makes this a fresh gesture.
#[derive(Clone, Copy, PartialEq, Eq, Structural, Debug)]
pub struct AxisStep {
    pub since_last: Option<u32>,
    pub fresh: bool,
}

/// What the pointer did, as one step of a frame of pointer input. Points are
/// given as for [`Picker::cell_at`].
#[derive(Clone, Copy, PartialEq, Eq, Structural, Debug)]
pub enum PointerStep {
    /// It entered or moved.
    Moved { x: Position, y: Position },
    /// It left the surface.
    Left,
    /// A button was pressed where the pointer was last.
    Pressed { button: u32, x: Position, y: Position },
    /// It scrolled.
    Scrolled { time: u32 },
}

pub struct Picker {
    pub theme: Theme,
    pub entries: Vec<Entry>,
    pub search: String,
    /// Indices into `entries` that match the current search. Layout,
    /// navigation and hit testing all speak of positions in this list; they
    /// are only mapped back when a selection is made.
    pub filtered: Vec<usize>,
    pub scroll_settled: bool,
    pub highlight_settled: bool,
    pub last_axis_time: Option<u32>,
    /// Position within `filtered`.
    pub hover: Option<usize>,
    /// Position within `filtered`.
    pub kbd_index: usize,
    pub held_key: Option<HeldKey>,
    pub anim_phase: AnimPhase,
    pub phase_start: Option<u32>,
    pub pending_result: Option<Selection>,
    pub configured: bool,
    pub needs_redraw: bool,
    pub frame_pending: bool,
    pub last_frame_time: Option<u32>,
    pub result: Option<Selection>,
}

/// The state of a picker, as mathematics.
pub struct PickerView {
    pub theme: ThemeView,
    pub entries: Seq<Entry>,
    pub search: Seq<char>,
    pub filtered: Seq<usize>,
    pub scroll_settled: bool,
    pub highlight_settled: bool,
    pub last_axis_time: Option<u32>,
    pub hover: Option<usize>,
    pub kbd_index: usize,
    pub held_key: Option<HeldKey>,
    pub anim_phase: AnimPhase,
    pub phase_start: Option<u32>,
    pub pending_result: Option<Selection>,
    pub configured: bool,
    pub needs_redraw: bool,
    pub frame_pending: bool,
    pub last_frame_time: Option<u32>,
    pub result: Option<Selection>,
}

impl View for Picker {
    type V = PickerView;

    open spec fn view(&self) -> PickerView {
        PickerView {
            theme: self.theme@,
            entries: self.entries@,
            search: self.search@,
            filtered: self.filtered@,
            scroll_settled: self.scroll_settled,
            highlight_settled: self.highlight_settled,
            last_axis_time: self.last_axis_time,
            hover: self.hover,
            kbd_index: self.kbd_index,
            held_key: self.held_key,
            anim_phase: self.anim_phase,
            phase_start: self.phase_start,
            pending_result: self.pending_result,
            configured: self.configured,
            needs_redraw: self.needs_redraw,
            frame_pending: self.frame_pending,
            last_frame_time: self.last_frame_time,
            result: self.result,
        }
    }
}

// ---------------------------------------------------------------- layout

/// The distance from one cell to the next.
pub open spec fn stride_of(t: ThemeView) -> int {
    t.icon_size + t.spacing
}

/// The x of a cell's left edge, counted along the ribbon.
pub open spec fn cell_x_of(t: ThemeView, pos: int) -> int {
    t.padding + pos * stride_of(t)
}

/// The width of a ribbon of `n` cells.
pub open spec fn content_width(t: ThemeView, n: int) -> int {
    t.padding * 2 + n * t.icon_size + (if n > 0 {
        n - 1
    } else {
        0
    }) * t.spacing
}

/// How far a ribbon of `n` cells can be scrolled.
pub open spec fn max_scroll_of(t: ThemeView, n: int) -> int {
    let rest = content_width(t, n) - t.window_width;
    if rest > 0 {
        rest
    } else {
        0
    }
}

/// Sizes make sense, the surface's bytes can be counted, and the ribbon of all
/// `n` cells can be laid out.
pub open spec fn lays_out(t: ThemeView, n: int) -> bool {
    &&& t.wf()
    &&& t.surface_height() <= i32::MAX
    &&& 4 * (t.window_width * t.surface_height()) <= i32::MAX
    &&& content_width(t, n) <= i32::MAX
}

proof fn widths_grow(t: ThemeView, m: int, n: int)
    requires
        t.wf(),
        0 <= m <= n,
    ensures
        0 <= m * t.icon_size <= n * t.icon_size,
        m <= m * t.icon_size,
        0 <= (if m > 0 {
            m - 1
        } else {
            0
        }) * t.spacing <= (if n > 0 {
            n - 1
        } else {
            0
        }) * t.spacing,
        content_width(t, m) <= content_width(t, n),
{
    assert(0 <= m * t.icon_size <= n * t.icon_size && m <= m * t.icon_size) by (nonlinear_arith)
        requires
            0 <= m <= n,
            t.icon_size >= 1,
    ;
    let a = if m > 0 {
        m - 1
    } else {
        0
    };
    let b = if n > 0 {
        n - 1
    } else {
        0
    };
    assert(0 <= a * t.spacing <= b * t.spacing) by (nonlinear_arith)
        requires
            0 <= a <= b,
            t.spacing >= 0,
    ;
}

/// A cell of a ribbon ends before the ribbon's own padding.
proof fn cells_lie_in_the_ribbon(t: ThemeView, pos: int, n: int)
    requires
        t.wf(),
        0 <= pos < n,
    ensures
        0 <= pos * stride_of(t),
        cell_x_of(t, pos) + t.icon_size + t.padding <= content_width(t, n),
{
    widths_grow(t, pos + 1, n);
    assert(pos * (t.icon_size + t.spacing) == pos * t.icon_size + pos * t.spacing)
        by (nonlinear_arith);
    assert((pos + 1) * t.icon_size == pos * t.icon_size + t.icon_size) by (nonlinear_arith);
    assert(0 <= pos * t.icon_size && 0 <= pos * t.spacing) by (nonlinear_arith)
        requires
            0 <= pos,
            t.icon_size >= 1,
            t.spacing >= 0,
    ;
}

/// Whether the theme and that many thumbnails can be laid out.
pub fn layout_fits(theme: &Theme, n: usize) -> (b: bool)
    requires
        theme@.wf(),
    ensures
        b == lays_out(theme@, n as int),
{
    let h: i64 = theme.window_height as i64 + theme.search_bar_gap as i64
        + theme.search_bar_height as i64;
    let max: i64 = i32::MAX as i64;
    if h > max {
        return false;
    }
    let w: i64 = theme.window_width as i64;
    assert(0 <= w * h <= 0x7fff_ffff * 0x7fff_ffff) by (nonlinear_arith)
        requires
            0 <= w <= 0x7fff_ffff,
            0 <= h <= 0x7fff_ffff,
    ;
    if w * h > max / 4 {
        return false;
    }
    proof {
        widths_grow(theme@, n as int, n as int);
    }
    if n > i32::MAX as usize {
        return false;
    }
    let k: i64 = n as i64;
    let gaps: i64 = if k > 0 {
        k - 1
    } else {
        0
    };
    assert(0 <= k * theme.icon_size <= 0x7fff_ffff * 0x7fff_ffff) by (nonlinear_arith)
        requires
            0 <= k <= 0x7fff_ffff,
            0 <= theme.icon_size <= 0x7fff_ffff,
    ;
    assert(0 <= gaps * theme.spacing <= 0x7fff_ffff * 0x7fff_ffff) by (nonlinear_arith)
        requires
            0 <= gaps <= 0x7fff_ffff,
            0 <= theme.spacing <= 0x7fff_ffff,
    ;
    let icons: i64 = k * theme.icon_size as i64;
    let spaces: i64 = gaps * theme.spacing as i64;
    if icons > max || spaces > max {
        return false;
    }
    theme.padding as i64 * 2 + icons + spaces <= max
}

/// The cell at a point of the surface: `y` counts from the surface's top and
/// `x` from the ribbon's first cell, with the scrolling taken into account.
pub open spec fn cell_hit(t: ThemeView, n: int, x: Position, y: Position) -> Option<usize> {
    let idx = x.whole as int / stride_of(t);
    if y.is_below(t.padding as int) || y.is_above(t.padding + t.icon_size) || x.is_below(0) {
        None
    } else if x.whole - idx * stride_of(t) < t.icon_size && idx < n {
        Some(idx as usize)
    } else {
        None
    }
}

/// The end of the scroll range of a ribbon of `n` cells that a target lies
/// beyond, if it does.
pub open spec fn scroll_bound(t: ThemeView, n: int, target: Position) -> Option<i32> {
    if target.is_below(0) {
        Some(0i32)
    } else if target.is_above(max_scroll_of(t, n)) {
        Some(max_scroll_of(t, n) as i32)
    } else {
        None
    }
}

/// Holds a whole number to the scroll range of a ribbon of `n` cells.
pub open spec fn scroll_to(t: ThemeView, n: int, target: int) -> ScrollMove {
    let max = max_scroll_of(t, n);
    let held = if target < 0 {
        0
    } else if target > max {
        max
    } else {
        target
    };
    ScrollMove { target: held as i32, stop: held != target }
}

/// The scrolling that brings a cell fully into view, if it is not.
pub open spec fn into_view(t: ThemeView, n: int, pos: int, target: Position) -> Option<
    ScrollMove,
> {
    let start = cell_x_of(t, pos);
    let end = start + t.icon_size;
    if target.is_above(start) {
        Some(scroll_to(t, n, start - t.padding))
    } else if target.is_below(end - t.window_width) {
        Some(scroll_to(t, n, end - t.window_width + t.padding))
    } else {
        None
    }
}

// ---------------------------------------------------------------- search

/// Whether a filename matches a search, without regard to case. The empty
/// search matches everything.
pub open spec fn found_by(name: Seq<char>, search: Seq<char>) -> bool {
    let needle = lowercased(search);
    search.len() == 0 || needle.len() == 0 || has_infix(lowercased(name), needle)
}

/// The indices of the first `k` entries that match a search, in order.
pub open spec fn matching(entries: Seq<Entry>, search: Seq<char>, k: nat) -> Seq<usize>
    decreases k,
{
    if k == 0 {
        Seq::empty()
    } else {
        let before = matching(entries, search, (k - 1) as nat);
        if found_by(entries[k - 1].filename@, search) {
            before.push((k - 1) as usize)
        } else {
            before
        }
    }
}

/// Those characters of a text that can be typed into the search box.
pub open spec fn typable(font: Font, s: Seq<char>) -> Seq<char>
    decreases s.len(),
{
    if s.len() == 0 {
        Seq::empty()
    } else {
        let before = typable(font, s.drop_last());
        if font.rows(s.last()) is Some {
            before.push(s.last())
        } else {
            before
        }
    }
}

/// The empty search shows every entry, in order.
pub proof fn the_empty_search_shows_everything(entries: Seq<Entry>, search: Seq<char>, k: nat)
    requires
        search.len() == 0,
    ensures
        matching(entries, search, k) == Seq::new(k, |i: int| i as usize),
    decreases k,
{
    if k > 0 {
        the_empty_search_shows_everything(entries, search, (k - 1) as nat);
    }
    assert(matching(entries, search, k) =~= Seq::new(k, |i: int| i as usize));
}

/// Every match is listed, nothing else is, and the order is the entries' own.
pub proof fn search_lists_exactly_the_matches(entries: Seq<Entry>, search: Seq<char>, k: nat)
    requires
        k <= entries.len(),
        k <= usize::MAX,
    ensures
        forall|i: int|
            0 <= i < matching(entries, search, k).len() ==> {
                &&& #[trigger] matching(entries, search, k)[i] < k
                &&& found_by(entries[matching(entries, search, k)[i] as int].filename@, search)
            },
        forall|i: int, j: int|
            0 <= i < j < matching(entries, search, k).len() ==> #[trigger] matching(
                entries,
                search,
                k,
            )[i] < #[trigger] matching(entries, search, k)[j],
        forall|e: int|
            0 <= e < k && found_by(#[trigger] entries[e].filename@, search) ==> matching(
                entries,
                search,
                k,
            ).contains(e as usize),
        matching(entries, search, k).len() <= k,
    decreases k,
{
    if k > 0 {
        let prev = matching(entries, search, (k - 1) as nat);
        let now = matching(entries, search, k);
        search_lists_exactly_the_matches(entries, search, (k - 1) as nat);
        assert forall|e: int|
            0 <= e < k && found_by(#[trigger] entries[e].filename@, search) implies now.contains(
            e as usize,
        ) by {
            if e < k - 1 {
                let i = choose|i: int| 0 <= i < prev.len() && prev[i] == e as usize;
                assert(now[i] == e as usize);
            } else {
                assert(now[now.len() - 1] == e as usize);
            }
        }
    }
}

// ---------------------------------------------------------------- the state

impl PickerView {
    /// The list is what the search finds, selections lie in it, and what was
    /// picked is one of its entries; while closing no key repeats.
    pub open spec fn wf(self) -> bool {
        &&& self.entries.len() > 0
        &&& self.entries.len() <= usize::MAX
        &&& lays_out(self.theme, self.entries.len() as int)
        &&& forall|i: int|
            0 <= i < self.entries.len() ==> {
                let p = #[trigger] self.entries[i].pixels;
                p.wf() && p.width == self.theme.icon_size && p.height == self.theme.icon_size
            }
        &&& self.filtered == matching(self.entries, self.search, self.entries.len())
        &&& self.kbd_index < self.filtered.len() || (self.kbd_index == 0 && self.filtered.len()
            == 0)
        &&& self.hover matches Some(p) ==> p < self.filtered.len()
        &&& self.held_key matches Some(k) ==> -1 <= k.dir <= 1
        &&& self.pending_result is Some ==> self.anim_phase is Closing
        &&& self.anim_phase is Closing ==> self.held_key is None
        &&& self.listed(self.pending_result)
        &&& self.listed(self.result)
        &&& self.result matches Some(Selection::Picked(i)) ==> self.anim_phase is Closing
    }

    /// What was picked, if anything, is shown.
    pub open spec fn listed(self, s: Option<Selection>) -> bool {
        s matches Some(Selection::Picked(i)) ==> self.filtered.contains(i)
    }

    pub open spec fn shown(self) -> int {
        self.filtered.len() as int
    }

    /// The position that is highlighted: the pointer wins over the keyboard.
    pub open spec fn selected(self) -> usize {
        match self.hover {
            Some(p) => p,
            None => self.kbd_index,
        }
    }

    /// Where the highlight ring belongs, along the ribbon.
    pub open spec fn ring_target(self) -> Option<i32> {
        if self.shown() == 0 {
            None
        } else {
            Some(cell_x_of(self.theme, self.selected() as int) as i32)
        }
    }

    /// The filename that was picked, once there is a result.
    pub open spec fn chosen_name(self) -> Option<Seq<char>> {
        match self.result {
            Some(Selection::Picked(i)) => Some(self.entries[i as int].filename@),
            _ => None,
        }
    }

    pub open spec fn animates(self, momentum: bool) -> bool {
        ||| !self.scroll_settled
        ||| !self.highlight_settled
        ||| momentum
        ||| self.held_key is Some
        ||| !(self.anim_phase is Idle)
    }

    /// Nothing is in flight, and there is a reason to draw.
    pub open spec fn draws(self, momentum: bool) -> bool {
        !self.frame_pending && (self.needs_redraw || self.animates(momentum))
    }

    /// After drawing.
    pub open spec fn drawn(self) -> PickerView {
        PickerView { needs_redraw: false, frame_pending: true, ..self }
    }

    /// After a chance to draw.
    pub open spec fn kicked(self, momentum: bool) -> PickerView {
        if self.draws(momentum) {
            self.drawn()
        } else {
            self
        }
    }

    /// After the frame in flight has been shown.
    pub open spec fn landed(self) -> PickerView {
        PickerView { frame_pending: false, ..self }
    }

    /// After the surface was taken away.
    pub open spec fn lost(self) -> PickerView {
        PickerView { result: Some(Selection::Cancelled), ..self }
    }

    /// After the surface was configured.
    pub open spec fn ready(self) -> PickerView {
        PickerView { configured: true, needs_redraw: true, ..self }
    }

    /// After the keyboard selected a position.
    pub open spec fn with_cursor(self, pos: usize) -> PickerView {
        if pos == self.kbd_index {
            self
        } else {
            PickerView { kbd_index: pos, hover: None, ..self }
        }
    }

    /// The scrolling that goes with it.
    pub open spec fn cursor_move(self, pos: usize, target: Position) -> Option<ScrollMove> {
        if pos == self.kbd_index {
            None
        } else {
            into_view(self.theme, self.shown(), pos as int, target)
        }
    }

    /// After a step of the keyboard cursor.
    pub open spec fn stepped(self, delta: int) -> PickerView {
        if self.shown() == 0 {
            self
        } else {
            self.with_cursor(wrapped(self.kbd_index as int, delta, self.shown()) as usize)
        }
    }

    pub open spec fn step_move(self, delta: int, target: Position) -> Option<ScrollMove> {
        if self.shown() == 0 {
            None
        } else {
            self.cursor_move(
                wrapped(self.kbd_index as int, delta, self.shown()) as usize,
                target,
            )
        }
    }

    /// An absolute position held to the list.
    pub open spec fn held_index(self, index: int) -> usize {
        if index < 0 {
            0
        } else if index > self.shown() - 1 {
            (self.shown() - 1) as usize
        } else {
            index as usize
        }
    }

    pub open spec fn jumped(self, index: int) -> PickerView {
        if self.shown() == 0 {
            self
        } else {
            self.with_cursor(self.held_index(index))
        }
    }

    pub open spec fn jump_move(self, index: int, target: Position) -> Option<ScrollMove> {
        if self.shown() == 0 {
            None
        } else {
            self.cursor_move(self.held_index(index), target)
        }
    }

    /// After the search text changed.
    pub open spec fn searched(self, search: Seq<char>) -> PickerView {
        PickerView {
            search,
            filtered: matching(self.entries, search, self.entries.len()),
            kbd_index: 0,
            hover: None,
            needs_redraw: true,
            ..self
        }
    }

    /// After a selection was made; while already closing nothing changes.
    pub open spec fn closing_with(self, s: Selection) -> PickerView {
        if self.anim_phase is Closing {
            self
        } else {
            PickerView {
                pending_result: Some(s),
                anim_phase: AnimPhase::Closing,
                phase_start: None,
                held_key: None,
                ..self
            }
        }
    }

    pub open spec fn redrawn(self) -> PickerView {
        PickerView { needs_redraw: true, ..self }
    }
}

/// `index + delta`, wrapped into a list of `len`.
pub open spec fn wrapped(index: int, delta: int, len: int) -> int {
    (index + delta) % len
}

/// Wraps `index + delta` into a list of `len`, looping past either end.
pub fn wrap_index(index: usize, delta: i32, len: usize) -> (r: usize)
    requires
        0 < len <= i32::MAX,
        index <= i32::MAX,
        i32::MIN <= index + delta <= i32::MAX,
    ensures
        r == wrapped(index as int, delta as int, len as int),
        r < len,
{
    let n: i64 = len as i64;
    let sum: i64 = index as i64 + delta as i64;
    let rem: i64 = sum % n;
    proof {
        wrapping_remainder(sum as int, n as int, rem as int);
    }
    ((rem + n) % n) as usize
}

/// Adding the length to a remainder toward zero and taking the remainder again
/// gives the one that is not negative.
proof fn wrapping_remainder(sum: int, n: int, rem: int)
    requires
        n > 0,
        sum >= 0 ==> rem == sum % n,
        sum < 0 ==> rem == -((-sum) % n),
    ensures
        -n < rem < n,
        (rem + n) % n == sum % n,
{
    let q = (if sum >= 0 {
        sum
    } else {
        -sum
    }) / n;
    lemma_fundamental_div_mod(
        if sum >= 0 {
            sum
        } else {
            -sum
        },
        n,
    );
    assert(n * q == q * n) by (nonlinear_arith);
    if sum >= 0 {
        lemma_fundamental_div_mod_converse(rem + n, n, 1, rem);
    } else if rem == 0 {
        assert((-q) * n == -(q * n)) by (nonlinear_arith);
        lemma_fundamental_div_mod_converse(n, n, 1, 0);
        lemma_fundamental_div_mod_converse(sum, n, -q, 0);
    } else {
        assert((-q - 1) * n == -(q * n) - n) by (nonlinear_arith);
        lemma_fundamental_div_mod_converse(rem + n, n, 0, rem + n);
        lemma_fundamental_div_mod_converse(sum, n, -q - 1, rem + n);
    }
}

/// The indices of the entries that match a search.
fn find_matches(entries: &Vec<Entry>, search: &str) -> (r: Vec<usize>)
    ensures
        r@ == matching(entries@, search@, entries@.len()),
        search@.len() == 0 ==> r@ == Seq::new(entries@.len(), |i: int| i as usize),
{
    let needle: String = to_lowercase(search);
    let all: bool = search.is_empty() || needle.as_str().is_empty();
    let mut r: Vec<usize> = Vec::new();
    let mut i: usize = 0;
    while i < entries.len()
        invariant
            i <= entries@.len(),
            needle@ == lowercased(search@),
            all == (search@.len() == 0 || needle@.len() == 0),
            r@ == matching(entries@, search@, i as nat),
            all ==> r@ == Seq::new(i as nat, |k: int| k as usize),
        decreases entries@.len() - i,
    {
        let found: bool = all || contains(
            to_lowercase(entries[i].filename.as_str()).as_str(),
            needle.as_str(),
        );
        if found {
            r.push(i);
        }
        i = i + 1;
    }
    r
}

impl Picker {
    /// A picker that is about to open, with every entry shown and the first
    /// one selected. There is none without entries.
    pub fn new(theme: Theme, entries: Vec<Entry>) -> (r: Option<Picker>)
        requires
            lays_out(theme@, entries@.len() as int),
            forall|i: int|
                0 <= i < entries@.len() ==> {
                    let p = #[trigger] entries@[i].pixels;
                    p.wf() && p.width == theme@.icon_size && p.height == theme@.icon_size
                },
        ensures
            match r {
                None => entries@.len() == 0,
                Some(p) => {
                    &&& p@.wf()
                    &&& p@ == opened(theme@, entries@)
                },
            },
    {
        let n: usize = entries.len();
        if n == 0 {
            return None;
        }
        let search: String = String::new();
        assert(search@ =~= Seq::<char>::empty());
        let filtered: Vec<usize> = find_matches(&entries, search.as_str());
        let p: Picker = Picker {
            theme,
            entries,
            search,
            filtered,
            scroll_settled: true,
            highlight_settled: true,
            last_axis_time: None,
            hover: None,
            kbd_index: 0,
            held_key: None,
            anim_phase: AnimPhase::Opening,
            phase_start: None,
            pending_result: None,
            configured: false,
            needs_redraw: true,
            frame_pending: false,
            last_frame_time: None,
            result: None,
        };
        Some(p)
    }

    fn stride(&self) -> (s: i64)
        requires
            self@.wf(),
        ensures
            s == stride_of(self@.theme),
            s >= 1,
    {
        self.theme.icon_size as i64 + self.theme.spacing as i64
    }

    /// The x of the cell at position `pos` of the list, counted along the
    /// ribbon.
    pub fn cell_x(&self, pos: usize) -> (x: i32)
        requires
            self@.wf(),
            pos < self@.shown(),
        ensures
            x == cell_x_of(self@.theme, pos as int),
            0 <= x,
            x + self@.theme.icon_size <= i32::MAX,
    {
        proof {
            self.ribbon_fits();
            cells_lie_in_the_ribbon(self@.theme, pos as int, self@.shown());
            assert(pos * stride_of(self@.theme) >= pos) by (nonlinear_arith)
                requires
                    pos >= 0,
                    stride_of(self@.theme) >= 1,
            ;
        }
        let x: i64 = self.theme.padding as i64 + pos as i64 * self.stride();
        x as i32
    }

    /// What is shown is no wider than all there is.
    proof fn ribbon_fits(&self)
        requires
            self@.wf(),
        ensures
            content_width(self@.theme, self@.shown()) <= i32::MAX,
            0 <= self@.shown() <= i32::MAX,
            self@.shown() <= self@.entries.len(),
            0 <= max_scroll_of(self@.theme, self@.shown()) <= i32::MAX,
    {
        search_lists_exactly_the_matches(self@.entries, self@.search, self@.entries.len());
        widths_grow(self@.theme, self@.shown(), self@.entries.len() as int);
        widths_grow(self@.theme, self@.shown(), self@.shown());
    }

    /// The cell at a point, as a position in the list. `x` is counted from the
    /// first cell with the rendered scroll position taken into account, so
    /// that clicks land on what is visible in mid-scroll.
    pub fn cell_at(&self, x: Position, y: Position) -> (r: Option<usize>)
        requires
            self@.wf(),
        ensures
            r == cell_hit(self@.theme, self@.shown(), x, y),
            r matches Some(p) ==> p < self@.shown(),
    {
        let top: i64 = self.theme.padding as i64;
        let bottom: i64 = top + self.theme.icon_size as i64;
        if y.below(top) || y.above(bottom) || x.below(0) {
            return None;
        }
        let stride: i64 = self.stride();
        let idx: i64 = x.whole / stride;
        proof {
            lemma_fundamental_div_mod(x.whole as int, stride as int);
            assert(stride * idx == idx * stride) by (nonlinear_arith);
            assert(0 <= idx <= x.whole) by (nonlinear_arith)
                requires
                    x.whole >= 0,
                    stride >= 1,
                    idx == x.whole as int / stride as int,
            ;
        }
        let offset: i64 = x.whole % stride;
        if offset < self.theme.icon_size as i64 && (idx as u64) < self.filtered.len() as u64 {
            Some(idx as usize)
        } else {
            None
        }
    }

    /// How far the ribbon can be scrolled.
    pub fn max_scroll(&self) -> (m: i32)
        requires
            self@.wf(),
        ensures
            m == max_scroll_of(self@.theme, self@.shown()),
            0 <= m,
    {
        proof {
            self.ribbon_fits();
            widths_grow(self@.theme, self@.shown(), self@.shown());
        }
        let n: i64 = self.filtered.len() as i64;
        let gaps: i64 = if n > 0 {
            n - 1
        } else {
            0
        };
        let width: i64 = self.theme.padding as i64 * 2 + n * self.theme.icon_size as i64 + gaps
            * self.theme.spacing as i64;
        let rest: i64 = width - self.theme.window_width as i64;
        if rest > 0 {
            rest as i32
        } else {
            0
        }
    }

    /// The bound that a new scroll target has to be held to, if it lies beyond
    /// one. Hitting a bound ends the momentum, so that it does not keep
    /// pushing past the edge.
    pub fn set_scroll_target(&self, target: Position) -> (r: Option<i32>)
        requires
            self@.wf(),
        ensures
            r == scroll_bound(self@.theme, self@.shown(), target),
    {
        let max: i32 = self.max_scroll();
        if target.below(0) {
            Some(0)
        } else if target.above(max as i64) {
            Some(max)
        } else {
            None
        }
    }

    fn scrolled_to(&self, target: i64) -> (r: ScrollMove)
        requires
            self@.wf(),
        ensures
            r == scroll_to(self@.theme, self@.shown(), target as int),
    {
        let max: i32 = self.max_scroll();
        if target < 0 {
            ScrollMove { target: 0, stop: true }
        } else if target > max as i64 {
            ScrollMove { target: max, stop: true }
        } else {
            ScrollMove { target: target as i32, stop: false }
        }
    }

    /// The scrolling that brings the cell at `pos` fully within view, if it
    /// is not. Arrow keys move the selection, and the viewport follows.
    pub fn scroll_into_view(&self, pos: usize, target: Position) -> (r: Option<ScrollMove>)
        requires
            self@.wf(),
            pos < self@.shown(),
        ensures
            r == into_view(self@.theme, self@.shown(), pos as int, target),
    {
        let start: i64 = self.cell_x(pos) as i64;
        let end: i64 = start + self.theme.icon_size as i64;
        let width: i64 = self.theme.window_width as i64;
        let padding: i64 = self.theme.padding as i64;
        if target.above(start) {
            Some(self.scrolled_to(start - padding))
        } else if target.below(end - width) {
            Some(self.scrolled_to(end - width + padding))
        } else {
            None
        }
    }

    /// Selects a position with the keyboard, which takes over from the
    /// pointer.
    fn select(&mut self, pos: usize, target: Position) -> (r: Option<ScrollMove>)
        requires
            old(self)@.wf(),
            pos < old(self)@.shown(),
        ensures
            final(self)@ == old(self)@.with_cursor(pos),
            final(self)@.wf(),
            r == old(self)@.cursor_move(pos, target),
    {
        if pos != self.kbd_index {
            self.kbd_index = pos;
            self.hover = None;
            self.scroll_into_view(pos, target)
        } else {
            None
        }
    }

    /// Moves the keyboard cursor, wrapping past either end.
    pub fn move_kbd_cursor(&mut self, delta: i32, target: Position) -> (r: Option<ScrollMove>)
        requires
            old(self)@.wf(),
            i32::MIN <= old(self)@.kbd_index + delta <= i32::MAX,
        ensures
            final(self)@ == old(self)@.stepped(delta as int),
            final(self)@.wf(),
            r == old(self)@.step_move(delta as int, target),
    {
        proof {
            self.ribbon_fits();
        }
        if self.filtered.len() == 0 {
            return None;
        }
        let pos: usize = wrap_index(self.kbd_index, delta, self.filtered.len());
        self.select(pos, target)
    }

    /// Moves the keyboard cursor to an absolute position, held to the list.
    pub fn set_kbd_cursor(&mut self, index: i32, target: Position) -> (r: Option<ScrollMove>)
        requires
            old(self)@.wf(),
        ensures
            final(self)@ == old(self)@.jumped(index as int),
            final(self)@.wf(),
            r == old(self)@.jump_move(index as int, target),
    {
        proof {
            self.ribbon_fits();
        }
        let n: usize = self.filtered.len();
        if n == 0 {
            return None;
        }
        let pos: usize = if index < 0 {
            0
        } else if index as usize > n - 1 {
            n - 1
        } else {
            index as usize
        };
        self.select(pos, target)
    }

    /// Recomputes the list from the search text, and resets selection and
    /// scrolling for it.
    fn apply_search(&mut self) -> (r: ScrollMove)
        requires
            old(self)@.searched(old(self)@.search).wf(),
        ensures
            final(self)@ == old(self)@.searched(old(self)@.search),
            final(self)@.wf(),
            r == (ScrollMove { target: 0, stop: false }),
    {
        self.filtered = find_matches(&self.entries, self.search.as_str());
        self.kbd_index = 0;
        self.hover = None;
        self.needs_redraw = true;
        ScrollMove { target: 0, stop: false }
    }

    /// Begins the closing animation instead of resolving at once; the result
    /// only stands when it has finished.
    pub fn begin_close(&mut self, selection: Selection)
        requires
            old(self)@.wf(),
            old(self)@.listed(Some(selection)),
        ensures
            final(self)@ == old(self)@.closing_with(selection),
            final(self)@.wf(),
    {
        if self.is_closing() {
            return;
        }
        self.pending_result = Some(selection);
        self.anim_phase = AnimPhase::Closing;
        self.phase_start = None;
        self.held_key = None;
    }

    pub fn is_closing(&self) -> (b: bool)
        ensures
            b == (self@.anim_phase is Closing),
    {
        matches!(self.anim_phase, AnimPhase::Closing)
    }

    /// Whether there is a reason to keep animating without new input: an eased
    /// value that still moves, momentum, a held key, or an open or close
    /// animation.
    pub fn animating(&self, momentum: bool) -> (b: bool)
        ensures
            b == self@.animates(momentum),
    {
        !self.scroll_settled || !self.highlight_settled || momentum || self.held_key.is_some()
            || !matches!(self.anim_phase, AnimPhase::Idle)
    }
}

/// The state of a picker that is about to open.
pub open spec fn opened(theme: ThemeView, entries: Seq<Entry>) -> PickerView {
    PickerView {
        theme,
        entries,
        search: Seq::empty(),
        filtered: Seq::new(entries.len(), |i: int| i as usize),
        scroll_settled: true,
        highlight_settled: true,
        last_axis_time: None,
        hover: None,
        kbd_index: 0,
        held_key: None,
        anim_phase: AnimPhase::Opening,
        phase_start: None,
        pending_result: None,
        configured: false,
        needs_redraw: true,
        frame_pending: false,
        last_frame_time: None,
        result: None,
    }
}

// ---------------------------------------------------------------- frames

impl PickerView {
    /// After a frame began: it is the last one, and a phase that had not
    /// started starts with it.
    pub open spec fn at_frame(self, time: u32) -> PickerView {
        PickerView {
            last_frame_time: Some(time),
            phase_start: if self.anim_phase is Idle {
                self.phase_start
            } else {
                Some(self.started(time))
            },
            ..self
        }
    }

    /// When the present phase started, at the latest now.
    pub open spec fn started(self, time: u32) -> u32 {
        match self.phase_start {
            Some(t) => t,
            None => time,
        }
    }

    pub open spec fn timing(self, time: u32) -> FrameTiming {
        FrameTiming {
            since_last: match self.last_frame_time {
                Some(last) => Some(time.wrapping_sub(last)),
                None => None,
            },
            phase: self.anim_phase,
            elapsed: if self.anim_phase is Idle {
                0
            } else {
                time.wrapping_sub(self.started(time))
            },
        }
    }

    /// A held key is due for a repeat.
    pub open spec fn repeats(self, time: u32) -> bool {
        match self.held_key {
            Some(k) => time.wrapping_sub(k.pressed_at) >= KEY_REPEAT_DELAY_MS
                && time.wrapping_sub(k.last_repeat) >= KEY_REPEAT_INTERVAL_MS,
            None => false,
        }
    }

    /// After the eased values were advanced.
    pub open spec fn moved(self, m: Motion) -> PickerView {
        PickerView {
            scroll_settled: !m.scroll_moving,
            highlight_settled: !m.highlight_moving,
            needs_redraw: self.needs_redraw || m.scroll_moving || m.highlight_moving,
            ..self
        }
    }

    /// After a held key had its turn.
    pub open spec fn repeated(self, time: u32) -> PickerView {
        match self.held_key {
            Some(k) => if self.repeats(time) {
                PickerView {
                    held_key: Some(HeldKey { last_repeat: time, ..k }),
                    ..self.stepped(k.dir as int).redrawn()
                }
            } else {
                self
            },
            None => self,
        }
    }

    pub open spec fn repeat_move(self, time: u32, target: Position) -> Option<ScrollMove> {
        match self.held_key {
            Some(k) => if self.repeats(time) {
                self.step_move(k.dir as int, target)
            } else {
                None
            },
            None => None,
        }
    }

    /// After the open or close animation had its turn: opening ends in rest,
    /// and closing ends in the result, which is to cancel where nothing else
    /// was asked for.
    pub open spec fn phased(self, done: bool) -> PickerView {
        match self.anim_phase {
            AnimPhase::Opening => PickerView {
                needs_redraw: true,
                anim_phase: if done {
                    AnimPhase::Idle
                } else {
                    AnimPhase::Opening
                },
                ..self
            },
            AnimPhase::Closing => if done {
                PickerView {
                    needs_redraw: true,
                    result: match self.pending_result {
                        Some(s) => Some(s),
                        None => Some(Selection::Cancelled),
                    },
                    pending_result: None,
                    ..self
                }
            } else {
                self.redrawn()
            },
            AnimPhase::Idle => self,
        }
    }
}

impl PickerView {
    /// After a frame was finished.
    pub open spec fn advanced(self, time: u32, m: Motion) -> PickerView {
        self.moved(m).repeated(time).phased(m.phase_done)
    }

    /// The scrolling that goes with it.
    pub open spec fn advanced_move(self, time: u32, m: Motion) -> Option<ScrollMove> {
        self.moved(m).repeat_move(time, m.scroll_target)
    }
}

impl Picker {
    /// Starts a frame at the compositor's time. The result is what the
    /// physics of the frame go by.
    pub fn begin_frame(&mut self, time: u32) -> (r: FrameTiming)
        requires
            old(self)@.wf(),
        ensures
            final(self)@ == old(self)@.at_frame(time),
            final(self)@.wf(),
            r == old(self)@.timing(time),
    {
        let since_last: Option<u32> = match self.last_frame_time {
            Some(last) => Some(time.wrapping_sub(last)),
            None => None,
        };
        self.last_frame_time = Some(time);
        if matches!(self.anim_phase, AnimPhase::Idle) {
            return FrameTiming { since_last, phase: self.anim_phase, elapsed: 0 };
        }
        let started: u32 = match self.phase_start {
            Some(t) => t,
            None => time,
        };
        self.phase_start = Some(started);
        FrameTiming { since_last, phase: self.anim_phase, elapsed: time.wrapping_sub(started) }
    }

    /// Where the highlight ring should be: at the cell that is selected, by
    /// the pointer or else by the keyboard. Nowhere new if nothing is shown.
    pub fn highlight_target(&self) -> (r: Option<i32>)
        requires
            self@.wf(),
        ensures
            r == self@.ring_target(),
    {
        if self.filtered.len() == 0 {
            return None;
        }
        let pos: usize = match self.hover {
            Some(p) => p,
            None => self.kbd_index,
        };
        Some(self.cell_x(pos))
    }

    /// Finishes a frame: the eased values have been advanced, a held key
    /// repeats when it is due, and the open or close animation goes on. The
    /// result is the scrolling that a repeated key asks for.
    pub fn advance(&mut self, time: u32, m: Motion) -> (r: Option<ScrollMove>)
        requires
            old(self)@.wf(),
        ensures
            final(self)@ == old(self)@.advanced(time, m),
            final(self)@.wf(),
            r == old(self)@.advanced_move(time, m),
    {
        self.settle(m);
        let r: Option<ScrollMove> = self.repeat_key(time, m.scroll_target);
        self.advance_phase(m.phase_done);
        r
    }

    fn settle(&mut self, m: Motion)
        requires
            old(self)@.wf(),
        ensures
            final(self)@ == old(self)@.moved(m),
            final(self)@.wf(),
    {
        self.scroll_settled = !m.scroll_moving;
        self.highlight_settled = !m.highlight_moving;
        if m.scroll_moving || m.highlight_moving {
            self.needs_redraw = true;
        }
    }

    /// Moves the cursor again if a held key is due for a repeat.
    fn repeat_key(&mut self, time: u32, target: Position) -> (r: Option<ScrollMove>)
        requires
            old(self)@.wf(),
        ensures
            final(self)@ == old(self)@.repeated(time),
            final(self)@.wf(),
            r == old(self)@.repeat_move(time, target),
    {
        if let Some(k) = self.held_key {
            let since_press: u32 = time.wrapping_sub(k.pressed_at);
            let since_repeat: u32 = time.wrapping_sub(k.last_repeat);
            if since_press >= KEY_REPEAT_DELAY_MS && since_repeat >= KEY_REPEAT_INTERVAL_MS {
                proof {
                    self.ribbon_fits();
                }
                let r: Option<ScrollMove> = self.move_kbd_cursor(k.dir, target);
                self.held_key = Some(
                    HeldKey { dir: k.dir, pressed_at: k.pressed_at, last_repeat: time },
                );
                self.needs_redraw = true;
                return r;
            }
        }
        None
    }

    /// Goes on with the open or close animation.
    fn advance_phase(&mut self, done: bool)
        requires
            old(self)@.wf(),
        ensures
            final(self)@ == old(self)@.phased(done),
            final(self)@.wf(),
    {
        match self.anim_phase {
            AnimPhase::Opening => {
                self.needs_redraw = true;
                if done {
                    self.anim_phase = AnimPhase::Idle;
                }
            },
            AnimPhase::Closing => {
                self.needs_redraw = true;
                if done {
                    self.result = match self.pending_result {
                        Some(s) => Some(s),
                        None => Some(Selection::Cancelled),
                    };
                    self.pending_result = None;
                }
            },
            AnimPhase::Idle => {},
        }
    }

    /// The frame that was committed has been shown.
    pub fn frame_shown(&mut self)
        requires
            old(self)@.wf(),
        ensures
            final(self)@ == old(self)@.landed(),
            final(self)@.wf(),
    {
        self.frame_pending = false;
    }

    /// Whether to draw now: if nothing is in flight and there is a reason to.
    /// The drawing that follows answers every request so far and is in flight
    /// until it has been shown.
    pub fn kick(&mut self, momentum: bool) -> (draw: bool)
        requires
            old(self)@.wf(),
        ensures
            draw == old(self)@.draws(momentum),
            final(self)@ == old(self)@.kicked(momentum),
            final(self)@.wf(),
    {
        if !self.frame_pending && (self.needs_redraw || self.animating(momentum)) {
            self.needs_redraw = false;
            self.frame_pending = true;
            true
        } else {
            false
        }
    }

    /// The compositor takes the surface away: there is no time for an
    /// animation.
    pub fn closed(&mut self)
        requires
            old(self)@.wf(),
        ensures
            final(self)@ == old(self)@.lost(),
            final(self)@.wf(),
    {
        self.result = Some(Selection::Cancelled);
    }

    /// The surface has been configured and can be drawn on.
    pub fn configure(&mut self)
        requires
            old(self)@.wf(),
        ensures
            final(self)@ == old(self)@.ready(),
            final(self)@.wf(),
    {
        self.configured = true;
        self.needs_redraw = true;
    }

    /// The filename that was picked, once there is a result. Cancelling
    /// picks none.
    pub fn chosen(&self) -> (r: Option<String>)
        requires
            self@.wf(),
        ensures
            match self@.result {
                Some(Selection::Picked(i)) => {
                    &&& i < self@.entries.len()
                    &&& r matches Some(name) && name@ == self@.entries[i as int].filename@
                },
                _ => r is None,
            },
            opt_text(r) == self@.chosen_name(),
    {
        match self.result {
            Some(Selection::Picked(i)) => {
                proof {
                    search_lists_exactly_the_matches(
                        self@.entries,
                        self@.search,
                        self@.entries.len(),
                    );
                    let k = choose|k: int|
                        0 <= k < self@.filtered.len() && self@.filtered[k] == i;
                    assert(self@.filtered[k] < self@.entries.len());
                }
                Some(copy_of(self.entries[i].filename.as_str()))
            },
            _ => None,
        }
    }
}

// ---------------------------------------------------------------- input

impl PickerView {
    /// After the pointer moved to a cell, or to none.
    pub open spec fn pointed(self, cell: Option<usize>) -> PickerView {
        if cell == self.hover {
            self
        } else {
            PickerView {
                hover: cell,
                kbd_index: match cell {
                    Some(p) => p,
                    None => self.kbd_index,
                },
                needs_redraw: true,
                ..self
            }
        }
    }

    /// After a mouse button was pressed over a cell, or over none.
    pub open spec fn clicked(self, button: u32, cell: Option<usize>) -> PickerView {
        match cell {
            Some(p) => if button == BTN_LEFT {
                self.closing_with(Selection::Picked(self.filtered[p as int]))
            } else {
                self
            },
            None => self,
        }
    }

    /// After the pointer left.
    pub open spec fn unpointed(self) -> PickerView {
        PickerView { hover: None, needs_redraw: true, ..self }
    }

    /// After a scroll event.
    pub open spec fn scrolled(self, time: u32) -> PickerView {
        PickerView { last_axis_time: Some(time), ..self }
    }

    /// What a scroll event's velocity goes by.
    pub open spec fn axis_step(self, time: u32) -> AxisStep {
        match self.last_axis_time {
            Some(last) => AxisStep {
                since_last: Some(
                    if time.wrapping_sub(last) < 1 {
                        1
                    } else {
                        time.wrapping_sub(last)
                    },
                ),
                fresh: time.wrapping_sub(last) > FRESH_GESTURE_MS,
            },
            None => AxisStep { since_last: None, fresh: false },
        }
    }

    /// After one step of pointer input.
    pub open spec fn pointer_stepped(self, s: PointerStep) -> PickerView {
        match s {
            PointerStep::Moved { x, y } => self.pointed(cell_hit(self.theme, self.shown(), x, y)),
            PointerStep::Left => self.unpointed(),
            PointerStep::Pressed { button, x, y } => self.clicked(
                button,
                cell_hit(self.theme, self.shown(), x, y),
            ),
            PointerStep::Scrolled { time } => self.scrolled(time),
        }
    }

    /// After the first `k` steps of a frame of pointer input.
    pub open spec fn pointer_framed(self, steps: Seq<PointerStep>, k: nat) -> PickerView
        decreases k,
    {
        if k == 0 {
            self
        } else {
            self.pointer_framed(steps, (k - 1) as nat).pointer_stepped(steps[k - 1])
        }
    }

    /// What step `k` of such a frame hands back, if it scrolled.
    pub open spec fn framed_axis(self, steps: Seq<PointerStep>, k: nat) -> Option<AxisStep> {
        match steps[k as int] {
            PointerStep::Scrolled { time } => Some(
                self.pointer_framed(steps, k).axis_step(time),
            ),
            _ => None,
        }
    }

    /// After a whole frame of pointer input, which is ignored while closing.
    pub open spec fn pointer_read(self, steps: Seq<PointerStep>) -> PickerView {
        if self.anim_phase is Closing {
            self
        } else {
            self.pointer_framed(steps, steps.len())
        }
    }

    /// What each step of such a frame hands back.
    pub open spec fn pointer_axes(self, steps: Seq<PointerStep>) -> Seq<Option<AxisStep>> {
        Seq::new(
            steps.len(),
            |k: int|
                if self.anim_phase is Closing {
                    None
                } else {
                    self.framed_axis(steps, k as nat)
                },
        )
    }

    /// After a key was pressed; nothing happens while closing.
    pub open spec fn pressed(
        self,
        key: Key,
        time: u32,
        text: Option<Seq<char>>,
        font: Font,
    ) -> PickerView {
        if self.anim_phase is Closing {
            self
        } else {
            self.keyed(key, time, text, font).redrawn()
        }
    }

    /// The scrolling that goes with it.
    pub open spec fn pressed_move(
        self,
        key: Key,
        text: Option<Seq<char>>,
        font: Font,
        target: Position,
    ) -> Option<ScrollMove> {
        if self.anim_phase is Closing {
            None
        } else {
            self.key_move(key, text, font, target)
        }
    }

    /// When no key is held.
    pub open spec fn unheld(self) -> PickerView {
        PickerView { held_key: None, ..self }
    }

    /// After a key was released.
    pub open spec fn released(self, key: Key) -> PickerView {
        if key is Left || key is Right {
            self.unheld()
        } else {
            self
        }
    }

    /// What a key does while the picker is not closing.
    pub open spec fn keyed(
        self,
        key: Key,
        time: u32,
        text: Option<Seq<char>>,
        font: Font,
    ) -> PickerView {
        match key {
            Key::Escape => if self.search.len() > 0 {
                self.searched(Seq::empty())
            } else {
                self.closing_with(Selection::Cancelled)
            },
            Key::Enter => if self.kbd_index < self.shown() {
                self.closing_with(Selection::Picked(self.filtered[self.kbd_index as int]))
            } else {
                self
            },
            Key::Backspace => if self.search.len() > 0 {
                self.searched(self.search.drop_last())
            } else {
                self
            },
            Key::Left => self.held((-1) as i32, time),
            Key::Right => self.held(1, time),
            Key::Home => self.jumped(0),
            Key::End => self.jumped(i32::MAX as int),
            Key::Other => match text {
                Some(t) => if typable(font, t).len() > 0 {
                    self.searched(self.search + typable(font, t))
                } else {
                    self
                },
                None => self,
            },
        }
    }

    /// After a step in a direction whose key is now held down.
    pub open spec fn held(self, dir: i32, time: u32) -> PickerView {
        PickerView {
            held_key: Some(HeldKey { dir, pressed_at: time, last_repeat: time }),
            ..self.stepped(dir as int)
        }
    }

    /// The scrolling that a key asks for.
    pub open spec fn key_move(
        self,
        key: Key,
        text: Option<Seq<char>>,
        font: Font,
        target: Position,
    ) -> Option<ScrollMove> {
        let start = ScrollMove { target: 0, stop: false };
        match key {
            Key::Escape => if self.search.len() > 0 {
                Some(start)
            } else {
                None
            },
            Key::Enter => None,
            Key::Backspace => if self.search.len() > 0 {
                Some(start)
            } else {
                None
            },
            Key::Left => self.step_move(-1, target),
            Key::Right => self.step_move(1, target),
            Key::Home => self.jump_move(0, target),
            Key::End => self.jump_move(i32::MAX as int, target),
            Key::Other => match text {
                Some(t) => if typable(font, t).len() > 0 {
                    Some(start)
                } else {
                    None
                },
                None => None,
            },
        }
    }
}

/// The text of an optional string slice.
pub open spec fn slice_text(o: Option<&str>) -> Option<Seq<char>> {
    match o {
        Some(s) => Some(s@),
        None => None,
    }
}

/// Those characters of a text that can be typed into the search box.
fn typed_text(font: &Font, text: &str) -> (r: String)
    ensures
        r@ == typable(*font, text@),
{
    let v: Vec<char> = chars_of(text);
    let mut r: String = String::new();
    let mut i: usize = 0;
    assert(r@ =~= typable(*font, v@.take(0)));
    while i < v.len()
        invariant
            i <= v@.len(),
            v@ == text@,
            r@ == typable(*font, v@.take(i as int)),
        decreases v@.len() - i,
    {
        assert(v@.take(i + 1).drop_last() =~= v@.take(i as int));
        assert(v@.take(i + 1).last() == v@[i as int]);
        if font.is_searchable(v[i]) {
            r.push(v[i]);
        }
        i = i + 1;
    }
    assert(v@.take(i as int) =~= text@);
    r
}

impl Picker {
    /// The pointer entered or moved: what lies under it is highlighted, and
    /// the keyboard cursor goes along.
    pub fn pointer_moved(&mut self, x: Position, y: Position)
        requires
            old(self)@.wf(),
        ensures
            final(self)@ == old(self)@.pointed(
                cell_hit(old(self)@.theme, old(self)@.shown(), x, y),
            ),
            final(self)@.wf(),
    {
        let cell: Option<usize> = self.cell_at(x, y);
        let unchanged: bool = match (cell, self.hover) {
            (Some(a), Some(b)) => a == b,
            (None, None) => true,
            _ => false,
        };
        if unchanged {
            return;
        }
        self.hover = cell;
        if let Some(p) = cell {
            self.kbd_index = p;
        }
        self.needs_redraw = true;
    }

    /// The pointer left the surface.
    pub fn pointer_left(&mut self)
        requires
            old(self)@.wf(),
        ensures
            final(self)@ == old(self)@.unpointed(),
            final(self)@.wf(),
    {
        self.hover = None;
        self.needs_redraw = true;
    }

    /// A mouse button was pressed: the left one picks the thumbnail under the
    /// pointer.
    pub fn pointer_pressed(&mut self, button: u32, x: Position, y: Position)
        requires
            old(self)@.wf(),
        ensures
            final(self)@ == old(self)@.clicked(
                button,
                cell_hit(old(self)@.theme, old(self)@.shown(), x, y),
            ),
            final(self)@.wf(),
    {
        if button != BTN_LEFT {
            return;
        }
        if let Some(p) = self.cell_at(x, y) {
            let i: usize = self.filtered[p];
            assert(self@.filtered.contains(i));
            self.begin_close(Selection::Picked(i));
        }
    }

    /// A scroll event came in; the result is what its velocity goes by.
    pub fn axis(&mut self, time: u32) -> (r: AxisStep)
        requires
            old(self)@.wf(),
        ensures
            final(self)@ == old(self)@.scrolled(time),
            final(self)@.wf(),
            r == old(self)@.axis_step(time),
    {
        let r: AxisStep = match self.last_axis_time {
            Some(last) => {
                let gap: u32 = time.wrapping_sub(last);
                AxisStep {
                    since_last: Some(
                        if gap < 1 {
                            1
                        } else {
                            gap
                        },
                    ),
                    fresh: gap > FRESH_GESTURE_MS,
                }
            },
            None => AxisStep { since_last: None, fresh: false },
        };
        self.last_axis_time = Some(time);
        r
    }

    /// A frame of pointer input: its steps, one after the other. While closing
    /// the whole frame is ignored; a click that begins the closing does not keep
    /// the steps behind it from counting. The result says, for each step, what a
    /// scroll event's velocity goes by.
    pub fn pointer_frame(&mut self, steps: &Vec<PointerStep>) -> (r: Vec<Option<AxisStep>>)
        requires
            old(self)@.wf(),
        ensures
            final(self)@.wf(),
            final(self)@ == old(self)@.pointer_read(steps@),
            r@ == old(self)@.pointer_axes(steps@),
    {
        let closing: bool = self.is_closing();
        let ghost start = self@;
        let mut r: Vec<Option<AxisStep>> = Vec::new();
        let mut i: usize = 0;
        while i < steps.len()
            invariant
                i <= steps@.len(),
                closing == (start.anim_phase is Closing),
                self@.wf(),
                self@ == (if closing {
                    start
                } else {
                    start.pointer_framed(steps@, i as nat)
                }),
                r@ == Seq::new(
                    i as nat,
                    |k: int|
                        if closing {
                            None
                        } else {
                            start.framed_axis(steps@, k as nat)
                        },
                ),
            decreases steps@.len() - i,
        {
            let a: Option<AxisStep> = if closing {
                None
            } else {
                self.pointer_step(steps[i])
            };
            r.push(a);
            i = i + 1;
            assert(r@ =~= Seq::new(
                i as nat,
                |k: int|
                    if closing {
                        None
                    } else {
                        start.framed_axis(steps@, k as nat)
                    },
            ));
        }
        assert(r@ =~= start.pointer_axes(steps@));
        r
    }

    fn pointer_step(&mut self, s: PointerStep) -> (r: Option<AxisStep>)
        requires
            old(self)@.wf(),
        ensures
            final(self)@ == old(self)@.pointer_stepped(s),
            final(self)@.wf(),
            r == (match s {
                PointerStep::Scrolled { time } => Some(old(self)@.axis_step(time)),
                _ => None,
            }),
    {
        match s {
            PointerStep::Moved { x, y } => {
                self.pointer_moved(x, y);
                None
            },
            PointerStep::Left => {
                self.pointer_left();
                None
            },
            PointerStep::Pressed { button, x, y } => {
                self.pointer_pressed(button, x, y);
                None
            },
            PointerStep::Scrolled { time } => Some(self.axis(time)),
        }
    }

    /// A key was pressed. Escape clears the search, or closes if it is empty
    /// already; Enter picks; the arrows and Home and End move the selection;
    /// what can be typed extends the search. The result is the scrolling that
    /// goes with it. Nothing happens while closing.
    pub fn press_key(
        &mut self,
        key: Key,
        time: u32,
        text: Option<&str>,
        font: &Font,
        target: Position,
    ) -> (r: Option<ScrollMove>)
        requires
            old(self)@.wf(),
        ensures
            final(self)@ == old(self)@.pressed(key, time, slice_text(text), *font),
            final(self)@.wf(),
            r == old(self)@.pressed_move(key, slice_text(text), *font, target),
    {
        if self.is_closing() {
            return None;
        }
        let r: Option<ScrollMove> = self.handle_key(key, time, text, font, target);
        self.redraw();
        r
    }

    fn redraw(&mut self)
        requires
            old(self)@.wf(),
        ensures
            final(self)@ == old(self)@.redrawn(),
            final(self)@.wf(),
    {
        self.needs_redraw = true;
    }

    fn handle_key(
        &mut self,
        key: Key,
        time: u32,
        text: Option<&str>,
        font: &Font,
        target: Position,
    ) -> (r: Option<ScrollMove>)
        requires
            old(self)@.wf(),
            !(old(self)@.anim_phase is Closing),
        ensures
            final(self)@ == old(self)@.keyed(key, time, slice_text(text), *font),
            final(self)@.wf(),
            r == old(self)@.key_move(key, slice_text(text), *font, target),
    {
        match key {
            Key::Escape => self.escape(),
            Key::Enter => {
                self.pick_selected();
                None
            },
            Key::Backspace => self.erase(),
            Key::Left => self.hold_key(-1, time, target),
            Key::Right => self.hold_key(1, time, target),
            Key::Home => self.set_kbd_cursor(0, target),
            Key::End => self.set_kbd_cursor(i32::MAX, target),
            Key::Other => self.type_text(text, font),
        }
    }

    /// Changes the search text.
    fn search_for(&mut self, search: String) -> (r: ScrollMove)
        requires
            old(self)@.wf(),
            !(old(self)@.anim_phase is Closing),
        ensures
            final(self)@ == old(self)@.searched(search@),
            final(self)@.wf(),
            r == (ScrollMove { target: 0, stop: false }),
    {
        self.search = search;
        self.apply_search()
    }

    fn escape(&mut self) -> (r: Option<ScrollMove>)
        requires
            old(self)@.wf(),
            !(old(self)@.anim_phase is Closing),
        ensures
            final(self)@ == (if old(self)@.search.len() > 0 {
                old(self)@.searched(Seq::empty())
            } else {
                old(self)@.closing_with(Selection::Cancelled)
            }),
            final(self)@.wf(),
            r == (if old(self)@.search.len() > 0 {
                Some(ScrollMove { target: 0, stop: false })
            } else {
                None
            }),
    {
        if chars_of(self.search.as_str()).len() > 0 {
            let empty: String = String::new();
            assert(empty@ =~= Seq::<char>::empty());
            Some(self.search_for(empty))
        } else {
            self.begin_close(Selection::Cancelled);
            None
        }
    }

    fn pick_selected(&mut self)
        requires
            old(self)@.wf(),
        ensures
            final(self)@ == (if old(self)@.kbd_index < old(self)@.shown() {
                old(self)@.closing_with(
                    Selection::Picked(old(self)@.filtered[old(self)@.kbd_index as int]),
                )
            } else {
                old(self)@
            }),
            final(self)@.wf(),
    {
        if self.kbd_index < self.filtered.len() {
            let i: usize = self.filtered[self.kbd_index];
            assert(self@.filtered.contains(i));
            self.begin_close(Selection::Picked(i));
        }
    }

    fn erase(&mut self) -> (r: Option<ScrollMove>)
        requires
            old(self)@.wf(),
            !(old(self)@.anim_phase is Closing),
        ensures
            final(self)@ == (if old(self)@.search.len() > 0 {
                old(self)@.searched(old(self)@.search.drop_last())
            } else {
                old(self)@
            }),
            final(self)@.wf(),
            r == (if old(self)@.search.len() > 0 {
                Some(ScrollMove { target: 0, stop: false })
            } else {
                None
            }),
    {
        let v: Vec<char> = chars_of(self.search.as_str());
        if v.len() > 0 {
            let shorter: String = string_of(&v, 0, v.len() - 1);
            assert(shorter@ =~= self@.search.drop_last());
            Some(self.search_for(shorter))
        } else {
            None
        }
    }

    fn type_text(&mut self, text: Option<&str>, font: &Font) -> (r: Option<ScrollMove>)
        requires
            old(self)@.wf(),
            !(old(self)@.anim_phase is Closing),
        ensures
            final(self)@ == old(self)@.keyed(Key::Other, 0, slice_text(text), *font),
            final(self)@.wf(),
            r == (match text {
                Some(t) => if typable(*font, t@).len() > 0 {
                    Some(ScrollMove { target: 0, stop: false })
                } else {
                    None
                },
                None => None,
            }),
    {
        if let Some(t) = text {
            let typed: String = typed_text(font, t);
            if chars_of(typed.as_str()).len() > 0 {
                return Some(self.search_for(concat2(self.search.as_str(), typed.as_str())));
            }
        }
        None
    }

    fn hold_key(&mut self, dir: i32, time: u32, target: Position) -> (r: Option<ScrollMove>)
        requires
            old(self)@.wf(),
            !(old(self)@.anim_phase is Closing),
            -1 <= dir <= 1,
        ensures
            final(self)@ == old(self)@.held(dir, time),
            final(self)@.wf(),
            r == old(self)@.step_move(dir as int, target),
    {
        proof {
            self.ribbon_fits();
        }
        let r: Option<ScrollMove> = self.move_kbd_cursor(dir, target);
        self.held_key = Some(HeldKey { dir, pressed_at: time, last_repeat: time });
        r
    }

    /// A key was released: an arrow no longer repeats.
    pub fn release_key(&mut self, key: Key)
        requires
            old(self)@.wf(),
        ensures
            final(self)@ == old(self)@.released(key),
            final(self)@.wf(),
    {
        if matches!(key, Key::Left | Key::Right) {
            self.held_key = None;
        }
    }

    /// The keyboard went elsewhere: no key is held.
    pub fn leave(&mut self)
        requires
            old(self)@.wf(),
        ensures
            final(self)@ == old(self)@.unheld(),
            final(self)@.wf(),
    {
        self.held_key = None;
    }
}

// ---------------------------------------------------------------- laws

/// A step past the last position loops to the first, and one before the first
/// to the last; steps in between move by one.
pub proof fn steps_loop_past_either_end(index: int, len: int)
    requires
        0 <= index < len,
    ensures
        wrapped(index, 1, len) == (if index == len - 1 {
            0
        } else {
            index + 1
        }),
        wrapped(index, -1, len) == (if index == 0 {
            len - 1
        } else {
            index - 1
        }),
{
    if index == len - 1 {
        lemma_fundamental_div_mod_converse(len, len, 1, 0);
    } else {
        lemma_fundamental_div_mod_converse(index + 1, len, 0, index + 1);
    }
    if index == 0 {
        lemma_fundamental_div_mod_converse(-1, len, -1, len - 1);
    } else {
        lemma_fundamental_div_mod_converse(index - 1, len, 0, index - 1);
    }
}

/// A step back undoes a step.
pub proof fn a_step_back_undoes_a_step(index: int, delta: int, len: int)
    requires
        0 <= index < len,
    ensures
        0 <= wrapped(index, delta, len) < len,
        wrapped(wrapped(index, delta, len), -delta, len) == index,
{
    let sum = index + delta;
    let q = sum / len;
    lemma_fundamental_div_mod(sum, len);
    assert(len * q == q * len) by (nonlinear_arith);
    assert((-q) * len == -(q * len)) by (nonlinear_arith);
    lemma_fundamental_div_mod_converse(sum % len - delta, len, -q, index);
}

/// Home selects the first thumbnail and End the last, from anywhere.
pub proof fn home_and_end_reach_the_ends(v: PickerView, t: u32, font: Font)
    requires
        v.wf(),
        0 < v.shown() <= i32::MAX,
    ensures
        v.keyed(Key::Home, t, None, font).kbd_index == 0,
        v.keyed(Key::End, t, None, font).kbd_index == v.shown() - 1,
{
}

/// A cell is hit exactly where it is drawn: over its own width and height, and
/// not in the gaps between cells.
pub proof fn cells_are_hit_where_they_are_drawn(
    t: ThemeView,
    n: int,
    pos: int,
    x: Position,
    y: Position,
)
    requires
        t.wf(),
        0 <= pos < n <= usize::MAX,
    ensures
        cell_hit(t, n, x, y) == Some(pos as usize) <==> {
            &&& pos * stride_of(t) <= x.whole < pos * stride_of(t) + t.icon_size
            &&& !y.is_below(t.padding as int)
            &&& !y.is_above(t.padding + t.icon_size)
        },
{
    let stride = stride_of(t);
    let idx = x.whole as int / stride;
    lemma_fundamental_div_mod(x.whole as int, stride);
    assert(stride * idx == idx * stride) by (nonlinear_arith);
    assert(0 <= pos * stride) by (nonlinear_arith)
        requires
            0 <= pos,
            0 <= stride,
    ;
    if pos * stride <= x.whole < pos * stride + t.icon_size {
        lemma_fundamental_div_mod_converse(x.whole as int, stride, pos, x.whole - pos * stride);
    }
    if x.whole >= 0 {
        assert(idx >= 0) by (nonlinear_arith)
            requires
                x.whole >= 0,
                stride >= 1,
                idx == x.whole as int / stride,
        ;
    }
}

/// After following the selection, the scroll target lies in its range and the
/// cell is fully in view, in a window that is wide enough for it.
pub proof fn the_selection_comes_into_view(t: ThemeView, n: int, pos: int, target: Position)
    requires
        lays_out(t, n),
        0 <= pos < n,
        t.padding + t.icon_size <= t.window_width,
    ensures
        ({
            let start = cell_x_of(t, pos);
            let end = start + t.icon_size;
            match into_view(t, n, pos, target) {
                Some(m) => {
                    &&& 0 <= m.target <= max_scroll_of(t, n)
                    &&& m.target <= start
                    &&& end <= m.target + t.window_width
                },
                None => !target.is_above(start) && !target.is_below(end - t.window_width),
            }
        }),
{
    cells_lie_in_the_ribbon(t, pos, n);
}

/// Once closing has begun, the selection stands: a later one changes nothing.
pub proof fn the_first_selection_stands(v: PickerView, first: Selection, second: Selection)
    ensures
        v.closing_with(first).closing_with(second) == v.closing_with(first),
{
}

/// Pointer input never leaves the closing phase or changes what was selected
/// once it has begun.
pub proof fn pointer_input_keeps_the_selection(v: PickerView, steps: Seq<PointerStep>, k: nat)
    requires
        v.anim_phase is Closing,
    ensures
        v.pointer_framed(steps, k).anim_phase is Closing,
        v.pointer_framed(steps, k).pending_result == v.pending_result,
        v.pointer_framed(steps, k).result == v.result,
    decreases k,
{
    if k > 0 {
        pointer_input_keeps_the_selection(v, steps, (k - 1) as nat);
    }
}

/// Closing resolves to what was selected, when the animation is over and not
/// before.
pub proof fn closing_resolves_to_the_selection(v: PickerView, s: Selection)
    requires
        v.wf(),
        !(v.anim_phase is Closing),
    ensures
        v.closing_with(s).phased(false).result == v.result,
        v.closing_with(s).phased(true).result == Some(s),
{
}

/// Whatever is picked matches the search.
pub proof fn the_picked_entry_matches_the_search(v: PickerView, i: usize)
    requires
        v.wf(),
        v.result == Some(Selection::Picked(i)) || v.pending_result == Some(Selection::Picked(i)),
    ensures
        i < v.entries.len(),
        found_by(v.entries[i as int].filename@, v.search),
{
    search_lists_exactly_the_matches(v.entries, v.search, v.entries.len());
    let k = choose|k: int| 0 <= k < v.filtered.len() && v.filtered[k] == i;
    assert(v.filtered[k] < v.entries.len());
}

/// Escape clears the search first, which shows every entry again, and closes
/// with nothing picked when there is none.
pub proof fn escape_clears_then_closes(v: PickerView, t1: u32, t2: u32, font: Font)
    requires
        v.wf(),
        !(v.anim_phase is Closing),
        v.search.len() > 0,
    ensures
        ({
            let once = v.keyed(Key::Escape, t1, None, font);
            let twice = once.keyed(Key::Escape, t2, None, font);
            &&& once.search.len() == 0
            &&& once.filtered == Seq::new(v.entries.len(), |i: int| i as usize)
            &&& once.pending_result is None
            &&& twice.pending_result == Some(Selection::Cancelled)
            &&& twice.anim_phase is Closing
        }),
{
    the_empty_search_shows_everything(v.entries, Seq::empty(), v.entries.len());
}

/// Erasing undoes typing a character: the search and the list are what they
/// were.
pub proof fn erasing_undoes_typing(v: PickerView, c: char, t1: u32, t2: u32, font: Font)
    requires
        v.wf(),
        font.rows(c) is Some,
    ensures
        ({
            let typed = v.keyed(Key::Other, t1, Some(seq![c]), font);
            let erased = typed.keyed(Key::Backspace, t2, None, font);
            &&& typed.search == v.search.push(c)
            &&& erased.search == v.search
            &&& erased.filtered == v.filtered
        }),
{
    let t = seq![c];
    assert(t.drop_last() =~= Seq::<char>::empty());
    assert(typable(font, t.drop_last()) =~= Seq::<char>::empty());
    assert(typable(font, t) =~= seq![c]);
    assert(v.search + seq![c] =~= v.search.push(c));
    assert(v.search.push(c).drop_last() =~= v.search);
}

/// At most one frame is in flight: after drawing, nothing is drawn until the
/// frame has been shown.
pub proof fn one_frame_is_in_flight(v: PickerView, first: bool, second: bool)
    requires
        v.draws(first),
    ensures
        v.drawn().frame_pending,
        !v.drawn().draws(second),
{
}

/// Held down, a key repeats only after the initial delay, and then no faster
/// than the interval.
pub proof fn repeats_are_paced(v: PickerView, time: u32)
    requires
        v.wf(),
        v.held_key is Some,
        v.repeats(time),
    ensures
        time.wrapping_sub(v.held_key->0.pressed_at) >= KEY_REPEAT_DELAY_MS,
        v.repeated(time).held_key == Some(HeldKey { last_repeat: time, ..v.held_key->0 }),
        forall|later: u32|
            #[trigger] later.wrapping_sub(time) < KEY_REPEAT_INTERVAL_MS ==> !v.repeated(
                time,
            ).repeats(later),
{
}

// ---------------------------------------------------------------- time

impl PickerView {
    /// After the first `k` of a run of frames, each begun at its time and
    /// finished with what its physics came to.
    pub open spec fn ran(self, times: Seq<u32>, motions: Seq<Motion>, k: nat) -> PickerView
        decreases k,
    {
        if k == 0 {
            self
        } else {
            let m = motions[k - 1];
            let time = times[k - 1];
            self.ran(times, motions, (k - 1) as nat).at_frame(time).advanced(time, m)
        }
    }
}

/// A phase is timed from its first frame: however many frames of it have
/// passed, the time that a further one reports is the time since the first.
pub proof fn a_phase_is_timed_from_its_first_frame(
    v: PickerView,
    times: Seq<u32>,
    motions: Seq<Motion>,
    k: nat,
    time: u32,
)
    requires
        !(v.anim_phase is Idle),
        v.phase_start is None,
        0 < k <= times.len(),
        k <= motions.len(),
        forall|i: int| 0 <= i < k ==> !(#[trigger] motions[i]).phase_done,
    ensures
        v.timing(times[0]).elapsed == 0,
        v.ran(times, motions, k).anim_phase == v.anim_phase,
        v.ran(times, motions, k).timing(time).phase == v.anim_phase,
        v.ran(times, motions, k).timing(time).elapsed == time.wrapping_sub(times[0]),
        time >= times[0] ==> v.ran(times, motions, k).timing(time).elapsed == time - times[0],
    decreases k,
{
    let before = v.ran(times, motions, (k - 1) as nat);
    assert(!motions[k - 1].phase_done);
    if k > 1 {
        a_phase_is_timed_from_its_first_frame(v, times, motions, (k - 1) as nat, time);
        phases_keep_their_start(v, times, motions, (k - 1) as nat);
    } else {
        assert(before == v);
    }
}

proof fn phases_keep_their_start(v: PickerView, times: Seq<u32>, motions: Seq<Motion>, k: nat)
    requires
        !(v.anim_phase is Idle),
        v.phase_start is None,
        0 < k <= times.len(),
        k <= motions.len(),
        forall|i: int| 0 <= i < k ==> !(#[trigger] motions[i]).phase_done,
    ensures
        v.ran(times, motions, k).anim_phase == v.anim_phase,
        v.ran(times, motions, k).phase_start == Some(times[0]),
    decreases k,
{
    assert(!motions[k - 1].phase_done);
    if k > 1 {
        phases_keep_their_start(v, times, motions, (k - 1) as nat);
    } else {
        assert(v.ran(times, motions, 0) == v);
    }
}

/// Frames measure the time between them.
pub proof fn frames_measure_their_gap(
    v: PickerView,
    times: Seq<u32>,
    motions: Seq<Motion>,
    k: nat,
    time: u32,
)
    requires
        k <= times.len(),
        k <= motions.len(),
    ensures
        k > 0 ==> v.ran(times, motions, k).timing(time).since_last == Some(
            time.wrapping_sub(times[k - 1]),
        ),
        k == 0 && v.last_frame_time is None ==> v.timing(time).since_last is None,
        v.timing(time).phase == v.anim_phase,
        v.anim_phase is Idle ==> v.timing(time).elapsed == 0,
{
}

/// A frame's beginning changes the clock and nothing else.
pub proof fn a_frame_begins_with_the_clock(v: PickerView, time: u32)
    ensures
        v.at_frame(time).last_frame_time == Some(time),
        v.anim_phase is Idle ==> v.at_frame(time).phase_start == v.phase_start,
        !(v.anim_phase is Idle) && v.phase_start is None ==> v.at_frame(time).phase_start == Some(
            time,
        ),
        !(v.anim_phase is Idle) && v.phase_start is Some ==> v.at_frame(time).phase_start
            == v.phase_start,
        v.at_frame(time) == (PickerView {
            last_frame_time: Some(time),
            phase_start: v.at_frame(time).phase_start,
            ..v
        }),
{
}

proof fn runs_keep_the_choice(v: PickerView, times: Seq<u32>, motions: Seq<Motion>, k: nat)
    requires
        v.anim_phase is Closing,
        k <= times.len(),
        k <= motions.len(),
        forall|i: int| 0 <= i < k ==> !(#[trigger] motions[i]).phase_done,
    ensures
        v.ran(times, motions, k).anim_phase is Closing,
        v.ran(times, motions, k).pending_result == v.pending_result,
        v.ran(times, motions, k).result == v.result,
        v.ran(times, motions, k).entries == v.entries,
        v.ran(times, motions, k).filtered == v.filtered,
    decreases k,
{
    if k > 0 {
        assert(!motions[k - 1].phase_done);
        runs_keep_the_choice(v, times, motions, (k - 1) as nat);
    }
}

/// A choice is returned once the closing animation has finished and not
/// before: it waits through every frame that does not end the phase, and
/// stands after the first one that does.
pub proof fn a_choice_is_returned_after_closing(
    v: PickerView,
    s: Selection,
    times: Seq<u32>,
    motions: Seq<Motion>,
    k: nat,
)
    requires
        !(v.anim_phase is Closing),
        k < times.len(),
        k < motions.len(),
        forall|i: int| 0 <= i < k ==> !(#[trigger] motions[i]).phase_done,
        motions[k as int].phase_done,
    ensures
        v.closing_with(s).phase_start is None,
        v.closing_with(s).ran(times, motions, k).result == v.result,
        v.closing_with(s).ran(times, motions, k + 1).result == Some(s),
        s matches Selection::Picked(i) ==> v.closing_with(s).ran(
            times,
            motions,
            k + 1,
        ).chosen_name() == Some(v.entries[i as int].filename@),
        s is Cancelled ==> v.closing_with(s).ran(times, motions, k + 1).chosen_name() is None,
{
    runs_keep_the_choice(v.closing_with(s), times, motions, k);
}

/// Enter returns the wallpaper under the cursor: it is among those that are
/// shown, and once closing has finished its name is the picker's answer.
pub proof fn enter_returns_the_selected_wallpaper(
    v: PickerView,
    time: u32,
    font: Font,
    times: Seq<u32>,
    motions: Seq<Motion>,
    k: nat,
)
    requires
        v.wf(),
        !(v.anim_phase is Closing),
        v.kbd_index < v.filtered.len(),
        k < times.len(),
        k < motions.len(),
        forall|i: int| 0 <= i < k ==> !(#[trigger] motions[i]).phase_done,
        motions[k as int].phase_done,
    ensures
        v.pressed(Key::Enter, time, None, font).anim_phase is Closing,
        v.pressed(Key::Enter, time, None, font).phase_start is None,
        v.pressed(Key::Enter, time, None, font).ran(times, motions, k + 1).chosen_name() == Some(
            v.entries[v.filtered[v.kbd_index as int] as int].filename@,
        ),
{
    runs_keep_the_choice(v.pressed(Key::Enter, time, None, font), times, motions, k);
}

/// An animation ends with its phase: opening comes to rest, rest stays rest,
/// and closing leaves a result, which is to cancel where nothing was asked for.
pub proof fn phases_end_when_they_are_done(v: PickerView)
    ensures
        v.anim_phase is Opening ==> v.phased(true).anim_phase is Idle && v.phased(
            false,
        ).anim_phase is Opening,
        v.anim_phase is Idle ==> v.phased(true) == v && v.phased(false) == v,
        v.anim_phase is Closing ==> {
            &&& v.phased(true).anim_phase is Closing
            &&& v.phased(true).pending_result is None
            &&& v.phased(true).result == (if v.pending_result is None {
                Some(Selection::Cancelled)
            } else {
                v.pending_result
            })
            &&& v.phased(false).pending_result == v.pending_result
            &&& v.phased(false).result == v.result
        },
        !(v.anim_phase is Idle) ==> v.phased(true).needs_redraw && v.phased(false).needs_redraw,
        !(v.anim_phase is Closing) ==> v.phased(true).result == v.result,
        forall|done: bool|
            #[trigger] v.phased(done) == (PickerView {
                needs_redraw: v.phased(done).needs_redraw,
                anim_phase: v.phased(done).anim_phase,
                result: v.phased(done).result,
                pending_result: v.phased(done).pending_result,
                ..v
            }),
{
}

/// What still moves is not settled, and has to be drawn; nothing else changes.
pub proof fn motion_is_noted(v: PickerView, m: Motion)
    ensures
        v.moved(m).scroll_settled == !m.scroll_moving,
        v.moved(m).highlight_settled == !m.highlight_moving,
        v.moved(m).needs_redraw == (v.needs_redraw || m.scroll_moving || m.highlight_moving),
        v.moved(m) == (PickerView {
            scroll_settled: v.moved(m).scroll_settled,
            highlight_settled: v.moved(m).highlight_settled,
            needs_redraw: v.moved(m).needs_redraw,
            ..v
        }),
{
}

/// A picker draws exactly when no frame is in flight and something asks for
/// one: a change, a value that still moves, momentum, a held key, or opening
/// or closing.
pub proof fn a_frame_is_drawn_when_something_asks_for_it(v: PickerView, momentum: bool)
    ensures
        v.frame_pending ==> !v.draws(momentum) && v.kicked(momentum) == v,
        !v.frame_pending && v.needs_redraw ==> v.draws(momentum),
        !v.frame_pending && momentum ==> v.draws(momentum),
        !v.frame_pending && v.held_key is Some ==> v.draws(momentum),
        !v.frame_pending && !v.scroll_settled ==> v.draws(momentum),
        !v.frame_pending && !v.highlight_settled ==> v.draws(momentum),
        !v.frame_pending && (v.anim_phase is Opening || v.anim_phase is Closing) ==> v.draws(
            momentum,
        ),
        !v.needs_redraw && !momentum && v.held_key is None && v.scroll_settled
            && v.highlight_settled && v.anim_phase is Idle ==> !v.draws(momentum) && v.kicked(
            momentum,
        ) == v,
        v.animates(momentum) == (PickerView { frame_pending: false, needs_redraw: false, ..v }).draws(
            momentum,
        ),
        v.draws(momentum) ==> v.kicked(momentum) == (PickerView {
            needs_redraw: false,
            frame_pending: true,
            ..v
        }),
        v.landed() == (PickerView { frame_pending: false, ..v }),
{
}

/// Losing the surface cancels, whatever was chosen; configuring it asks for a
/// drawing; and neither changes anything else.
pub proof fn the_surface_comes_and_goes(v: PickerView)
    ensures
        v.lost().result == Some(Selection::Cancelled),
        v.lost().chosen_name() is None,
        v.lost() == (PickerView { result: v.lost().result, ..v }),
        v.ready().configured && v.ready().needs_redraw,
        v.ready() == (PickerView { configured: true, needs_redraw: true, ..v }),
{
}

/// A picker opens with every entry shown, in order, the first one selected, an
/// empty search, nothing chosen, and its animation yet to start.
pub proof fn a_picker_opens_with_everything(theme: ThemeView, entries: Seq<Entry>)
    requires
        entries.len() > 0,
    ensures
        ({
            let v = opened(theme, entries);
            &&& v.theme == theme
            &&& v.entries == entries
            &&& v.search.len() == 0
            &&& v.shown() == entries.len()
            &&& forall|i: int| 0 <= i < entries.len() ==> #[trigger] v.filtered[i] == i as usize
            &&& v.selected() == 0
            &&& v.kbd_index == 0
            &&& v.hover is None
            &&& v.held_key is None
            &&& v.anim_phase is Opening
            &&& v.phase_start is None
            &&& v.last_frame_time is None
            &&& v.last_axis_time is None
            &&& v.result is None
            &&& v.pending_result is None
            &&& v.needs_redraw
            &&& !v.frame_pending
            &&& !v.configured
            &&& v.scroll_settled
            &&& v.highlight_settled
        }),
{
}

// ---------------------------------------------------------------- the ribbon

/// Cells stand side by side: the first one a padding in, and each a gap behind
/// the one before it.
pub proof fn cells_stand_side_by_side(t: ThemeView, pos: int)
    ensures
        cell_x_of(t, 0) == t.padding,
        cell_x_of(t, pos + 1) == cell_x_of(t, pos) + t.icon_size + t.spacing,
{
    assert((pos + 1) * (t.icon_size + t.spacing) == pos * (t.icon_size + t.spacing) + t.icon_size
        + t.spacing) by (nonlinear_arith);
    assert(0 * (t.icon_size + t.spacing) == 0) by (nonlinear_arith);
}

/// The ribbon scrolls until its last cell is a padding away from the window's
/// right edge, and not at all where everything fits.
pub proof fn the_ribbon_scrolls_to_its_end(t: ThemeView, n: int)
    requires
        t.wf(),
        n > 0,
    ensures
        ({
            let end = cell_x_of(t, n - 1) + t.icon_size + t.padding;
            &&& end > t.window_width ==> end - max_scroll_of(t, n) == t.window_width
            &&& end <= t.window_width ==> max_scroll_of(t, n) == 0
            &&& max_scroll_of(t, n) >= 0
        }),
{
    assert((n - 1) * (t.icon_size + t.spacing) == n * t.icon_size - t.icon_size + (n - 1)
        * t.spacing) by (nonlinear_arith);
}

/// A scroll target is held to the range from nothing to the ribbon's end: one
/// within it is kept, and one beyond it is brought to the end it lies beyond,
/// which stops the momentum.
pub proof fn scrolling_is_held_to_the_ribbon(t: ThemeView, n: int, target: int, at: Position)
    requires
        lays_out(t, n),
        n >= 0,
    ensures
        0 <= target <= max_scroll_of(t, n) ==> scroll_to(t, n, target) == (ScrollMove {
            target: target as i32,
            stop: false,
        }),
        target < 0 ==> scroll_to(t, n, target) == (ScrollMove { target: 0, stop: true }),
        target > max_scroll_of(t, n) ==> scroll_to(t, n, target).target == max_scroll_of(t, n)
            && scroll_to(t, n, target).stop,
        at.whole < 0 ==> scroll_bound(t, n, at) == Some(0i32),
        at.whole >= 0 && (at.whole > max_scroll_of(t, n) || (at.whole == max_scroll_of(t, n)
            && !at.exact)) ==> scroll_bound(t, n, at) is Some && scroll_bound(t, n, at)->0
            == max_scroll_of(t, n),
        0 <= at.whole && (at.whole < max_scroll_of(t, n) || (at.whole == max_scroll_of(t, n)
            && at.exact)) ==> scroll_bound(t, n, at) is None,
{
    widths_grow(t, n, n);
}

/// A cell that is fully in view is left where it is; one that is cut off on
/// the left comes to stand a padding from the window's left edge, and one cut
/// off on the right a padding from its right edge, as far as the ribbon goes.
pub proof fn the_view_follows_the_selection(t: ThemeView, n: int, pos: int, target: Position)
    requires
        lays_out(t, n),
        0 <= pos < n,
    ensures
        ({
            let start = cell_x_of(t, pos);
            let end = start + t.icon_size;
            let cut_left = target.whole > start || (target.whole == start && !target.exact);
            let cut_right = !cut_left && target.whole + t.window_width < end;
            let m = into_view(t, n, pos, target);
            &&& m is None <==> !cut_left && !cut_right
            &&& cut_left ==> m->0.target == start - t.padding || (m->0.target == max_scroll_of(t, n)
                && max_scroll_of(t, n) < start - t.padding)
            &&& cut_right ==> m->0.target == end + t.padding - t.window_width || (m->0.target == 0
                && end + t.padding < t.window_width)
            &&& cut_left || cut_right ==> 0 <= m->0.target <= max_scroll_of(t, n)
        }),
{
    cells_lie_in_the_ribbon(t, pos, n);
    widths_grow(t, n, n);
}

/// A point hits the cell whose square it lies in, and a point in none hits
/// none. A square's left edge belongs to it, and so do its top and bottom
/// ones.
pub proof fn points_hit_the_square_they_lie_in(t: ThemeView, n: int, x: Position, y: Position)
    requires
        t.wf(),
        0 <= n <= usize::MAX,
    ensures
        forall|pos: int|
            0 <= pos < n ==> (cell_hit(t, n, x, y) == Some(pos as usize) <==> {
                &&& #[trigger] cell_x_of(t, pos) <= x.whole + t.padding < cell_x_of(t, pos)
                    + t.icon_size
                &&& t.padding <= y.whole
                &&& y.whole < t.padding + t.icon_size || (y.whole == t.padding + t.icon_size
                    && y.exact)
            }),
        cell_hit(t, n, x, y) matches Some(p) ==> p < n,
{
    assert forall|pos: int| 0 <= pos < n implies (cell_hit(t, n, x, y) == Some(pos as usize) <==> {
        &&& #[trigger] cell_x_of(t, pos) <= x.whole + t.padding < cell_x_of(t, pos) + t.icon_size
        &&& t.padding <= y.whole
        &&& y.whole < t.padding + t.icon_size || (y.whole == t.padding + t.icon_size && y.exact)
    }) by {
        cells_are_hit_where_they_are_drawn(t, n, pos, x, y);
    }
    if x.whole >= 0 {
        let idx = x.whole as int / stride_of(t);
        assert(idx >= 0) by (nonlinear_arith)
            requires
                x.whole >= 0,
                stride_of(t) >= 1,
                idx == x.whole as int / stride_of(t),
        ;
    }
}

impl PickerView {
    /// Every cell that is shown ends within what can be counted.
    pub proof fn cells_can_be_counted(self, pos: int)
        requires
            self.wf(),
            0 <= pos < self.shown(),
        ensures
            0 <= cell_x_of(self.theme, pos),
            cell_x_of(self.theme, pos) + self.theme.icon_size <= i32::MAX,
    {
        search_lists_exactly_the_matches(self.entries, self.search, self.entries.len());
        widths_grow(self.theme, self.shown(), self.entries.len() as int);
        cells_lie_in_the_ribbon(self.theme, pos, self.shown());
    }
}

/// The ring belongs around the selected cell.
pub proof fn the_ring_belongs_to_the_selection(v: PickerView)
    requires
        v.wf(),
    ensures
        v.shown() == 0 ==> v.ring_target() is None,
        v.shown() > 0 ==> v.ring_target() is Some && v.ring_target()->0 == cell_x_of(
            v.theme,
            v.selected() as int,
        ),
        v.hover is Some ==> v.selected() == v.hover->0,
        v.hover is None ==> v.selected() == v.kbd_index,
{
    search_lists_exactly_the_matches(v.entries, v.search, v.entries.len());
    if v.shown() > 0 {
        widths_grow(v.theme, v.shown(), v.entries.len() as int);
        cells_lie_in_the_ribbon(v.theme, v.selected() as int, v.shown());
    }
}

// ---------------------------------------------------------------- searching

/// Whether a text occurs in another, written out.
proof fn infix_written_out(s: Seq<char>, p: Seq<char>)
    ensures
        has_infix(s, p) <==> exists|i: int|
            0 <= i && i + p.len() <= s.len() && #[trigger] s.subrange(i, i + p.len()) == p,
{
}

/// A search shows an entry exactly when its text, in lower case, occurs in the
/// entry's filename, in lower case.
pub proof fn a_search_shows_what_contains_it(entries: Seq<Entry>, search: Seq<char>, e: int)
    requires
        entries.len() <= usize::MAX,
        0 <= e < entries.len(),
        search.len() > 0,
        lowercased(search).len() > 0,
    ensures
        matching(entries, search, entries.len()).contains(e as usize) <==> exists|i: int|
            {
                &&& 0 <= i
                &&& i + lowercased(search).len() <= lowercased(entries[e].filename@).len()
                &&& #[trigger] lowercased(entries[e].filename@).subrange(
                    i,
                    i + lowercased(search).len(),
                ) == lowercased(search)
            },
{
    let list = matching(entries, search, entries.len());
    search_lists_exactly_the_matches(entries, search, entries.len());
    infix_written_out(lowercased(entries[e].filename@), lowercased(search));
    if list.contains(e as usize) {
        let i = choose|i: int| 0 <= i < list.len() && list[i] == e as usize;
        assert(list[i] < entries.len());
    }
}

/// Where nothing of a search is left in lower case, it shows everything.
pub proof fn a_search_for_nothing_shows_everything(
    entries: Seq<Entry>,
    search: Seq<char>,
    e: int,
)
    requires
        entries.len() <= usize::MAX,
        0 <= e < entries.len(),
        search.len() == 0 || lowercased(search).len() == 0,
    ensures
        matching(entries, search, entries.len()).contains(e as usize),
{
    search_lists_exactly_the_matches(entries, search, entries.len());
    assert(found_by(entries[e].filename@, search));
}

/// What a picker shows is what its search finds, at every moment: the list
/// holds the entries whose filenames contain the search, each once and in
/// order.
pub proof fn the_list_is_what_the_search_finds(v: PickerView, e: int)
    requires
        v.wf(),
        0 <= e < v.entries.len(),
    ensures
        v.search.len() > 0 && lowercased(v.search).len() > 0 ==> (v.filtered.contains(e as usize)
            <==> exists|i: int|
            {
                &&& 0 <= i
                &&& i + lowercased(v.search).len() <= lowercased(v.entries[e].filename@).len()
                &&& #[trigger] lowercased(v.entries[e].filename@).subrange(
                    i,
                    i + lowercased(v.search).len(),
                ) == lowercased(v.search)
            }),
        v.search.len() == 0 ==> v.filtered.contains(e as usize),
        forall|i: int, j: int|
            0 <= i < j < v.filtered.len() ==> #[trigger] v.filtered[i] < #[trigger] v.filtered[j]
                < v.entries.len(),
{
    search_lists_exactly_the_matches(v.entries, v.search, v.entries.len());
    if v.search.len() > 0 && lowercased(v.search).len() > 0 {
        a_search_shows_what_contains_it(v.entries, v.search, e);
    } else {
        a_search_for_nothing_shows_everything(v.entries, v.search, e);
    }
}

/// What can be typed of a text are those of its characters that the font can
/// draw, in their order.
pub proof fn only_drawable_characters_are_typed(font: Font, s: Seq<char>)
    ensures
        typable(font, s) == s.filter(|c: char| font.rows(c) is Some),
    decreases s.len(),
{
    reveal(Seq::filter);
    if s.len() > 0 {
        only_drawable_characters_are_typed(font, s.drop_last());
    }
}

/// A changed search selects the first thing that it finds, forgets the
/// pointer, asks for a drawing, and changes nothing else.
pub proof fn a_new_search_starts_at_the_front(v: PickerView, search: Seq<char>)
    requires
        v.wf(),
    ensures
        v.searched(search).search == search,
        v.searched(search).selected() == 0,
        v.searched(search).needs_redraw,
        v.searched(search) == (PickerView {
            search,
            filtered: v.searched(search).filtered,
            kbd_index: 0,
            hover: None,
            needs_redraw: true,
            ..v
        }),
        v.searched(v.search).filtered == v.filtered,
{
}

// ---------------------------------------------------------------- keys

/// Typing extends the search by what can be drawn, Backspace takes its last
/// character away, Escape all of it, and each of these scrolls back to the
/// front; keys that have nothing to do leave everything as it is. Only typing
/// looks at the text that comes with a key.
pub proof fn keys_edit_the_search(
    v: PickerView,
    time: u32,
    text: Seq<char>,
    o: Option<Seq<char>>,
    font: Font,
    at: Position,
)
    requires
        !(v.anim_phase is Closing),
    ensures
        ({
            let typed = text.filter(|c: char| font.rows(c) is Some);
            let front = Some(ScrollMove { target: 0, stop: false });
            &&& typed.len() > 0 ==> {
                &&& v.pressed(Key::Other, time, Some(text), font).search == v.search + typed
                &&& v.pressed(Key::Other, time, Some(text), font) == v.searched(v.search + typed)
                &&& v.pressed_move(Key::Other, Some(text), font, at) == front
            }
            &&& typed.len() == 0 ==> {
                &&& v.pressed(Key::Other, time, Some(text), font) == v.redrawn()
                &&& v.pressed_move(Key::Other, Some(text), font, at) is None
            }
            &&& v.pressed(Key::Other, time, None, font) == v.redrawn()
            &&& v.pressed_move(Key::Other, None, font, at) is None
            &&& v.search.len() > 0 ==> {
                &&& v.pressed(Key::Backspace, time, o, font).search == v.search.take(
                    v.search.len() - 1,
                )
                &&& v.pressed(Key::Backspace, time, o, font) == v.searched(
                    v.search.take(v.search.len() - 1),
                )
                &&& v.pressed(Key::Escape, time, o, font).search.len() == 0
                &&& v.pressed(Key::Escape, time, o, font) == v.searched(Seq::empty())
                &&& v.pressed(Key::Escape, time, o, font).anim_phase == v.anim_phase
                &&& v.pressed_move(Key::Backspace, o, font, at) == front
                &&& v.pressed_move(Key::Escape, o, font, at) == front
            }
            &&& v.search.len() == 0 ==> {
                &&& v.pressed(Key::Backspace, time, o, font) == v.redrawn()
                &&& v.pressed(Key::Escape, time, o, font) == v.closing_with(
                    Selection::Cancelled,
                ).redrawn()
                &&& v.pressed(Key::Escape, time, o, font).pending_result == Some(
                    Selection::Cancelled,
                )
                &&& v.pressed(Key::Escape, time, o, font).anim_phase is Closing
                &&& v.pressed_move(Key::Backspace, o, font, at) is None
                &&& v.pressed_move(Key::Escape, o, font, at) is None
            }
        }),
        v.redrawn() == (PickerView { needs_redraw: true, ..v }),
{
    only_drawable_characters_are_typed(font, text);
    if v.search.len() > 0 {
        assert(v.search.take(v.search.len() - 1) =~= v.search.drop_last());
    }
}

/// Enter chooses the entry under the cursor, and nothing where the list is
/// empty; it scrolls nowhere.
pub proof fn enter_chooses_what_is_under_the_cursor(
    v: PickerView,
    time: u32,
    o: Option<Seq<char>>,
    font: Font,
    at: Position,
)
    requires
        !(v.anim_phase is Closing),
    ensures
        v.kbd_index < v.filtered.len() ==> v.pressed(Key::Enter, time, o, font) == v.closing_with(
            Selection::Picked(v.filtered[v.kbd_index as int]),
        ).redrawn(),
        v.kbd_index >= v.filtered.len() ==> v.pressed(Key::Enter, time, o, font) == v.redrawn(),
        v.pressed_move(Key::Enter, o, font, at) is None,
{
}

/// An arrow takes its step and is held down from then on, whatever is shown.
pub proof fn an_arrow_is_held_down(
    v: PickerView,
    time: u32,
    o: Option<Seq<char>>,
    font: Font,
    at: Position,
)
    requires
        !(v.anim_phase is Closing),
    ensures
        v.pressed(Key::Right, time, o, font) == (PickerView {
            held_key: Some(HeldKey { dir: 1, pressed_at: time, last_repeat: time }),
            needs_redraw: true,
            ..v.stepped(1)
        }),
        v.pressed(Key::Left, time, o, font) == (PickerView {
            held_key: Some(HeldKey { dir: (-1) as i32, pressed_at: time, last_repeat: time }),
            needs_redraw: true,
            ..v.stepped(-1)
        }),
        v.pressed_move(Key::Right, o, font, at) == v.step_move(1, at),
        v.pressed_move(Key::Left, o, font, at) == v.step_move(-1, at),
        v.shown() == 0 ==> v.stepped(1) == v && v.stepped(-1) == v && v.step_move(1, at) is None
            && v.step_move(-1, at) is None,
{
}

/// An edited search shows what the new text finds.
pub proof fn an_edited_search_is_applied(v: PickerView, key: Key, time: u32, text: Seq<char>, font: Font)
    requires
        v.wf(),
        !(v.anim_phase is Closing),
    ensures
        ({
            let w = v.pressed(key, time, Some(text), font);
            w.filtered == matching(v.entries, w.search, v.entries.len()) && w.entries == v.entries
        }),
{
}

/// While closing, keys and the pointer do nothing.
pub proof fn nothing_interrupts_closing(
    v: PickerView,
    key: Key,
    time: u32,
    text: Option<Seq<char>>,
    font: Font,
    at: Position,
    steps: Seq<PointerStep>,
)
    requires
        v.anim_phase is Closing,
    ensures
        v.pressed(key, time, text, font) == v,
        v.pressed_move(key, text, font, at) is None,
        v.pointer_read(steps) == v,
        v.pointer_axes(steps).len() == steps.len(),
        forall|k: int| 0 <= k < steps.len() ==> (#[trigger] v.pointer_axes(steps)[k]) is None,
{
}

/// The arrows select the neighbor, looping past either end, hold their key
/// down, and bring the neighbor into view.
pub proof fn the_arrows_select_the_neighbor(
    v: PickerView,
    time: u32,
    o: Option<Seq<char>>,
    font: Font,
    at: Position,
)
    requires
        v.wf(),
        !(v.anim_phase is Closing),
        v.shown() > 1,
    ensures
        ({
            let n = v.shown();
            let right = v.pressed(Key::Right, time, o, font);
            let left = v.pressed(Key::Left, time, o, font);
            let next = if v.kbd_index == n - 1 {
                0
            } else {
                v.kbd_index + 1
            };
            let last = if v.kbd_index == 0 {
                n - 1
            } else {
                v.kbd_index - 1
            };
            &&& right.kbd_index == next
            &&& left.kbd_index == last
            &&& right.selected() == next
            &&& left.selected() == last
            &&& right.held_key == Some(HeldKey { dir: 1, pressed_at: time, last_repeat: time })
            &&& left.held_key == Some(HeldKey { dir: (-1) as i32, pressed_at: time, last_repeat: time })
            &&& right == (PickerView {
                kbd_index: right.kbd_index,
                hover: None,
                held_key: right.held_key,
                needs_redraw: true,
                ..v
            })
            &&& left == (PickerView {
                kbd_index: left.kbd_index,
                hover: None,
                held_key: left.held_key,
                needs_redraw: true,
                ..v
            })
            &&& v.pressed_move(Key::Right, o, font, at) == into_view(v.theme, n, next, at)
            &&& v.pressed_move(Key::Left, o, font, at) == into_view(v.theme, n, last, at)
        }),
{
    search_lists_exactly_the_matches(v.entries, v.search, v.entries.len());
    steps_loop_past_either_end(v.kbd_index as int, v.shown());
}

/// Home and End select the ends of the list and bring them into view, unless
/// the cursor is there already.
pub proof fn home_and_end_select_the_ends(
    v: PickerView,
    time: u32,
    o: Option<Seq<char>>,
    font: Font,
    at: Position,
)
    requires
        v.wf(),
        !(v.anim_phase is Closing),
        v.shown() > 0,
    ensures
        ({
            let n = v.shown();
            let home = v.pressed(Key::Home, time, o, font);
            let end = v.pressed(Key::End, time, o, font);
            &&& home.kbd_index == 0
            &&& end.kbd_index == n - 1
            &&& v.kbd_index != 0 ==> home.hover is None && v.pressed_move(Key::Home, o, font, at)
                == into_view(v.theme, n, 0, at)
            &&& v.kbd_index != n - 1 ==> end.hover is None && v.pressed_move(
                Key::End,
                o,
                font,
                at,
            ) == into_view(v.theme, n, n - 1, at)
            &&& v.kbd_index == 0 ==> home == v.redrawn()
            &&& v.kbd_index == n - 1 ==> end == v.redrawn()
            &&& home.held_key == v.held_key && end.held_key == v.held_key
        }),
{
    search_lists_exactly_the_matches(v.entries, v.search, v.entries.len());
    widths_grow(v.theme, v.shown(), v.entries.len() as int);
    widths_grow(v.theme, v.shown(), v.shown());
}

/// With nothing shown there is nothing to select: Enter and the arrows choose
/// and move nothing.
pub proof fn an_empty_list_has_no_selection(
    v: PickerView,
    time: u32,
    o: Option<Seq<char>>,
    font: Font,
    at: Position,
)
    requires
        v.wf(),
        !(v.anim_phase is Closing),
        v.shown() == 0,
    ensures
        v.pressed(Key::Enter, time, o, font) == v.redrawn(),
        v.pressed(Key::Left, time, o, font).kbd_index == v.kbd_index,
        v.pressed(Key::Right, time, o, font).kbd_index == v.kbd_index,
        v.pressed(Key::Home, time, o, font) == v.redrawn(),
        v.pressed(Key::End, time, o, font) == v.redrawn(),
        v.pressed_move(Key::Left, o, font, at) is None,
        v.pressed_move(Key::Right, o, font, at) is None,
{
}

/// Held down, an arrow steps again when its delay of 400 milliseconds and its
/// interval of 40 have passed, and not before; letting go of it, or of the
/// keyboard, ends that.
pub proof fn a_held_arrow_steps_again(v: PickerView, time: u32, at: Position)
    requires
        v.wf(),
        v.held_key is Some,
    ensures
        ({
            let k = v.held_key->0;
            let due = time.wrapping_sub(k.pressed_at) >= 400 && time.wrapping_sub(k.last_repeat)
                >= 40;
            let n = v.shown();
            let w = v.repeated(time);
            &&& v.repeats(time) == due
            &&& !due ==> w == v && v.repeat_move(time, at) is None
            &&& due ==> w.held_key == Some(HeldKey { last_repeat: time, ..k }) && w.needs_redraw
            &&& due && n > 1 && k.dir == 1 ==> {
                &&& w.kbd_index == (if v.kbd_index == n - 1 {
                    0
                } else {
                    v.kbd_index + 1
                })
                &&& w.hover is None
                &&& v.repeat_move(time, at) == into_view(v.theme, n, w.kbd_index as int, at)
            }
            &&& due && n > 1 && k.dir == -1 ==> {
                &&& w.kbd_index == (if v.kbd_index == 0 {
                    n - 1
                } else {
                    v.kbd_index - 1
                })
                &&& w.hover is None
                &&& v.repeat_move(time, at) == into_view(v.theme, n, w.kbd_index as int, at)
            }
            &&& w == (PickerView {
                held_key: w.held_key,
                kbd_index: w.kbd_index,
                hover: w.hover,
                needs_redraw: w.needs_redraw,
                ..v
            })
        }),
        v.released(Key::Left) == (PickerView { held_key: None, ..v }),
        v.released(Key::Right) == (PickerView { held_key: None, ..v }),
        v.released(Key::Enter) == v && v.released(Key::Escape) == v && v.released(Key::Backspace)
            == v && v.released(Key::Home) == v && v.released(Key::End) == v && v.released(
            Key::Other,
        ) == v,
        v.unheld() == (PickerView { held_key: None, ..v }),
{
    search_lists_exactly_the_matches(v.entries, v.search, v.entries.len());
    if v.shown() > 0 {
        steps_loop_past_either_end(v.kbd_index as int, v.shown());
    }
}

// ---------------------------------------------------------------- the pointer

/// The pointer selects the cell it is over, and the keyboard goes along; over
/// none, the keyboard's own cell is selected.
pub proof fn the_pointer_selects_what_it_is_over(v: PickerView, pos: int, x: Position, y: Position)
    requires
        v.wf(),
        0 <= pos < v.shown(),
        lies_over(v.theme, pos, x, y),
    ensures
        ({
            let w = v.pointer_stepped(PointerStep::Moved { x, y });
            &&& w.selected() == pos
            &&& w.hover == Some(pos as usize)
            &&& v.hover != Some(pos as usize) ==> w.kbd_index == pos && w.needs_redraw
            &&& v.hover == Some(pos as usize) ==> w == v
            &&& w == (PickerView {
                hover: w.hover,
                kbd_index: w.kbd_index,
                needs_redraw: w.needs_redraw,
                ..v
            })
        }),
{
    search_lists_exactly_the_matches(v.entries, v.search, v.entries.len());
    points_hit_the_square_they_lie_in(v.theme, v.shown(), x, y);
    cells_are_hit_where_they_are_drawn(v.theme, v.shown(), pos, x, y);
}

/// A point lies over the square of a cell.
pub open spec fn lies_over(t: ThemeView, pos: int, x: Position, y: Position) -> bool {
    &&& t.padding + pos * (t.icon_size + t.spacing) <= x.whole + t.padding
    &&& x.whole + t.padding < t.padding + pos * (t.icon_size + t.spacing) + t.icon_size
    &&& t.padding <= y.whole < t.padding + t.icon_size
}

/// Over no cell, the pointer selects nothing, and a click does nothing.
pub proof fn the_gaps_select_nothing(v: PickerView, button: u32, x: Position, y: Position)
    requires
        v.wf(),
        forall|pos: int| 0 <= pos < v.shown() ==> !(#[trigger] cell_x_of(v.theme, pos) <= x.whole
            + v.theme.padding < cell_x_of(v.theme, pos) + v.theme.icon_size),
    ensures
        v.pointer_stepped(PointerStep::Moved { x, y }).hover is None,
        v.pointer_stepped(PointerStep::Moved { x, y }).selected() == v.kbd_index,
        v.pointer_stepped(PointerStep::Moved { x, y }).kbd_index == v.kbd_index,
        v.pointer_stepped(PointerStep::Pressed { button, x, y }) == v,
{
    search_lists_exactly_the_matches(v.entries, v.search, v.entries.len());
    points_hit_the_square_they_lie_in(v.theme, v.shown(), x, y);
    if let Some(p) = cell_hit(v.theme, v.shown(), x, y) {
        cells_are_hit_where_they_are_drawn(v.theme, v.shown(), p as int, x, y);
        assert(cell_x_of(v.theme, p as int) <= x.whole + v.theme.padding);
    }
}

/// The left button picks the entry under the pointer and begins to close; any
/// other button does nothing.
pub proof fn a_click_picks_the_entry_under_it(
    v: PickerView,
    button: u32,
    pos: int,
    x: Position,
    y: Position,
)
    requires
        v.wf(),
        !(v.anim_phase is Closing),
        0 <= pos < v.shown(),
        lies_over(v.theme, pos, x, y),
    ensures
        ({
            let w = v.pointer_stepped(PointerStep::Pressed { button, x, y });
            &&& button == 0x110 ==> {
                &&& w.pending_result == Some(Selection::Picked(v.filtered[pos]))
                &&& w.anim_phase is Closing
                &&& w.phase_start is None
                &&& w.held_key is None
                &&& w.result == v.result
                &&& w == (PickerView {
                    pending_result: w.pending_result,
                    anim_phase: w.anim_phase,
                    phase_start: None,
                    held_key: None,
                    ..v
                })
            }
            &&& button != 0x110 ==> w == v
        }),
{
    search_lists_exactly_the_matches(v.entries, v.search, v.entries.len());
    points_hit_the_square_they_lie_in(v.theme, v.shown(), x, y);
    cells_are_hit_where_they_are_drawn(v.theme, v.shown(), pos, x, y);
}

/// Leaving takes the pointer's selection away; the keyboard's is left.
pub proof fn leaving_forgets_the_pointer(v: PickerView)
    ensures
        v.pointer_stepped(PointerStep::Left).hover is None,
        v.pointer_stepped(PointerStep::Left).selected() == v.kbd_index,
        v.pointer_stepped(PointerStep::Left) == (PickerView { hover: None, needs_redraw: true, ..v }),
{
}

/// Scroll events measure the time since the one before, a millisecond at
/// least; after a pause of more than 150 a gesture is fresh. Nothing else about
/// the picker changes with them, and no other step touches their clock.
pub proof fn scrolling_measures_its_gap(v: PickerView, t1: u32, t2: u32, s: PointerStep)
    ensures
        v.last_axis_time is None ==> v.axis_step(t1) == (AxisStep { since_last: None, fresh: false }),
        ({
            let gap = t2.wrapping_sub(t1);
            let step = v.pointer_stepped(PointerStep::Scrolled { time: t1 }).axis_step(t2);
            &&& step.since_last == Some(
                if gap == 0 {
                    1u32
                } else {
                    gap
                },
            )
            &&& step.fresh == (gap > 150)
        }),
        v.pointer_stepped(PointerStep::Scrolled { time: t1 }) == (PickerView {
            last_axis_time: Some(t1),
            ..v
        }),
        !(s is Scrolled) ==> v.pointer_stepped(s).last_axis_time == v.last_axis_time,
{
}

/// A frame of pointer input is its steps, one after the other; what a scroll
/// step hands back goes by the steps before it.
pub proof fn a_frame_is_its_steps(v: PickerView, steps: Seq<PointerStep>, s: PointerStep)
    requires
        !(v.anim_phase is Closing),
    ensures
        v.pointer_read(Seq::empty()) == v,
        v.pointer_read(steps.push(s)) == v.pointer_read(steps).pointer_stepped(s),
        v.pointer_axes(steps.push(s)).take(steps.len() as int) == v.pointer_axes(steps),
        v.pointer_axes(steps.push(s)).last() == (match s {
            PointerStep::Scrolled { time } => Some(v.pointer_read(steps).axis_step(time)),
            _ => None,
        }),
{
    frames_share_their_beginning(v, steps, s, steps.len());
    let more = v.pointer_axes(steps.push(s)).take(steps.len() as int);
    assert forall|k: int| 0 <= k < steps.len() implies #[trigger] more[k] == v.pointer_axes(
        steps,
    )[k] by {
        frames_share_their_beginning(v, steps, s, k as nat);
    }
    assert(v.pointer_axes(steps.push(s)).take(steps.len() as int) =~= v.pointer_axes(steps));
}

proof fn frames_share_their_beginning(
    v: PickerView,
    steps: Seq<PointerStep>,
    s: PointerStep,
    k: nat,
)
    requires
        k <= steps.len(),
    ensures
        v.pointer_framed(steps.push(s), k) == v.pointer_framed(steps, k),
    decreases k,
{
    if k > 0 {
        frames_share_their_beginning(v, steps, s, (k - 1) as nat);
    }
}

/// A choice begins the closing: it is kept for its end, the phase has yet to
/// start, no key is held, and the rest is as it was.
pub proof fn a_choice_begins_the_closing(v: PickerView, s: Selection)
    requires
        !(v.anim_phase is Closing),
    ensures
        v.closing_with(s).anim_phase is Closing,
        v.closing_with(s).pending_result == Some(s),
        v.closing_with(s) == (PickerView {
            pending_result: Some(s),
            anim_phase: AnimPhase::Closing,
            phase_start: None,
            held_key: None,
            ..v
        }),
{
}

/// Wrapping a step into a list is the one position of the list that differs
/// from the step by whole turns.
pub proof fn wrapping_goes_by_whole_turns(index: int, delta: int, len: int)
    requires
        len > 0,
    ensures
        0 <= wrapped(index, delta, len) < len,
        exists|turns: int| #[trigger] (turns * len) == index + delta - wrapped(index, delta, len),
{
    let sum = index + delta;
    lemma_fundamental_div_mod(sum, len);
    assert(len * (sum / len) == (sum / len) * len) by (nonlinear_arith);
    assert((sum / len) * len == sum - wrapped(index, delta, len));
}

/// Moving the cursor by any step lands on the position that the step wraps to,
/// takes over from the pointer when that is another one, and brings it into
/// view; going to a position goes there, or to the end of the list that it lies
/// beyond.
pub proof fn the_cursor_goes_where_it_is_sent(v: PickerView, delta: int, index: int, at: Position)
    requires
        v.wf(),
        v.shown() > 0,
    ensures
        v.stepped(delta).kbd_index == (v.kbd_index + delta) % v.shown(),
        v.jumped(index).kbd_index == (if index < 0 {
            0
        } else if index >= v.shown() {
            v.shown() - 1
        } else {
            index
        }),
        v.stepped(delta).kbd_index != v.kbd_index ==> v.stepped(delta).hover is None && v.step_move(
            delta,
            at,
        ) == into_view(v.theme, v.shown(), v.stepped(delta).kbd_index as int, at),
        v.stepped(delta).kbd_index == v.kbd_index ==> v.stepped(delta) == v && v.step_move(
            delta,
            at,
        ) is None,
        v.jumped(index).kbd_index != v.kbd_index ==> v.jumped(index).hover is None && v.jump_move(
            index,
            at,
        ) == into_view(v.theme, v.shown(), v.jumped(index).kbd_index as int, at),
        v.jumped(index).kbd_index == v.kbd_index ==> v.jumped(index) == v && v.jump_move(
            index,
            at,
        ) is None,
        v.stepped(delta) == (PickerView {
            kbd_index: v.stepped(delta).kbd_index,
            hover: v.stepped(delta).hover,
            ..v
        }),
        v.jumped(index) == (PickerView {
            kbd_index: v.jumped(index).kbd_index,
            hover: v.jumped(index).hover,
            ..v
        }),
{
    search_lists_exactly_the_matches(v.entries, v.search, v.entries.len());
    a_step_back_undoes_a_step(v.kbd_index as int, delta, v.shown());
}

/// A layout can be worked with when its sizes make sense, its surface's bytes
/// can be counted, and its last cell and the padding behind it end within what
/// can be counted.
pub proof fn layouts_that_can_be_counted_fit(t: ThemeView, n: int)
    requires
        n > 0,
    ensures
        lays_out(t, n) <==> {
            let h = t.window_height + t.search_bar_gap + t.search_bar_height;
            &&& t.wf()
            &&& h <= i32::MAX
            &&& 4 * (t.window_width * h) <= i32::MAX
            &&& cell_x_of(t, n - 1) + t.icon_size + t.padding <= i32::MAX
        },
{
    assert((n - 1) * (t.icon_size + t.spacing) == n * t.icon_size - t.icon_size + (n - 1)
        * t.spacing) by (nonlinear_arith);
}

/// A frame's end notes what moves, steps a held key that is due, and ends the
/// phase that is over; the scrolling that it asks for is the held key's.
pub proof fn a_frame_does_its_three_things(v: PickerView, time: u32, m: Motion)
    requires
        v.wf(),
    ensures
        ({
            let w = v.advanced(time, m);
            let due = v.held_key is Some && time.wrapping_sub(v.held_key->0.pressed_at) >= 400
                && time.wrapping_sub(v.held_key->0.last_repeat) >= 40;
            &&& w.scroll_settled == !m.scroll_moving
            &&& w.highlight_settled == !m.highlight_moving
            &&& w.needs_redraw == (v.needs_redraw || m.scroll_moving || m.highlight_moving || due
                || !(v.anim_phase is Idle))
            &&& !due ==> w.kbd_index == v.kbd_index && w.hover == v.hover && w.held_key
                == v.held_key && v.advanced_move(time, m) is None
            &&& due && v.shown() > 0 ==> w.kbd_index == (v.kbd_index + v.held_key->0.dir)
                % v.shown()
            &&& due && v.shown() > 0 && w.kbd_index != v.kbd_index ==> v.advanced_move(time, m)
                == into_view(v.theme, v.shown(), w.kbd_index as int, m.scroll_target)
            &&& w.anim_phase == (if v.anim_phase is Opening && m.phase_done {
                AnimPhase::Idle
            } else {
                v.anim_phase
            })
            &&& v.anim_phase is Closing && m.phase_done ==> w.result == Some(
                if v.pending_result is Some {
                    v.pending_result->0
                } else {
                    Selection::Cancelled
                },
            )
            &&& !(v.anim_phase is Closing && m.phase_done) ==> w.result == v.result
                && w.pending_result == v.pending_result
            &&& w.entries == v.entries && w.filtered == v.filtered && w.search == v.search
                && w.theme == v.theme && w.phase_start == v.phase_start && w.last_frame_time
                == v.last_frame_time && w.last_axis_time == v.last_axis_time && w.frame_pending
                == v.frame_pending && w.configured == v.configured
        }),
{
    search_lists_exactly_the_matches(v.entries, v.search, v.entries.len());
    if v.shown() > 0 && v.held_key is Some {
        a_step_back_undoes_a_step(v.kbd_index as int, v.held_key->0.dir as int, v.shown());
    }
}

} // verus!
