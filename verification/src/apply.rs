//! Applying a picked wallpaper: first to the primary target, then to the
//! optional secondary one.
//!
//! The primary target is fatal on failure. The secondary one is only fatal
//! when it is marked as required, so that running a single daemon is a
//! supported setup rather than an error on every pick.
//!
//! Applying is a sequence of steps. Each step asks for something to be done
//! outside (a run of the backend, a look at the disk, a blurred copy), and
//! what came of it leads to the next.

use vstd::prelude::*;
use crate::config::{Config, ConfigView};
use crate::images::{full_path, names_have_parts, variant, variant_name};
use crate::paths::joined;
use crate::text::{concat2, concat3, copy_of, texts};
use crate::wallpaper::{apply_args, apply_arguments, outcome_view, ApplyError, ErrorView};

verus! {

/// Something the user gets to know.
pub enum Effect {
    /// A line on the error output.
    Say(String),
    /// A desktop notification.
    Notify { summary: String, body: String },
    /// The completion sound.
    Sound,
}

/// What an effect says, as mathematics.
pub enum EffectView {
    Say(Seq<char>),
    Notify { summary: Seq<char>, body: Seq<char> },
    Sound,
}

impl View for Effect {
    type V = EffectView;

    open spec fn view(&self) -> EffectView {
        match *self {
            Effect::Say(s) => EffectView::Say(s@),
            Effect::Notify { summary, body } => EffectView::Notify {
                summary: summary@,
                body: body@,
            },
            Effect::Sound => EffectView::Sound,
        }
    }
}

pub open spec fn effects_view(v: Seq<Effect>) -> Seq<EffectView> {
    Seq::new(v.len(), |i: int| v[i]@)
}

/// What to do next.
pub enum Step {
    /// Run the backend with these arguments, for the primary target.
    Primary { args: Vec<String> },
    /// Look whether this file is there.
    Probe { path: String },
    /// Get the blurred copy of `src`, cached under `name`.
    Blur { src: String, name: String },
    /// Run the backend with these arguments, for the secondary target.
    Secondary { args: Vec<String> },
    /// Tell the user, in this order, and exit with this code.
    Finish { effects: Vec<Effect>, code: i32 },
}

/// What a step says, as mathematics.
pub enum StepView {
    Primary { args: Seq<Seq<char>> },
    Probe { path: Seq<char> },
    Blur { src: Seq<char>, name: Seq<char> },
    Secondary { args: Seq<Seq<char>> },
    Finish { effects: Seq<EffectView>, code: i32 },
}

impl View for Step {
    type V = StepView;

    open spec fn view(&self) -> StepView {
        match *self {
            Step::Primary { args } => StepView::Primary { args: texts(args@) },
            Step::Probe { path } => StepView::Probe { path: path@ },
            Step::Blur { src, name } => StepView::Blur { src: src@, name: name@ },
            Step::Secondary { args } => StepView::Secondary { args: texts(args@) },
            Step::Finish { effects, code } => StepView::Finish {
                effects: effects_view(effects@),
                code,
            },
        }
    }
}

// ---------------------------------------------------------------- what happens

/// The variant of a wallpaper for the secondary target.
pub open spec fn secondary_name(c: ConfigView, selected: Seq<char>) -> Seq<char> {
    variant(selected, c.secondary.suffix)
}

/// Everything that had to succeed did.
pub open spec fn changed(applied: Seq<char>) -> Seq<EffectView> {
    seq![
        EffectView::Notify { summary: "Wallpaper changed"@, body: applied },
        EffectView::Sound,
    ]
}

/// A failure that ends the program.
pub open spec fn fatal(msg: Seq<char>) -> StepView {
    StepView::Finish {
        effects: seq![
            EffectView::Say("walldeck: "@ + msg),
            EffectView::Notify { summary: "walldeck: wallpaper failed"@, body: msg },
        ],
        code: 1,
    }
}

/// The secondary target failed.
pub open spec fn secondary_failed(c: ConfigView, selected: Seq<char>, msg: Seq<char>) -> StepView {
    if c.secondary.required {
        fatal(msg)
    } else {
        StepView::Finish {
            effects: seq![
                EffectView::Say("walldeck: "@ + msg),
                EffectView::Notify { summary: "walldeck: secondary target skipped"@, body: msg },
            ] + changed(selected),
            code: 0,
        }
    }
}

/// There is nothing to put on the secondary target. That is a normal, quiet
/// state, unless the target is declared mandatory.
pub open spec fn secondary_absent(c: ConfigView, selected: Seq<char>, msg: Seq<char>) -> StepView {
    if c.secondary.required {
        fatal(msg)
    } else {
        StepView::Finish {
            effects: seq![
                EffectView::Say("walldeck: "@ + msg + ", leaving that target unchanged"@),
            ] + changed(selected),
            code: 0,
        }
    }
}

pub open spec fn primary_message(selected: Seq<char>, e: ErrorView) -> Seq<char> {
    "Could not apply "@ + selected + ": "@ + e.message()
}

pub open spec fn blur_message(c: ConfigView, selected: Seq<char>, e: Seq<char>) -> Seq<char> {
    "could not auto-generate a blurred '"@ + c.secondary.suffix + "' variant for "@ + selected
        + ": "@ + e
}

pub open spec fn absent_message(c: ConfigView, selected: Seq<char>) -> Seq<char> {
    "no '"@ + c.secondary.suffix + "' variant for "@ + selected + " ("@ + secondary_name(
        c,
        selected,
    ) + " not found)"@
}

/// The secondary target's name in a message.
pub open spec fn place(namespace: Option<Seq<char>>) -> Seq<char> {
    match namespace {
        Some(ns) => "namespace '"@ + ns + "'"@,
        None => "the default namespace"@,
    }
}

pub open spec fn secondary_message(c: ConfigView, selected: Seq<char>, e: ErrorView) -> Seq<char> {
    "could not apply "@ + secondary_name(c, selected) + " to "@ + place(c.secondary.namespace)
        + ": "@ + e.message()
        + " (is a daemon running for it? set `secondary_enabled = false` if you only run one)"@
}

/// The first step: the primary target.
pub open spec fn first_step(c: ConfigView, selected: Seq<char>) -> StepView {
    StepView::Primary {
        args: apply_arguments(c.namespace, c.opts, joined(c.wallpaper_dir, selected)),
    }
}

/// After the primary target.
pub open spec fn primary_done(
    c: ConfigView,
    selected: Seq<char>,
    r: Result<(), ErrorView>,
) -> StepView {
    match r {
        Err(e) => fatal(primary_message(selected, e)),
        Ok(()) => if c.secondary.enabled {
            StepView::Probe { path: joined(c.wallpaper_dir, secondary_name(c, selected)) }
        } else {
            StepView::Finish { effects: changed(selected), code: 0 }
        },
    }
}

/// The step that puts an image on the secondary target.
pub open spec fn secondary_step(c: ConfigView, image: Seq<char>) -> StepView {
    StepView::Secondary {
        args: apply_arguments(c.secondary.namespace, c.secondary.opts, image),
    }
}

/// After the look for a variant on disk: a real one always wins.
pub open spec fn probed(c: ConfigView, selected: Seq<char>, present: bool) -> StepView {
    let name = secondary_name(c, selected);
    if present {
        secondary_step(c, joined(c.wallpaper_dir, name))
    } else if c.secondary.auto_blur {
        StepView::Blur { src: joined(c.wallpaper_dir, selected), name }
    } else {
        secondary_absent(c, selected, absent_message(c, selected))
    }
}

/// After a blurred copy was asked for.
pub open spec fn blurred(
    c: ConfigView,
    selected: Seq<char>,
    r: Result<Seq<char>, Seq<char>>,
) -> StepView {
    match r {
        Ok(path) => secondary_step(c, path),
        Err(e) => secondary_absent(c, selected, blur_message(c, selected, e)),
    }
}

/// After the secondary target.
pub open spec fn secondary_done(
    c: ConfigView,
    selected: Seq<char>,
    r: Result<(), ErrorView>,
) -> StepView {
    match r {
        Ok(()) => StepView::Finish {
            effects: changed(selected + "\n"@ + secondary_name(c, selected)),
            code: 0,
        },
        Err(e) => secondary_failed(c, selected, secondary_message(c, selected, e)),
    }
}

// ---------------------------------------------------------------- doing it

fn push_effect(v: &mut Vec<Effect>, e: Effect)
    ensures
        effects_view(final(v)@) == effects_view(old(v)@).push(e@),
{
    let ghost before = v@;
    v.push(e);
    assert(effects_view(v@) =~= effects_view(before).push(e@));
}

fn push_changed(v: &mut Vec<Effect>, applied: &str)
    ensures
        effects_view(final(v)@) == effects_view(old(v)@) + changed(applied@),
{
    let ghost before = v@;
    push_effect(
        v,
        Effect::Notify { summary: copy_of("Wallpaper changed"), body: copy_of(applied) },
    );
    push_effect(v, Effect::Sound);
    assert(effects_view(v@) =~= effects_view(before) + changed(applied@));
}

fn no_effects() -> (v: Vec<Effect>)
    ensures
        effects_view(v@) == Seq::<EffectView>::empty(),
{
    let v: Vec<Effect> = Vec::new();
    assert(effects_view(v@) =~= Seq::<EffectView>::empty());
    v
}

fn succeed(applied: &str) -> (s: Step)
    ensures
        s@ == (StepView::Finish { effects: changed(applied@), code: 0 }),
{
    let mut effects: Vec<Effect> = no_effects();
    push_changed(&mut effects, applied);
    assert(effects_view(effects@) =~= changed(applied@));
    Step::Finish { effects, code: 0 }
}

fn fail(msg: &str) -> (s: Step)
    ensures
        s@ == fatal(msg@),
{
    let mut effects: Vec<Effect> = no_effects();
    push_effect(&mut effects, Effect::Say(concat2("walldeck: ", msg)));
    push_effect(
        &mut effects,
        Effect::Notify { summary: copy_of("walldeck: wallpaper failed"), body: copy_of(msg) },
    );
    assert(effects_view(effects@) =~= fatal(msg@)->effects);
    Step::Finish { effects, code: 1 }
}

fn skip_secondary(cfg: &Config, selected: &str, msg: &str) -> (s: Step)
    ensures
        s@ == secondary_failed(cfg@, selected@, msg@),
{
    if cfg.secondary.required {
        return fail(msg);
    }
    let mut effects: Vec<Effect> = no_effects();
    push_effect(&mut effects, Effect::Say(concat2("walldeck: ", msg)));
    push_effect(
        &mut effects,
        Effect::Notify {
            summary: copy_of("walldeck: secondary target skipped"),
            body: copy_of(msg),
        },
    );
    push_changed(&mut effects, selected);
    proof {
        let want = seq![
            EffectView::Say("walldeck: "@ + msg@),
            EffectView::Notify { summary: "walldeck: secondary target skipped"@, body: msg@ },
        ] + changed(selected@);
        assert(effects_view(effects@) =~= want);
    }
    Step::Finish { effects, code: 0 }
}

fn leave_secondary(cfg: &Config, selected: &str, msg: &str) -> (s: Step)
    ensures
        s@ == secondary_absent(cfg@, selected@, msg@),
{
    if cfg.secondary.required {
        return fail(msg);
    }
    let mut effects: Vec<Effect> = no_effects();
    push_effect(
        &mut effects,
        Effect::Say(concat3("walldeck: ", msg, ", leaving that target unchanged")),
    );
    push_changed(&mut effects, selected);
    proof {
        let want = seq![
            EffectView::Say("walldeck: "@ + msg@ + ", leaving that target unchanged"@),
        ] + changed(selected@);
        assert(effects_view(effects@) =~= want);
    }
    Step::Finish { effects, code: 0 }
}

/// Begins to apply the picked wallpaper.
pub fn apply_selection(cfg: &Config, selected: &str) -> (s: Step)
    ensures
        s@ == first_step(cfg@, selected@),
{
    let image: String = full_path(cfg, selected);
    Step::Primary { args: apply_args(&cfg.namespace, &cfg.opts, image.as_str()) }
}

/// Goes on after the primary target was tried.
pub fn after_primary(cfg: &Config, selected: &str, r: &Result<(), ApplyError>) -> (s: Step)
    ensures
        s@ == primary_done(cfg@, selected@, outcome_view(*r)),
{
    match r {
        Err(e) => {
            let mut msg: String = concat3("Could not apply ", selected, ": ");
            msg.append(e.message().as_str());
            fail(msg.as_str())
        },
        Ok(()) => {
            if cfg.secondary.enabled {
                apply_secondary(cfg, selected)
            } else {
                succeed(selected)
            }
        },
    }
}

/// Begins with the secondary target: a look for the wallpaper's variant.
fn apply_secondary(cfg: &Config, selected: &str) -> (s: Step)
    ensures
        s@ == (StepView::Probe {
            path: joined(cfg@.wallpaper_dir, secondary_name(cfg@, selected@)),
        }),
{
    let name: String = variant_name(selected, cfg.secondary.suffix.as_str());
    Step::Probe { path: full_path(cfg, name.as_str()) }
}

fn run_secondary(cfg: &Config, image: &str) -> (s: Step)
    ensures
        s@ == secondary_step(cfg@, image@),
{
    Step::Secondary { args: apply_args(&cfg.secondary.namespace, &cfg.secondary.opts, image) }
}

/// Goes on after the look for a variant on disk.
pub fn after_probe(cfg: &Config, selected: &str, present: bool) -> (s: Step)
    ensures
        s@ == probed(cfg@, selected@, present),
{
    let name: String = variant_name(selected, cfg.secondary.suffix.as_str());
    if present {
        let path: String = full_path(cfg, name.as_str());
        run_secondary(cfg, path.as_str())
    } else if cfg.secondary.auto_blur {
        Step::Blur { src: full_path(cfg, selected), name }
    } else {
        let mut msg: String = concat3("no '", cfg.secondary.suffix.as_str(), "' variant for ");
        msg.append(selected);
        msg.append(" (");
        msg.append(name.as_str());
        msg.append(" not found)");
        leave_secondary(cfg, selected, msg.as_str())
    }
}

/// The views of a path or an error.
pub open spec fn path_view(r: Result<String, String>) -> Result<Seq<char>, Seq<char>> {
    match r {
        Ok(p) => Ok(p@),
        Err(e) => Err(e@),
    }
}

/// Goes on after a blurred copy was asked for.
pub fn after_blur(cfg: &Config, selected: &str, r: &Result<String, String>) -> (s: Step)
    ensures
        s@ == blurred(cfg@, selected@, path_view(*r)),
{
    match r {
        Ok(path) => run_secondary(cfg, path.as_str()),
        Err(e) => {
            let mut msg: String = concat3(
                "could not auto-generate a blurred '",
                cfg.secondary.suffix.as_str(),
                "' variant for ",
            );
            msg.append(selected);
            msg.append(": ");
            msg.append(e.as_str());
            leave_secondary(cfg, selected, msg.as_str())
        },
    }
}

/// Finishes after the secondary target was tried.
pub fn after_secondary(cfg: &Config, selected: &str, r: &Result<(), ApplyError>) -> (s: Step)
    ensures
        s@ == secondary_done(cfg@, selected@, outcome_view(*r)),
{
    let name: String = variant_name(selected, cfg.secondary.suffix.as_str());
    match r {
        Ok(()) => {
            let applied: String = concat3(selected, "\n", name.as_str());
            succeed(applied.as_str())
        },
        Err(e) => {
            let target: String = match &cfg.secondary.namespace {
                Some(ns) => concat3("namespace '", ns.as_str(), "'"),
                None => copy_of("the default namespace"),
            };
            let mut msg: String = concat3("could not apply ", name.as_str(), " to ");
            msg.append(target.as_str());
            msg.append(": ");
            msg.append(e.message().as_str());
            msg.append(
                " (is a daemon running for it? set `secondary_enabled = false` if you only run one)",
            );
            skip_secondary(cfg, selected, msg.as_str())
        },
    }
}

// ---------------------------------------------------------------- laws

/// Whether a step ends the program with a code.
pub open spec fn exits_with(s: StepView, code: i32) -> bool {
    s matches StepView::Finish { code: c, .. } && c == code
}

/// The user is told of the change, with the sound behind it.
pub open spec fn announces(s: StepView, applied: Seq<char>) -> bool {
    s matches StepView::Finish { effects, .. } && effects.len() >= 2 && effects.subrange(
        effects.len() - 2,
        effects.len() as int,
    ) == changed(applied)
}

/// A failure of the primary target is fatal, and the secondary target is not
/// touched.
pub proof fn a_primary_failure_is_fatal(c: ConfigView, selected: Seq<char>, e: ErrorView)
    ensures
        exits_with(primary_done(c, selected, Err(e)), 1),
{
}

/// Without a secondary target the primary one is all there is.
pub proof fn one_daemon_is_enough(c: ConfigView, selected: Seq<char>)
    requires
        !c.secondary.enabled,
    ensures
        exits_with(primary_done(c, selected, Ok(())), 0),
        announces(primary_done(c, selected, Ok(())), selected),
{
    let s = primary_done(c, selected, Ok(()));
    assert(s->effects.subrange(0, 2) =~= changed(selected));
}

/// Unless the secondary target is required, nothing about it is fatal, and the
/// primary wallpaper is announced as applied: neither a missing variant, nor a
/// failed blur, nor a missing daemon.
pub proof fn an_optional_secondary_is_never_fatal(
    c: ConfigView,
    selected: Seq<char>,
    e: ErrorView,
    why: Seq<char>,
)
    requires
        !c.secondary.required,
    ensures
        exits_with(secondary_done(c, selected, Err(e)), 0),
        announces(secondary_done(c, selected, Err(e)), selected),
        exits_with(blurred(c, selected, Err(why)), 0),
        announces(blurred(c, selected, Err(why)), selected),
        !c.secondary.auto_blur ==> exits_with(probed(c, selected, false), 0),
        !c.secondary.auto_blur ==> announces(probed(c, selected, false), selected),
{
    let s = secondary_done(c, selected, Err(e));
    let b = blurred(c, selected, Err(why));
    assert(s->effects.subrange(2, 4) =~= changed(selected));
    assert(b->effects.subrange(1, 3) =~= changed(selected));
    if !c.secondary.auto_blur {
        let p = probed(c, selected, false);
        assert(p->effects.subrange(1, 3) =~= changed(selected));
    }
}

/// A required secondary target makes all of these hard failures.
pub proof fn a_required_secondary_is_fatal(
    c: ConfigView,
    selected: Seq<char>,
    e: ErrorView,
    why: Seq<char>,
)
    requires
        c.secondary.required,
    ensures
        exits_with(secondary_done(c, selected, Err(e)), 1),
        exits_with(blurred(c, selected, Err(why)), 1),
        !c.secondary.auto_blur ==> exits_with(probed(c, selected, false), 1),
{
}

/// A real variant always wins: where it is on disk, it is what is applied, and
/// no copy is made.
pub proof fn a_real_variant_wins(c: ConfigView, selected: Seq<char>)
    ensures
        probed(c, selected, true) == secondary_step(
            c,
            joined(c.wallpaper_dir, secondary_name(c, selected)),
        ),
{
}

/// The primary target gets the configured namespace: where one is named, its
/// flag and name stand right before the image, and where none is, the options
/// do. The image is the picked file in the wallpaper directory.
pub proof fn the_primary_target_gets_its_namespace(c: ConfigView, selected: Seq<char>)
    ensures
        first_step(c, selected) is Primary,
        ({
            let args = first_step(c, selected)->Primary_args;
            let n = args.len() as int;
            &&& n >= 2
            &&& args[0] == "img"@
            &&& args[n - 1] == joined(c.wallpaper_dir, selected)
            &&& c.namespace matches Some(ns) ==> {
                &&& n == c.opts.args().len() + 4
                &&& args[n - 3] == "--namespace"@
                &&& args[n - 2] == ns
            }
            &&& c.namespace is None ==> n == c.opts.args().len() + 2
            &&& args.subrange(1, 1int + c.opts.args().len()) == c.opts.args()
        }),
{
    let args = first_step(c, selected)->Primary_args;
    assert(args.subrange(1, 1int + c.opts.args().len()) =~= c.opts.args());
}

/// The secondary target gets its own namespace and options, and the image it
/// was given.
pub proof fn the_secondary_target_gets_its_namespace(c: ConfigView, image: Seq<char>)
    ensures
        secondary_step(c, image) is Secondary,
        ({
            let args = secondary_step(c, image)->Secondary_args;
            let opts = c.secondary.opts.args();
            let n = args.len() as int;
            &&& args[0] == "img"@
            &&& args[n - 1] == image
            &&& c.secondary.namespace matches Some(ns) ==> {
                &&& n == opts.len() + 4
                &&& args[n - 3] == "--namespace"@
                &&& args[n - 2] == ns
            }
            &&& c.secondary.namespace is None ==> n == opts.len() + 2
            &&& args.subrange(1, 1int + opts.len()) == opts
        }),
{
    let args = secondary_step(c, image)->Secondary_args;
    assert(args.subrange(1, 1int + c.secondary.opts.args().len()) =~= c.secondary.opts.args());
}

/// After the primary target comes the secondary one, if it is enabled: a look
/// for the wallpaper's variant, beside the wallpaper and under the wallpaper's
/// name with the suffix.
pub proof fn the_secondary_target_comes_second(
    c: ConfigView,
    stem: Seq<char>,
    ext: Seq<char>,
    e: ErrorView,
)
    requires
        !ext.contains('.'),
    ensures
        ({
            let selected = stem + seq!['.'] + ext;
            let name = stem + c.secondary.suffix + seq!['.'] + ext;
            let src = joined(c.wallpaper_dir, selected);
            let path = joined(c.wallpaper_dir, name);
            &&& c.secondary.enabled ==> primary_done(c, selected, Ok(())) == (StepView::Probe {
                path,
            })
            &&& probed(c, selected, true) == secondary_step(c, path)
            &&& c.secondary.auto_blur ==> probed(c, selected, false) == (StepView::Blur {
                src,
                name,
            })
            &&& blurred(c, selected, Ok(path)) == secondary_step(c, path)
        }),
{
    names_have_parts(stem, ext, c.secondary.suffix);
}

/// A blurred copy that was made is what the secondary target gets.
pub proof fn a_blurred_copy_stands_in(c: ConfigView, selected: Seq<char>, path: Seq<char>)
    ensures
        blurred(c, selected, Ok(path)) is Secondary,
        blurred(c, selected, Ok(path))->Secondary_args.last() == path,
        !(probed(c, selected, false) is Secondary),
        c.secondary.auto_blur <==> probed(c, selected, false) is Blur,
{
}

/// What the user hears of success: which wallpapers are on, with the sound, and
/// nothing on the error output.
pub proof fn success_is_announced(c: ConfigView, selected: Seq<char>)
    ensures
        !c.secondary.enabled ==> primary_done(c, selected, Ok(())) == (StepView::Finish {
            effects: seq![
                EffectView::Notify { summary: "Wallpaper changed"@, body: selected },
                EffectView::Sound,
            ],
            code: 0,
        }),
        secondary_done(c, selected, Ok(())) == (StepView::Finish {
            effects: seq![
                EffectView::Notify {
                    summary: "Wallpaper changed"@,
                    body: selected + "\n"@ + variant(selected, c.secondary.suffix),
                },
                EffectView::Sound,
            ],
            code: 0,
        }),
{
}

/// The reason that a step is given up for, when it is said and shown.
pub open spec fn tells(s: StepView, msg: Seq<char>) -> bool {
    &&& s is Finish
    &&& s->effects.len() >= 1
    &&& s->effects[0] == EffectView::Say("walldeck: "@ + msg)
}

/// A failure is told with the wallpaper's name and the backend's own words,
/// first on the error output and then as a notification; there is no sound
/// unless the primary wallpaper is on.
pub proof fn failures_are_told(c: ConfigView, selected: Seq<char>, e: ErrorView, why: Seq<char>)
    ensures
        ({
            let msg = "Could not apply "@ + selected + ": "@ + e.message();
            let s = primary_done(c, selected, Err(e));
            &&& tells(s, msg)
            &&& s->effects.len() == 2
            &&& s->effects[1] == (EffectView::Notify {
                summary: "walldeck: wallpaper failed"@,
                body: msg,
            })
        }),
        ({
            let whereto = match c.secondary.namespace {
                Some(ns) => "namespace '"@ + ns + "'"@,
                None => "the default namespace"@,
            };
            let msg = "could not apply "@ + variant(selected, c.secondary.suffix) + " to "@ + whereto
                + ": "@ + e.message()
                + " (is a daemon running for it? set `secondary_enabled = false` if you only run one)"@;
            let s = secondary_done(c, selected, Err(e));
            &&& tells(s, msg)
            &&& s->effects[1] == (EffectView::Notify {
                summary: if c.secondary.required {
                    "walldeck: wallpaper failed"@
                } else {
                    "walldeck: secondary target skipped"@
                },
                body: msg,
            })
            &&& s->effects.len() == (if c.secondary.required {
                2int
            } else {
                4
            })
        }),
        ({
            let msg = "could not auto-generate a blurred '"@ + c.secondary.suffix
                + "' variant for "@ + selected + ": "@ + why;
            let s = blurred(c, selected, Err(why));
            &&& c.secondary.required ==> tells(s, msg) && s->effects.len() == 2
            &&& !c.secondary.required ==> tells(s, msg + ", leaving that target unchanged"@)
                && s->effects.len() == 3
        }),
        !c.secondary.auto_blur ==> ({
            let msg = "no '"@ + c.secondary.suffix + "' variant for "@ + selected + " ("@ + variant(
                selected,
                c.secondary.suffix,
            ) + " not found)"@;
            let s = probed(c, selected, false);
            &&& c.secondary.required ==> tells(s, msg) && s->effects.len() == 2
            &&& !c.secondary.required ==> tells(s, msg + ", leaving that target unchanged"@)
                && s->effects.len() == 3
        }),
{
    let a = "could not auto-generate a blurred '"@ + c.secondary.suffix + "' variant for "@
        + selected + ": "@ + why;
    let b = "no '"@ + c.secondary.suffix + "' variant for "@ + selected + " ("@ + variant(
        selected,
        c.secondary.suffix,
    ) + " not found)"@;
    let tail = ", leaving that target unchanged"@;
    assert("walldeck: "@ + (a + tail) =~= "walldeck: "@ + a + tail);
    assert("walldeck: "@ + (b + tail) =~= "walldeck: "@ + b + tail);
}

/// Whatever a wallpaper is called, the secondary target gets its variant: that
/// is what is looked for, beside the wallpaper, and what is applied where it is
/// found.
pub proof fn the_variant_goes_to_the_secondary_target(c: ConfigView, selected: Seq<char>)
    ensures
        ({
            let name = variant(selected, c.secondary.suffix);
            let path = joined(c.wallpaper_dir, name);
            &&& c.secondary.enabled ==> primary_done(c, selected, Ok(())) == (StepView::Probe {
                path,
            })
            &&& probed(c, selected, true) == secondary_step(c, path)
            &&& c.secondary.auto_blur ==> probed(c, selected, false) == (StepView::Blur {
                src: joined(c.wallpaper_dir, selected),
                name,
            })
        }),
{
}

} // verus!
