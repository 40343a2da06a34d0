//! The command line, and what is looked at before the picker opens.

use vstd::prelude::*;
use crate::config::{Config, ConfigView};
use crate::images::{
    filter_originals, image_names, is_image, is_variant, list_images, originals,
    supported_formats, what_is_listed_and_offered,
};
use crate::order::is_sorted;
use crate::text::{concat2, concat3, copy_of, opt_text, same, texts};

verus! {

// ---------------------------------------------------------------- arguments

/// What a command line asks for.
pub enum Request {
    /// Open the picker.
    Pick,
    Help,
    Version,
    ConfigPath,
    /// Something that is not an option.
    Unrecognized(String),
}

/// The request of a command line, as mathematics. The first argument decides.
pub enum RequestView {
    Pick,
    Help,
    Version,
    ConfigPath,
    Unrecognized(Seq<char>),
}

impl View for Request {
    type V = RequestView;

    open spec fn view(&self) -> RequestView {
        match *self {
            Request::Pick => RequestView::Pick,
            Request::Help => RequestView::Help,
            Request::Version => RequestView::Version,
            Request::ConfigPath => RequestView::ConfigPath,
            Request::Unrecognized(s) => RequestView::Unrecognized(s@),
        }
    }
}

pub open spec fn requested(args: Seq<Seq<char>>) -> RequestView {
    if args.len() == 0 {
        RequestView::Pick
    } else if args[0] == "-h"@ || args[0] == "--help"@ {
        RequestView::Help
    } else if args[0] == "-V"@ || args[0] == "--version"@ {
        RequestView::Version
    } else if args[0] == "--config-path"@ {
        RequestView::ConfigPath
    } else {
        RequestView::Unrecognized(args[0])
    }
}

/// Reads the arguments behind the program's name.
pub fn read_args(args: &Vec<String>) -> (r: Request)
    ensures
        r@ == requested(texts(args@)),
{
    if args.len() == 0 {
        return Request::Pick;
    }
    assert(texts(args@)[0] == args@[0]@);
    let a: &str = args[0].as_str();
    if same(a, "-h") || same(a, "--help") {
        Request::Help
    } else if same(a, "-V") || same(a, "--version") {
        Request::Version
    } else if same(a, "--config-path") {
        Request::ConfigPath
    } else {
        Request::Unrecognized(copy_of(a))
    }
}

pub open spec fn usage() -> Seq<char> {
    "walldeck — a Wayland layer-shell wallpaper picker\n\nUSAGE:\n    walldeck [OPTIONS]\n\nOPTIONS:\n    -h, --help         Print this help and exit\n    -V, --version      Print version and exit\n        --config-path  Print the config file path being used and exit\n\nENVIRONMENT:\n    WALLDECK_CONFIG    Override the config file path\n"@
}

/// A program that ends at once: what it prints, on its output and its error
/// output, and its exit code.
pub struct Exit {
    pub out: String,
    pub err: String,
    pub code: i32,
}

/// What answering a request prints and returns; `None` if the picker is to
/// open.
pub open spec fn answered(
    r: RequestView,
    version: Seq<char>,
    config_path: Option<Seq<char>>,
) -> Option<(Seq<char>, Seq<char>, i32)> {
    match r {
        RequestView::Pick => None,
        RequestView::Help => Some((usage(), Seq::empty(), 0)),
        RequestView::Version => Some(("walldeck "@ + version + "\n"@, Seq::empty(), 0)),
        RequestView::ConfigPath => match config_path {
            Some(p) => Some((p + "\n"@, Seq::empty(), 0)),
            None => Some(("(could not determine a config path)"@ + "\n"@, Seq::empty(), 0)),
        },
        RequestView::Unrecognized(a) => Some(
            (usage(), "walldeck: unrecognized argument '"@ + a + "'\n\n"@, 2),
        ),
    }
}

pub open spec fn exit_view(e: Option<Exit>) -> Option<(Seq<char>, Seq<char>, i32)> {
    match e {
        Some(e) => Some((e.out@, e.err@, e.code)),
        None => None,
    }
}

fn print_usage() -> (s: String)
    ensures
        s@ == usage(),
{
    copy_of("walldeck — a Wayland layer-shell wallpaper picker\n\nUSAGE:\n    walldeck [OPTIONS]\n\nOPTIONS:\n    -h, --help         Print this help and exit\n    -V, --version      Print version and exit\n        --config-path  Print the config file path being used and exit\n\nENVIRONMENT:\n    WALLDECK_CONFIG    Override the config file path\n")
}

fn nothing() -> (s: String)
    ensures
        s@ == Seq::<char>::empty(),
{
    let s: String = String::new();
    assert(s@ =~= Seq::<char>::empty());
    s
}

/// Answers a request that does not open the picker.
pub fn answer(r: &Request, version: &str, config_path: &Option<String>) -> (e: Option<Exit>)
    ensures
        exit_view(e) == answered(r@, version@, opt_text(*config_path)),
{
    match r {
        Request::Pick => None,
        Request::Help => Some(Exit { out: print_usage(), err: nothing(), code: 0 }),
        Request::Version => Some(
            Exit { out: concat3("walldeck ", version, "\n"), err: nothing(), code: 0 },
        ),
        Request::ConfigPath => {
            let out: String = match config_path {
                Some(p) => concat2(p.as_str(), "\n"),
                None => concat2("(could not determine a config path)", "\n"),
            };
            Some(Exit { out, err: nothing(), code: 0 })
        },
        Request::Unrecognized(a) => Some(
            Exit {
                out: print_usage(),
                err: concat3("walldeck: unrecognized argument '", a.as_str(), "'\n\n"),
                code: 2,
            },
        ),
    }
}

// ---------------------------------------------------------------- the setup

/// What is wrong with the setup, given whether the backend was found and the
/// wallpaper directory is one.
pub open spec fn setup_problem(c: ConfigView, backend: bool, dir: bool) -> Option<Seq<char>> {
    if !backend {
        Some(
            "walldeck: backend '"@ + c.command
                + "' not found on PATH (set `command` in the config to point at your wallpaper daemon's CLI)"@,
        )
    } else if !dir {
        Some(
            "walldeck: wallpaper directory '"@ + c.wallpaper_dir
                + "' does not exist (set `wallpaper_dir` in the config)"@,
        )
    } else {
        None
    }
}

/// The first thing that keeps the picker from opening, as a line for the error
/// output.
pub fn check_setup(cfg: &Config, backend: bool, dir: bool) -> (r: Option<String>)
    ensures
        opt_text(r) == setup_problem(cfg@, backend, dir),
{
    if !backend {
        Some(
            concat3(
                "walldeck: backend '",
                cfg.command.as_str(),
                "' not found on PATH (set `command` in the config to point at your wallpaper daemon's CLI)",
            ),
        )
    } else if !dir {
        Some(
            concat3(
                "walldeck: wallpaper directory '",
                cfg.wallpaper_dir.as_str(),
                "' does not exist (set `wallpaper_dir` in the config)",
            ),
        )
    } else {
        None
    }
}

/// Why there is nothing to offer: a line for the error output, and a
/// notification where there is one.
pub struct Refusal {
    pub line: String,
    pub notice: Option<(String, String)>,
}

/// A refusal, as mathematics.
pub struct RefusalView {
    pub line: Seq<char>,
    pub notice: Option<(Seq<char>, Seq<char>)>,
}

impl View for Refusal {
    type V = RefusalView;

    open spec fn view(&self) -> RefusalView {
        RefusalView {
            line: self.line@,
            notice: match self.notice {
                Some((s, b)) => Some((s@, b@)),
                None => None,
            },
        }
    }
}

/// The images of a listing, sorted.
pub open spec fn is_listing(names: Seq<Seq<char>>, images: Seq<Seq<char>>) -> bool {
    &&& is_sorted(images)
    &&& images.to_multiset() == image_names(names).to_multiset()
}

pub open spec fn all_variants(c: ConfigView) -> Seq<char> {
    "Every image in "@ + c.wallpaper_dir + " looks like a '"@ + c.secondary.suffix
        + "' variant"@
}

/// What is offered, given the names of the files in the wallpaper directory,
/// or why nothing is. `names` is the error where the directory could not be
/// read.
pub fn offer(cfg: &Config, names: &Result<Vec<String>, String>) -> (r: Result<Vec<String>, Refusal>)
    ensures
        match *names {
            Err(e) => r matches Err(x) && x@ == (RefusalView {
                line: unreadable_line(cfg@, e@),
                notice: None,
            }),
            Ok(names) => exists|images: Seq<Seq<char>>|
                {
                    &&& #[trigger] is_listing(texts(names@), images)
                    &&& offered(cfg@, images, r)
                },
        },
{
    let names: &Vec<String> = match names {
        Ok(v) => v,
        Err(e) => {
            let mut line: String = concat3(
                "walldeck: could not read '",
                cfg.wallpaper_dir.as_str(),
                "': ",
            );
            line.append(e.as_str());
            return Err(Refusal { line, notice: None });
        },
    };
    let images: Vec<String> = list_images(names);
    let ghost all = texts(images@);
    assert(is_listing(texts(names@), all));
    if images.len() == 0 {
        let mut line: String = concat3(
            "walldeck: no images in ",
            cfg.wallpaper_dir.as_str(),
            " (supported: ",
        );
        line.append(supported_formats().as_str());
        line.append(")");
        return Err(Refusal { line, notice: None });
    }
    let kept: Vec<String> = filter_originals(images, cfg.secondary.suffix.as_str());
    if kept.len() == 0 {
        let mut msg: String = concat3(
            "Every image in ",
            cfg.wallpaper_dir.as_str(),
            " looks like a '",
        );
        msg.append(cfg.secondary.suffix.as_str());
        msg.append("' variant");
        let line: String = concat2("walldeck: ", msg.as_str());
        return Err(Refusal { line, notice: Some((copy_of("walldeck: no wallpapers"), msg)) });
    }
    Ok(kept)
}

/// The answer to a listing of images.
pub open spec fn offered(
    c: ConfigView,
    images: Seq<Seq<char>>,
    r: Result<Vec<String>, Refusal>,
) -> bool {
    let kept = originals(images, c.secondary.suffix);
    if images.len() == 0 {
        r matches Err(x) && x@ == (RefusalView {
            line: "walldeck: no images in "@ + c.wallpaper_dir + " (supported: "@
                + "jpg, jpeg, png, gif, bmp, webp"@ + ")"@,
            notice: None,
        })
    } else if kept.len() == 0 {
        r matches Err(x) && x@ == (RefusalView {
            line: "walldeck: "@ + all_variants(c),
            notice: Some(("walldeck: no wallpapers"@, all_variants(c))),
        })
    } else {
        r matches Ok(v) && texts(v@) == kept
    }
}

/// The words for a thumbnail cache that could not be built.
pub open spec fn cache_line(e: Seq<char>) -> Seq<char> {
    "walldeck: could not build the thumbnail cache: "@ + e
}

/// The words for a wallpaper directory that could not be read.
pub open spec fn unreadable_line(c: ConfigView, e: Seq<char>) -> Seq<char> {
    "walldeck: could not read '"@ + c.wallpaper_dir + "': "@ + e
}

/// What is said when the thumbnail cache could not be built.
pub fn cache_problem(e: &str) -> (r: String)
    ensures
        r@ == cache_line(e@),
{
    concat2("walldeck: could not build the thumbnail cache: ", e)
}

// ---------------------------------------------------------------- laws

/// Without arguments the picker opens; otherwise the first argument decides,
/// whatever comes after it, and one that is no option is handed back.
pub proof fn the_first_argument_decides(a: Seq<char>, rest: Seq<Seq<char>>)
    ensures
        requested(Seq::empty()) is Pick,
        requested(seq![a] + rest) == requested(seq![a]),
        a == "-h"@ || a == "--help"@ ==> requested(seq![a]) is Help,
        a == "-V"@ || a == "--version"@ ==> requested(seq![a]) is Version,
        a == "--config-path"@ ==> requested(seq![a]) is ConfigPath,
        a != "-h"@ && a != "--help"@ && a != "-V"@ && a != "--version"@ && a != "--config-path"@
            ==> requested(seq![a]) == RequestView::Unrecognized(a),
        !(requested(seq![a]) is Pick),
{
    reveal_strlit("-h");
    reveal_strlit("--help");
    reveal_strlit("-V");
    reveal_strlit("--version");
    reveal_strlit("--config-path");
    assert("-h"@[1] == 'h' && "-V"@[1] == 'V');
    assert("-h"@.len() == 2 && "-V"@.len() == 2 && "--help"@.len() == 6);
    assert("--version"@.len() == 9 && "--config-path"@.len() == 13);
}

/// Only opening the picker goes on; every other request is answered at once: on
/// the output and with success, but for an argument that is not known, which is
/// an error that names the argument and shows the usage.
pub proof fn requests_are_answered(
    version: Seq<char>,
    path: Option<Seq<char>>,
    a: Seq<char>,
)
    ensures
        answered(RequestView::Pick, version, path) is None,
        answered(RequestView::Help, version, path) == Some((usage(), Seq::<char>::empty(), 0i32)),
        answered(RequestView::Version, version, path) == Some(
            ("walldeck "@ + version + "\n"@, Seq::<char>::empty(), 0i32),
        ),
        path matches Some(p) ==> answered(RequestView::ConfigPath, version, path) == Some(
            (p + "\n"@, Seq::<char>::empty(), 0i32),
        ),
        path is None ==> answered(RequestView::ConfigPath, version, path) == Some(
            ("(could not determine a config path)"@ + "\n"@, Seq::<char>::empty(), 0i32),
        ),
        answered(RequestView::Unrecognized(a), version, path) == Some(
            (usage(), "walldeck: unrecognized argument '"@ + a + "'\n\n"@, 2i32),
        ),
{
}

/// The picker opens exactly when the backend is found and the directory is one;
/// the backend is complained about first, and each complaint names what is
/// missing and the setting for it.
pub proof fn the_setup_is_complained_about(c: ConfigView, backend: bool, dir: bool)
    ensures
        setup_problem(c, backend, dir) is None <==> backend && dir,
        !backend ==> setup_problem(c, backend, dir) == Some(
            "walldeck: backend '"@ + c.command
                + "' not found on PATH (set `command` in the config to point at your wallpaper daemon's CLI)"@,
        ),
        backend && !dir ==> setup_problem(c, backend, dir) == Some(
            "walldeck: wallpaper directory '"@ + c.wallpaper_dir
                + "' does not exist (set `wallpaper_dir` in the config)"@,
        ),
{
}

/// What is offered are the images of the directory that are no variants, each
/// of them and nothing else; and something is offered whenever there is one.
pub proof fn what_is_offered(
    c: ConfigView,
    names: Seq<Seq<char>>,
    images: Seq<Seq<char>>,
    r: Result<Vec<String>, Refusal>,
    n: Seq<char>,
)
    requires
        is_listing(names, images),
        offered(c, images, r),
    ensures
        r matches Ok(v) ==> (texts(v@).contains(n) <==> {
            &&& names.contains(n)
            &&& is_image(n)
            &&& c.secondary.suffix.len() == 0 || !is_variant(n, c.secondary.suffix)
        }),
        r matches Ok(v) ==> v@.len() > 0,
        names.contains(n) && is_image(n) && (c.secondary.suffix.len() == 0 || !is_variant(
            n,
            c.secondary.suffix,
        )) ==> r is Ok,
        is_sorted(images),
{
    what_is_listed_and_offered(names, images, c.secondary.suffix, n);
}

/// A refusal says why: there are no images, or all of them are variants, of
/// which the user is notified too.
pub proof fn refusals_say_why(
    c: ConfigView,
    images: Seq<Seq<char>>,
    r: Result<Vec<String>, Refusal>,
)
    requires
        offered(c, images, r),
        r is Err,
    ensures
        images.len() == 0 ==> r->Err_0@.line == "walldeck: no images in "@ + c.wallpaper_dir
            + " (supported: "@ + "jpg, jpeg, png, gif, bmp, webp"@ + ")"@ && r->Err_0@.notice is None,
        images.len() > 0 ==> ({
            let msg = "Every image in "@ + c.wallpaper_dir + " looks like a '"@ + c.secondary.suffix
                + "' variant"@;
            &&& r->Err_0@.line == "walldeck: "@ + msg
            &&& r->Err_0@.notice == Some(("walldeck: no wallpapers"@, msg))
        }),
{
}

/// What cannot be read or built is named, with the reason.
pub proof fn problems_are_named(c: ConfigView, e: Seq<char>)
    ensures
        unreadable_line(c, e) == "walldeck: could not read '"@ + c.wallpaper_dir + "': "@ + e,
        cache_line(e) == "walldeck: could not build the thumbnail cache: "@ + e,
{
}

} // verus!
