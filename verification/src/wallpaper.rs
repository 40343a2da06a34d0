//! The wallpaper backend: an `awww`-compatible command-line program.
//!
//! Nothing here assumes a particular set of flags beyond the shape
//! `img [flags] <path>`: which flags are passed is driven by the
//! configuration, and an unset option is omitted.

use vstd::prelude::*;
use crate::config::{no_opts, OptsView, TransitionOpts};
use crate::paths::{join_path, joined};
use crate::text::{
    concat2, concat3, copy_of, has_char, opt_text, pieces_of, push_text, separators_end_pieces,
    split_on, texts, trim, trimmed,
};

verus! {

/// Why an apply failed, so that the caller can decide how loudly to complain.
pub enum ApplyError {
    /// The backend could not be run at all.
    Spawn(String),
    /// The backend ran and reported failure. For a namespaced target this most
    /// commonly means that no daemon is running for that namespace.
    Backend { status: String, stderr: String },
}

/// What an error says, as mathematics.
pub enum ErrorView {
    Spawn(Seq<char>),
    Backend { status: Seq<char>, stderr: Seq<char> },
}

impl View for ApplyError {
    type V = ErrorView;

    open spec fn view(&self) -> ErrorView {
        match *self {
            ApplyError::Spawn(e) => ErrorView::Spawn(e@),
            ApplyError::Backend { status, stderr } => ErrorView::Backend {
                status: status@,
                stderr: stderr@,
            },
        }
    }
}

impl ErrorView {
    /// The error in words.
    pub open spec fn message(self) -> Seq<char> {
        match self {
            ErrorView::Spawn(e) => e,
            ErrorView::Backend { status, stderr } => if stderr.len() == 0 {
                "exited with "@ + status
            } else {
                "exited with "@ + status + ": "@ + stderr
            },
        }
    }
}

impl ApplyError {
    pub fn message(&self) -> (m: String)
        ensures
            m@ == self@.message(),
    {
        match self {
            ApplyError::Spawn(e) => copy_of(e.as_str()),
            ApplyError::Backend { status, stderr } => {
                let mut m: String = concat2("exited with ", status.as_str());
                if !stderr.as_str().is_empty() {
                    m.append(": ");
                    m.append(stderr.as_str());
                }
                m
            },
        }
    }
}

/// How running the backend went.
pub enum Run {
    /// It could not be started, for a reason that the system gave.
    Failed(String),
    /// It ended, and this is how and what it said on its error output.
    Ended { success: bool, status: String, stderr: String },
}

pub open spec fn namespace_args(namespace: Option<Seq<char>>) -> Seq<Seq<char>> {
    match namespace {
        Some(ns) => seq!["--namespace"@, ns],
        None => seq![],
    }
}

/// The backend's arguments for putting an image on a target: the command, the
/// target's options, its namespace unless it is the unnamed one, and the
/// image.
pub open spec fn apply_arguments(
    namespace: Option<Seq<char>>,
    opts: OptsView,
    image: Seq<char>,
) -> Seq<Seq<char>> {
    seq!["img"@] + opts.args() + namespace_args(namespace) + seq![image]
}

pub fn apply_args(namespace: &Option<String>, opts: &TransitionOpts, image: &str) -> (r: Vec<
    String,
>)
    ensures
        texts(r@) == apply_arguments(opt_text(*namespace), opts@, image@),
{
    let mut r: Vec<String> = Vec::new();
    assert(texts(r@) =~= seq![]);
    push_text(&mut r, "img");
    assert(texts(r@) =~= seq!["img"@]);
    let flags: Vec<String> = opts.to_args();
    let mut i: usize = 0;
    while i < flags.len()
        invariant
            i <= flags@.len(),
            texts(flags@) == opts@.args(),
            texts(r@) == seq!["img"@] + opts@.args().take(i as int),
        decreases flags@.len() - i,
    {
        assert(texts(flags@)[i as int] == flags@[i as int]@);
        push_text(&mut r, flags[i].as_str());
        assert(texts(r@) =~= seq!["img"@] + opts@.args().take(i + 1));
        i = i + 1;
    }
    assert(opts@.args().take(i as int) =~= opts@.args());
    let ghost so_far = texts(r@);
    if let Some(ns) = namespace {
        push_text(&mut r, "--namespace");
        push_text(&mut r, ns.as_str());
    }
    assert(texts(r@) =~= so_far + namespace_args(opt_text(*namespace)));
    push_text(&mut r, image);
    assert(texts(r@) =~= apply_arguments(opt_text(*namespace), opts@, image@));
    r
}

/// What came of a run of the backend `command`.
pub open spec fn run_outcome(command: Seq<char>, run: Run) -> Result<(), ErrorView> {
    match run {
        Run::Failed(e) => Err(
            ErrorView::Spawn("failed to run '"@ + command + "': "@ + e@),
        ),
        Run::Ended { success, status, stderr } => if success {
            Ok(())
        } else {
            Err(ErrorView::Backend { status: status@, stderr: trimmed(stderr@) })
        },
    }
}

/// The view of a result with an error.
pub open spec fn outcome_view(r: Result<(), ApplyError>) -> Result<(), ErrorView> {
    match r {
        Ok(()) => Ok(()),
        Err(e) => Err(e@),
    }
}

/// Judges a run of the backend: it succeeded, or it failed and the error says
/// how, with what the backend itself said.
pub fn apply(command: &str, run: Run) -> (r: Result<(), ApplyError>)
    ensures
        outcome_view(r) == run_outcome(command@, run),
{
    match run {
        Run::Failed(e) => {
            let mut m: String = concat3("failed to run '", command, "': ");
            m.append(e.as_str());
            Err(ApplyError::Spawn(m))
        },
        Run::Ended { success, status, stderr } => {
            if success {
                Ok(())
            } else {
                Err(ApplyError::Backend { status, stderr: trim(stderr.as_str()) })
            }
        },
    }
}

/// The files that a program name can stand for, in the order in which they are
/// tried: a name with a slash stands for itself, and any other is looked up in
/// each directory of the search path.
pub open spec fn candidates(program: Seq<char>, path: Option<Seq<char>>) -> Seq<Seq<char>> {
    if program.contains('/') {
        seq![program]
    } else {
        match path {
            Some(p) => Seq::new(
                pieces_of(p, ':').len(),
                |i: int| joined(pieces_of(p, ':')[i], program),
            ),
            None => seq![],
        }
    }
}

pub fn path_candidates(program: &str, path: Option<&str>) -> (r: Vec<String>)
    ensures
        texts(r@) == candidates(
            program@,
            match path {
                Some(p) => Some(p@),
                None => None,
            },
        ),
{
    let mut r: Vec<String> = Vec::new();
    assert(texts(r@) =~= seq![]);
    if has_char(program, '/') {
        push_text(&mut r, program);
        assert(texts(r@) =~= seq![program@]);
        return r;
    }
    if let Some(p) = path {
        let dirs: Vec<String> = split_on(p, ':');
        let mut i: usize = 0;
        while i < dirs.len()
            invariant
                i <= dirs@.len(),
                texts(dirs@) == pieces_of(p@, ':'),
                texts(r@) == Seq::new(
                    i as nat,
                    |k: int| joined(pieces_of(p@, ':')[k], program@),
                ),
            decreases dirs@.len() - i,
        {
            assert(texts(dirs@)[i as int] == dirs@[i as int]@);
            let full: String = join_path(dirs[i].as_str(), program);
            push_text(&mut r, full.as_str());
            i = i + 1;
            assert(texts(r@) =~= Seq::new(
                i as nat,
                |k: int| joined(pieces_of(p@, ':')[k], program@),
            ));
        }
        assert(dirs@.len() == texts(dirs@).len());
    }
    r
}

// ---------------------------------------------------------------- laws

/// The image always comes last, and the backend's command first, whatever the
/// options.
pub proof fn the_image_comes_last(namespace: Option<Seq<char>>, opts: OptsView, image: Seq<char>)
    ensures
        apply_arguments(namespace, opts, image).first() == "img"@,
        apply_arguments(namespace, opts, image).last() == image,
{
}

/// A target without options or a namespace is passed nothing but the image.
pub proof fn a_bare_target_gets_no_flags(image: Seq<char>)
    ensures
        apply_arguments(None, no_opts(), image) == seq!["img"@, image],
{
    assert(apply_arguments(None, no_opts(), image) =~= seq!["img"@, image]);
}

/// The command comes first, then the options, then the namespace with its flag
/// where there is one, then the image, and nothing else.
pub proof fn arguments_stand_in_order(
    ns: Seq<char>,
    opts: OptsView,
    image: Seq<char>,
)
    ensures
        apply_arguments(Some(ns), opts, image) == seq!["img"@] + opts.args() + seq![
            "--namespace"@,
            ns,
            image,
        ],
        apply_arguments(None, opts, image) == seq!["img"@] + opts.args() + seq![image],
{
    assert(apply_arguments(Some(ns), opts, image) =~= seq!["img"@] + opts.args() + seq![
        "--namespace"@,
        ns,
        image,
    ]);
    assert(apply_arguments(None, opts, image) =~= seq!["img"@] + opts.args() + seq![image]);
}

/// A run succeeded exactly when the backend was started and says so; a failure
/// names the command or the status, and hands on what the backend said.
pub proof fn runs_are_judged_by_their_end(command: Seq<char>, e: String, status: String, stderr: String)
    ensures
        run_outcome(command, Run::Ended { success: true, status, stderr }) is Ok,
        run_outcome(command, Run::Ended { success: false, status, stderr }) is Err,
        run_outcome(command, Run::Failed(e)) is Err,
        run_outcome(command, Run::Failed(e))->Err_0.message() == "failed to run '"@ + command
            + "': "@ + e@,
        trimmed(stderr@).len() == 0 ==> run_outcome(
            command,
            Run::Ended { success: false, status, stderr },
        )->Err_0.message() == "exited with "@ + status@,
        trimmed(stderr@).len() > 0 ==> run_outcome(
            command,
            Run::Ended { success: false, status, stderr },
        )->Err_0.message() == "exited with "@ + status@ + ": "@ + trimmed(stderr@),
{
}

/// A program is looked for in each directory of the search path, in order; a
/// name with a slash stands for itself, and without a search path no other name
/// stands for anything.
pub proof fn programs_are_looked_for_along_the_path(
    program: Seq<char>,
    dir: Seq<char>,
    rest: Seq<char>,
)
    requires
        !dir.contains(':'),
    ensures
        program.contains('/') ==> candidates(program, Some(rest)) == seq![program] && candidates(
            program,
            None,
        ) == seq![program],
        !program.contains('/') ==> {
            &&& candidates(program, None).len() == 0
            &&& candidates(program, Some(dir)) == seq![joined(dir, program)]
            &&& candidates(program, Some(dir + seq![':'] + rest)) == seq![joined(dir, program)]
                + candidates(program, Some(rest))
        },
{
    separators_end_pieces(dir, rest, ':');
    if !program.contains('/') {
        assert(candidates(program, Some(dir)) =~= seq![joined(dir, program)]);
        assert(candidates(program, Some(dir + seq![':'] + rest)) =~= seq![joined(dir, program)]
            + candidates(program, Some(rest)));
    }
}

/// An error is told in the system's words, or by its status and what the backend
/// said, if it said anything.
pub proof fn errors_are_told_in_words(e: Seq<char>, status: Seq<char>, stderr: Seq<char>)
    ensures
        ErrorView::Spawn(e).message() == e,
        stderr.len() == 0 ==> (ErrorView::Backend { status, stderr }).message() == "exited with "@
            + status,
        stderr.len() > 0 ==> (ErrorView::Backend { status, stderr }).message() == "exited with "@
            + status + ": "@ + stderr,
{
}

} // verus!
