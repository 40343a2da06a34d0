//! Desktop notifications and the completion sound.
//!
//! Both are best-effort and optional: whoever runs these commands ignores
//! whether they work.

use vstd::prelude::*;
use crate::config::{Config, ConfigView};
use crate::text::{push_text, texts};

verus! {

/// The arguments of `notify-send` for a notification.
pub open spec fn notification(summary: Seq<char>, body: Seq<char>) -> Seq<Seq<char>> {
    seq!["-u"@, "low"@, "-a"@, "walldeck"@, summary, body]
}

/// What `notify-send` is run with for a notification, if it is.
pub open spec fn notified(c: ConfigView, summary: Seq<char>, body: Seq<char>) -> Option<
    Seq<Seq<char>>,
> {
    if c.notifications {
        Some(notification(summary, body))
    } else {
        None
    }
}

/// What the sound command is run with, if it is.
pub open spec fn played(c: ConfigView, is_file: bool) -> Option<Seq<Seq<char>>> {
    match c.sound_file {
        Some(f) => if is_file {
            Some(seq![f])
        } else {
            None
        },
        None => None,
    }
}

/// The views of an optional list of strings.
pub open spec fn opt_texts(o: Option<Vec<String>>) -> Option<Seq<Seq<char>>> {
    match o {
        Some(v) => Some(texts(v@)),
        None => None,
    }
}

/// The arguments to run `notify-send` with, unless notifications are off.
pub fn notify(cfg: &Config, summary: &str, body: &str) -> (r: Option<Vec<String>>)
    ensures
        opt_texts(r) == notified(cfg@, summary@, body@),
{
    if !cfg.notifications {
        return None;
    }
    let mut v: Vec<String> = Vec::new();
    push_text(&mut v, "-u");
    push_text(&mut v, "low");
    push_text(&mut v, "-a");
    push_text(&mut v, "walldeck");
    push_text(&mut v, summary);
    push_text(&mut v, body);
    assert(texts(v@) =~= notification(summary@, body@));
    Some(v)
}

/// The arguments to run the sound command with: the sound file, if one is
/// configured and there.
pub fn play_sound(cfg: &Config, is_file: bool) -> (r: Option<Vec<String>>)
    ensures
        opt_texts(r) == played(cfg@, is_file),
{
    match cfg.sound_path(is_file) {
        Some(f) => {
            let mut v: Vec<String> = Vec::new();
            push_text(&mut v, f.as_str());
            assert(texts(v@) =~= seq![f@]);
            Some(v)
        },
        None => None,
    }
}

// ---------------------------------------------------------------- laws

/// A notification shows its summary and then its body, under the program's name
/// and with low urgency; switched off, there is none.
pub proof fn notifications_show_what_they_say(c: ConfigView, summary: Seq<char>, body: Seq<char>)
    ensures
        notified(c, summary, body) is Some <==> c.notifications,
        c.notifications ==> ({
            let args = notified(c, summary, body)->0;
            &&& args.len() == 6
            &&& args[0] == "-u"@ && args[1] == "low"@
            &&& args[2] == "-a"@ && args[3] == "walldeck"@
            &&& args[4] == summary
            &&& args[5] == body
        }),
{
}

/// The sound is the configured file, played when there is one and it is there;
/// without a sound command there is none.
pub proof fn the_sound_is_the_configured_file(c: ConfigView, is_file: bool)
    ensures
        played(c, is_file) is Some <==> c.sound_file is Some && is_file,
        played(c, is_file) is Some ==> played(c, is_file)->0 == seq![c.sound_file->0],
        c.sound_command.len() == 0 ==> played(c.finished(), is_file) is None,
{
}

} // verus!
