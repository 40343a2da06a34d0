//! The thumbnail cache: one file per wallpaper, keyed by the wallpaper's own
//! filename. Thumbnails are regenerated when the source is newer and pruned
//! when it disappears, so that the cache stays in step with the wallpaper
//! directory.

use vstd::prelude::*;
use crate::numerals::{numeral, to_decimal};
use crate::pixels::{columns, cover_crop, fill_fits, lanczos_fill, rows, Filter};
use crate::text::{concat3, opt_text, push_text, same, texts};

verus! {

/// A point in time, in nanoseconds since the epoch.
pub type Nanos = i128;

/// Whether what was made from a source has to be made again: unless both
/// times are known and the source is not newer.
pub open spec fn outdated(src: Option<Nanos>, made: Option<Nanos>) -> bool {
    match (src, made) {
        (Some(s), Some(m)) => s > m,
        _ => true,
    }
}

/// Whether a source has no thumbnail yet, or one that predates it. The times
/// are those of the two files' last changes, `None` where a file is not there
/// or cannot be asked.
pub fn needs_thumb(src: Option<Nanos>, thumb: Option<Nanos>) -> (b: bool)
    ensures
        b == outdated(src, thumb),
{
    match (src, thumb) {
        (Some(s), Some(t)) => s > t,
        _ => true,
    }
}

/// The times of a wallpaper's file and of its thumbnail.
pub struct Times {
    pub src: Option<Nanos>,
    pub thumb: Option<Nanos>,
}

/// Those of the first `k` images that need a thumbnail.
pub open spec fn pending_of(images: Seq<Seq<char>>, times: Seq<Times>, k: nat) -> Seq<Seq<char>>
    decreases k,
{
    if k == 0 {
        Seq::empty()
    } else {
        let before = pending_of(images, times, (k - 1) as nat);
        if outdated(times[k - 1].src, times[k - 1].thumb) {
            before.push(images[k - 1])
        } else {
            before
        }
    }
}

/// The images that need a thumbnail, in their order.
pub fn pending(images: &Vec<String>, times: &Vec<Times>) -> (r: Vec<String>)
    requires
        images@.len() == times@.len(),
    ensures
        texts(r@) == pending_of(texts(images@), times@, images@.len()),
{
    let mut r: Vec<String> = Vec::new();
    let mut i: usize = 0;
    assert(texts(r@) =~= Seq::empty());
    while i < images.len()
        invariant
            i <= images@.len() == times@.len(),
            texts(r@) == pending_of(texts(images@), times@, i as nat),
        decreases images@.len() - i,
    {
        assert(texts(images@)[i as int] == images@[i as int]@);
        if needs_thumb(times[i].src, times[i].thumb) {
            push_text(&mut r, images[i].as_str());
        }
        i = i + 1;
    }
    r
}

/// The words for `n` thumbnails to be made, if any are.
pub open spec fn announced(n: nat) -> Option<Seq<char>> {
    if n == 0 {
        None
    } else {
        Some("Generating "@ + numeral(n) + " thumbnail(s)…"@)
    }
}

/// What is announced before `n` thumbnails are made; nothing if there is no
/// work, so that with a warm cache the picker just appears.
pub fn announcement(n: usize) -> (r: Option<String>)
    ensures
        opt_text(r) == announced(n as nat),
{
    if n == 0 {
        None
    } else {
        Some(concat3("Generating ", to_decimal(n).as_str(), " thumbnail(s)…"))
    }
}

/// The thumbnail of a decoded picture: its square cover-crop, so that every
/// thumbnail is the same square whatever the source's aspect ratio. `None` if
/// the sizes are beyond what can be worked on.
pub fn generate_one(img: &image::DynamicImage, size: u32) -> (r: Option<image::DynamicImage>)
    ensures
        match r {
            Some(p) => {
                &&& fill_fits(columns(*img), rows(*img), size, size)
                &&& columns(p) == size
                &&& rows(p) == size
                &&& lanczos_fill(*img, size, size, p)
            },
            None => !fill_fits(columns(*img), rows(*img), size, size),
        },
{
    cover_crop(img, size, Filter::Lanczos3)
}

/// The words for a thumbnail that could not be made.
pub open spec fn failed(image: Seq<char>, e: Seq<char>) -> Seq<char> {
    "walldeck: thumbnail generation failed for "@ + image + ": "@ + e
}

/// What is said of a thumbnail that could not be made.
pub fn failure_line(image: &str, e: &str) -> (r: String)
    ensures
        r@ == failed(image@, e@),
{
    let mut r: String = concat3("walldeck: thumbnail generation failed for ", image, ": ");
    r.append(e);
    r
}

/// If a directory is owned by someone else than who runs the program, that is
/// the most common cause of a cache that refuses writes, and worth a hint.
/// `found` is the directory, or the nearest one above it that is there.
pub fn ownership_hint(found: &str, owner_uid: u32, our_uid: u32) -> (r: String)
    ensures
        r@ == hint(found@, owner_uid, our_uid),
{
    if owner_uid == our_uid {
        let r: String = String::new();
        assert(r@ =~= Seq::<char>::empty());
        return r;
    }
    let mut r: String = concat3(" ('", found, "' is owned by uid ");
    r.append(to_decimal(owner_uid as usize).as_str());
    r.append(
        ", not you -- if an earlier run used sudo by mistake, `sudo chown -R $USER: '",
    );
    r.append(found);
    r.append("'` or removing it and letting walldeck recreate it should fix this)");
    r
}

pub open spec fn hint(found: Seq<char>, owner_uid: u32, our_uid: u32) -> Seq<char> {
    if owner_uid == our_uid {
        Seq::empty()
    } else {
        " ('"@ + found + "' is owned by uid "@ + numeral(owner_uid as nat)
            + ", not you -- if an earlier run used sudo by mistake, `sudo chown -R $USER: '"@
            + found + "'` or removing it and letting walldeck recreate it should fix this)"@
    }
}

/// Whether a text is one of a list.
pub fn lists(v: &Vec<String>, s: &str) -> (b: bool)
    ensures
        b == texts(v@).contains(s@),
{
    let mut i: usize = 0;
    while i < v.len()
        invariant
            i <= v@.len(),
            forall|k: int| 0 <= k < i ==> texts(v@)[k] != s@,
        decreases v@.len() - i,
    {
        assert(texts(v@)[i as int] == v@[i as int]@);
        if same(v[i].as_str(), s) {
            return true;
        }
        i = i + 1;
    }
    false
}

/// Whether a thumbnail of this name has no wallpaper.
pub open spec fn is_orphan(images: Seq<Seq<char>>, name: Seq<char>) -> bool {
    !images.contains(name)
}

/// Whether a cached thumbnail is to be removed: its wallpaper no longer
/// exists.
pub fn is_stale(images: &Vec<String>, name: &str) -> (b: bool)
    ensures
        b == is_orphan(texts(images@), name@),
{
    !lists(images, name)
}

// ---------------------------------------------------------------- laws

/// A thumbnail that is missing is made, one that is older than its source is
/// made again, and one that is not older is kept.
pub proof fn the_cache_stays_in_step(src: Nanos, thumb: Nanos)
    ensures
        outdated(Some(src), None),
        src > thumb ==> outdated(Some(src), Some(thumb)),
        src <= thumb ==> !outdated(Some(src), Some(thumb)),
{
}

/// With an empty cache every thumbnail is made: deleting the cache is safe.
pub proof fn an_empty_cache_is_rebuilt(images: Seq<Seq<char>>, times: Seq<Times>, k: nat)
    requires
        k <= images.len() == times.len(),
        forall|i: int| 0 <= i < times.len() ==> (#[trigger] times[i]).thumb is None,
    ensures
        pending_of(images, times, k) == images.take(k as int),
    decreases k,
{
    if k > 0 {
        an_empty_cache_is_rebuilt(images, times, (k - 1) as nat);
        assert(times[k - 1].thumb is None);
        assert(images.take(k as int) =~= images.take(k - 1).push(images[k - 1]));
    } else {
        assert(images.take(0) =~= Seq::empty());
    }
}

/// What is made again is what is outdated, and nothing else: where a time is
/// not known, or the source is newer.
pub proof fn outdated_means_newer_or_unknown(src: Option<Nanos>, made: Option<Nanos>)
    ensures
        src is None || made is None ==> outdated(src, made),
        src is Some && made is Some ==> (outdated(src, made) <==> src->0 > made->0),
{
}

/// Every image whose thumbnail is outdated is pending, nothing else is, and the
/// images keep their order.
pub proof fn the_outdated_are_pending(images: Seq<Seq<char>>, times: Seq<Times>, k: nat)
    requires
        k < images.len() == times.len(),
    ensures
        pending_of(images, times, 0).len() == 0,
        times[k as int].src is Some && times[k as int].thumb is Some && times[k as int].src->0
            <= times[k as int].thumb->0 ==> pending_of(images, times, k + 1) == pending_of(
            images,
            times,
            k,
        ),
        !(times[k as int].src is Some && times[k as int].thumb is Some && times[k as int].src->0
            <= times[k as int].thumb->0) ==> pending_of(images, times, k + 1) == pending_of(
            images,
            times,
            k,
        ).push(images[k as int]),
{
}

/// A directory of one's own gets no hint; someone else's is named in it,
/// together with its owner and the way to get it back.
pub proof fn foreign_directories_are_pointed_out(found: Seq<char>, owner: u32, us: u32)
    ensures
        owner == us ==> hint(found, owner, us).len() == 0,
        owner != us ==> hint(found, owner, us) == " ('"@ + found + "' is owned by uid "@ + numeral(
            owner as nat,
        ) + ", not you -- if an earlier run used sudo by mistake, `sudo chown -R $USER: '"@ + found
            + "'` or removing it and letting walldeck recreate it should fix this)"@,
{
}

/// Work is announced with its amount, and no work is not; a failure names the
/// wallpaper and the reason.
pub proof fn work_is_announced_with_its_amount(n: nat, image: Seq<char>, e: Seq<char>)
    ensures
        announced(0) is None,
        n > 0 ==> announced(n) == Some("Generating "@ + numeral(n) + " thumbnail(s)…"@),
        failed(image, e) == "walldeck: thumbnail generation failed for "@ + image + ": "@ + e,
{
}

/// A thumbnail is kept exactly as long as there is a wallpaper of its name.
pub proof fn thumbnails_go_with_their_wallpaper(images: Seq<Seq<char>>, name: Seq<char>)
    ensures
        is_orphan(images, name) <==> forall|i: int| 0 <= i < images.len() ==> images[i] != name,
{
}

} // verus!
