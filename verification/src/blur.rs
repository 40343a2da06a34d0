//! Blurred copies for the secondary target, made for wallpapers that have no
//! variant of their own.
//!
//! Copies are cached in a directory of their own, keyed by the variant's
//! filename, and made again only when the source changes. A real variant
//! always wins: a copy is removed as soon as one appears.

use vstd::prelude::*;
use crate::config::{Config, ConfigView};
use crate::images::{variant, variant_name};
use crate::paths::{join_path, joined};
use crate::text::{same, texts};
use crate::thumbnails::{needs_thumb, outdated, Nanos};

verus! {

/// The directory of the blurred copies.
pub fn blurred_dir(cfg: &Config) -> (r: String)
    ensures
        r@ == joined(cfg@.cache_dir, "blurred"@),
{
    join_path(cfg.cache_dir.as_str(), "blurred")
}

/// The blurred copy that stands in for a variant.
pub open spec fn copy_path(c: ConfigView, name: Seq<char>) -> Seq<char> {
    joined(joined(c.cache_dir, "blurred"@), name)
}

pub fn cached_copy(cfg: &Config, name: &str) -> (r: String)
    ensures
        r@ == copy_path(cfg@, name@),
{
    join_path(blurred_dir(cfg).as_str(), name)
}

/// Whether a copy has to be made, or made again, by the times of the two
/// files' last changes: the policy of the thumbnails.
pub fn needs_regen(src: Option<Nanos>, cached: Option<Nanos>) -> (b: bool)
    ensures
        b == outdated(src, cached),
{
    needs_thumb(src, cached)
}

/// Whether some original has this name for its variant.
pub open spec fn has_source(originals: Seq<Seq<char>>, suffix: Seq<char>, name: Seq<char>) -> bool {
    exists|i: int| 0 <= i < originals.len() && variant(#[trigger] originals[i], suffix) == name
}

/// Whether a copy of this name is of no use any more.
pub open spec fn is_stale_copy(
    originals: Seq<Seq<char>>,
    suffix: Seq<char>,
    name: Seq<char>,
    real_variant: bool,
) -> bool {
    !has_source(originals, suffix, name) || real_variant
}

/// Whether a copy is to be removed: the wallpaper it was made from is gone, or
/// a real variant is there.
pub fn is_stale(originals: &Vec<String>, suffix: &str, name: &str, real_variant: bool) -> (b: bool)
    ensures
        b == is_stale_copy(texts(originals@), suffix@, name@, real_variant),
{
    if real_variant {
        return true;
    }
    let mut i: usize = 0;
    while i < originals.len()
        invariant
            !real_variant,
            i <= originals@.len(),
            forall|k: int|
                0 <= k < i ==> variant(#[trigger] texts(originals@)[k], suffix@) != name@,
        decreases originals@.len() - i,
    {
        assert(texts(originals@)[i as int] == originals@[i as int]@);
        if same(variant_name(originals[i].as_str(), suffix).as_str(), name) {
            return false;
        }
        i = i + 1;
    }
    true
}

// ---------------------------------------------------------------- laws

/// A copy made for a wallpaper that is offered is kept, until a real variant
/// appears.
pub proof fn copies_in_use_are_kept(originals: Seq<Seq<char>>, suffix: Seq<char>, i: int)
    requires
        0 <= i < originals.len(),
    ensures
        has_source(originals, suffix, variant(originals[i], suffix)),
{
}

/// A copy lies in the cache's own directory for copies, under the variant's
/// name.
pub proof fn copies_lie_in_the_cache(c: ConfigView, name: Seq<char>)
    requires
        name.len() > 0 ==> name[0] != '/',
    ensures
        copy_path(c, name) == joined(c.cache_dir, "blurred"@) + "/"@ + name,
{
    reveal_strlit("blurred");
    reveal_strlit("/");
    assert(joined(c.cache_dir, "blurred"@).last() == 'd');
}

/// A copy is kept exactly as long as some wallpaper has its name for its variant
/// and no real variant is there.
pub proof fn copies_go_when_they_are_of_no_use(
    originals: Seq<Seq<char>>,
    suffix: Seq<char>,
    name: Seq<char>,
)
    ensures
        is_stale_copy(originals, suffix, name, true),
        is_stale_copy(originals, suffix, name, false) <==> forall|i: int|
            0 <= i < originals.len() ==> variant(#[trigger] originals[i], suffix) != name,
{
}

/// A copy is kept beside the thumbnails, in a directory of its own.
pub proof fn copies_have_their_own_directory(c: ConfigView, name: Seq<char>)
    requires
        name.len() > 0,
        name[0] != '/',
        c.cache_dir.len() > 0,
        c.cache_dir.last() != '/',
    ensures
        copy_path(c, name) == c.cache_dir + "/"@ + "blurred"@ + "/"@ + name,
{
    reveal_strlit("blurred");
    copies_lie_in_the_cache(c, name);
}

} // verus!
