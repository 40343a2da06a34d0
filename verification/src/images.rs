//! Wallpaper file names: which are offered, and what their variants are
//! called.

use vstd::prelude::*;
use crate::config::{Config, ConfigView};
use crate::order::{insert_sorted, is_sorted, sorted_is_unique};
use crate::paths::{join_path, joined, paths_are_joined_by_one_separator};
use crate::text::{
    ascii_lowercased, chars_of, concat2, copy_of, ends_with, has_suffix, last_index,
    last_index_bounds, last_index_is, rfind_char, same, string_of, texts, texts_push,
    to_ascii_lowercase,
};

verus! {

// ---------------------------------------------------------------- names

/// A name without its extension.
pub open spec fn stem(name: Seq<char>) -> Seq<char> {
    if last_index(name, '.') >= 0 {
        name.take(last_index(name, '.'))
    } else {
        name
    }
}

/// What stands behind the last dot of a name, when it has one.
pub open spec fn extension(name: Seq<char>) -> Option<Seq<char>> {
    if last_index(name, '.') >= 0 {
        Some(name.skip(last_index(name, '.') + 1))
    } else {
        None
    }
}

/// The extensions of the image formats that are supported, in lower case.
pub open spec fn is_image_extension(e: Seq<char>) -> bool {
    e == "jpg"@ || e == "jpeg"@ || e == "png"@ || e == "gif"@ || e == "bmp"@ || e == "webp"@
}

/// A name with a supported extension, in any case.
pub open spec fn is_image(name: Seq<char>) -> bool {
    match extension(name) {
        Some(e) => is_image_extension(ascii_lowercased(e)),
        None => false,
    }
}

/// A file of the secondary target: its stem ends in the suffix.
pub open spec fn is_variant(name: Seq<char>, suffix: Seq<char>) -> bool {
    has_suffix(stem(name), suffix)
}

/// The name of a wallpaper's variant: the suffix goes before the extension.
pub open spec fn variant(name: Seq<char>, suffix: Seq<char>) -> Seq<char> {
    match extension(name) {
        Some(e) => stem(name) + suffix + "."@ + e,
        None => name + suffix,
    }
}

fn stem_of(name: &str) -> (r: String)
    ensures
        r@ == stem(name@),
{
    let v: Vec<char> = chars_of(name);
    match rfind_char(&v, '.') {
        Some(k) => {
            let s: String = string_of(&v, 0, k);
            assert(s@ =~= name@.take(k as int));
            s
        },
        None => copy_of(name),
    }
}

fn extension_of(name: &str) -> (r: Option<String>)
    ensures
        crate::text::opt_text(r) == extension(name@),
{
    let v: Vec<char> = chars_of(name);
    match rfind_char(&v, '.') {
        Some(k) => {
            let end: usize = v.len();
            let s: String = string_of(&v, k + 1, end);
            assert(s@ =~= name@.skip(k + 1));
            Some(s)
        },
        None => None,
    }
}

/// Whether a file is offered at all, going by its name.
pub fn is_image_name(name: &str) -> (r: bool)
    ensures
        r == is_image(name@),
{
    match extension_of(name) {
        Some(e) => {
            let low: String = to_ascii_lowercase(e.as_str());
            let low: &str = low.as_str();
            same(low, "jpg") || same(low, "jpeg") || same(low, "png") || same(low, "gif") || same(
                low,
                "bmp",
            ) || same(low, "webp")
        },
        None => false,
    }
}

/// The extensions of the supported formats, for a message.
pub fn supported_formats() -> (r: String)
    ensures
        r@ == "jpg, jpeg, png, gif, bmp, webp"@,
{
    copy_of("jpg, jpeg, png, gif, bmp, webp")
}

// ---------------------------------------------------------------- listings

pub open spec fn image_names(names: Seq<Seq<char>>) -> Seq<Seq<char>> {
    names.filter(|n: Seq<char>| is_image(n))
}

/// The names that are offered: all but the variants. Without a suffix there
/// are no variants.
pub open spec fn originals(names: Seq<Seq<char>>, suffix: Seq<char>) -> Seq<Seq<char>> {
    if suffix.len() == 0 {
        names
    } else {
        names.filter(|n: Seq<char>| !is_variant(n, suffix))
    }
}

proof fn filter_step(s: Seq<Seq<char>>, i: int, f: spec_fn(Seq<char>) -> bool)
    requires
        0 <= i < s.len(),
    ensures
        s.take(i + 1).filter(f) == (if f(s[i]) {
            s.take(i).filter(f).push(s[i])
        } else {
            s.take(i).filter(f)
        }),
{
    reveal(Seq::filter);
    assert(s.take(i + 1).drop_last() =~= s.take(i));
    assert(s.take(i + 1).last() == s[i]);
}

/// The wallpapers among the names of a directory's files, sorted.
pub fn list_images(names: &Vec<String>) -> (r: Vec<String>)
    ensures
        is_sorted(texts(r@)),
        texts(r@).to_multiset() == image_names(texts(names@)).to_multiset(),
{
    let ghost all = texts(names@);
    let ghost f = |n: Seq<char>| is_image(n);
    let mut out: Vec<String> = Vec::new();
    let mut i: usize = 0;
    proof {
        reveal(Seq::filter);
        assert(texts(out@) =~= Seq::<Seq<char>>::empty());
        assert(all.take(0).filter(f) =~= Seq::<Seq<char>>::empty());
    }
    while i < names.len()
        invariant
            i <= names@.len(),
            all == texts(names@),
            f == (|n: Seq<char>| is_image(n)),
            is_sorted(texts(out@)),
            texts(out@).to_multiset() == all.take(i as int).filter(f).to_multiset(),
        decreases names@.len() - i,
    {
        proof {
            filter_step(all, i as int, f);
            assert(all[i as int] == names@[i as int]@);
            all.take(i as int).filter(f).to_multiset_ensures();
        }
        if is_image_name(names[i].as_str()) {
            insert_sorted(&mut out, copy_of(names[i].as_str()));
        }
        i = i + 1;
    }
    assert(all.take(i as int) =~= all);
    out
}

/// Drops secondary-target variants from a listing, so that only primary
/// wallpapers are offered. An empty suffix filters nothing.
pub fn filter_originals(images: Vec<String>, suffix: &str) -> (r: Vec<String>)
    ensures
        texts(r@) == originals(texts(images@), suffix@),
{
    if suffix.is_empty() {
        return images;
    }
    let ghost all = texts(images@);
    let ghost f = |n: Seq<char>| !is_variant(n, suffix@);
    let mut out: Vec<String> = Vec::new();
    let mut i: usize = 0;
    proof {
        reveal(Seq::filter);
        assert(texts(out@) =~= all.take(0).filter(f));
    }
    while i < images.len()
        invariant
            i <= images@.len(),
            all == texts(images@),
            f == (|n: Seq<char>| !is_variant(n, suffix@)),
            texts(out@) == all.take(i as int).filter(f),
        decreases images@.len() - i,
    {
        proof {
            filter_step(all, i as int, f);
            assert(all[i as int] == images@[i as int]@);
        }
        let s: String = stem_of(images[i].as_str());
        if !ends_with(s.as_str(), suffix) {
            let name: String = copy_of(images[i].as_str());
            proof {
                texts_push(out@, name);
            }
            out.push(name);
        }
        i = i + 1;
    }
    assert(all.take(i as int) =~= all);
    out
}

/// The secondary target's file name for a wallpaper: the suffix appended to
/// the stem.
pub fn variant_name(image: &str, suffix: &str) -> (r: String)
    ensures
        r@ == variant(image@, suffix@),
{
    match extension_of(image) {
        Some(e) => {
            let s: String = stem_of(image);
            let mut r: String = concat2(s.as_str(), suffix);
            r.append(".");
            r.append(e.as_str());
            r
        },
        None => concat2(image, suffix),
    }
}

/// The file of a wallpaper.
pub open spec fn wallpaper_file(c: ConfigView, name: Seq<char>) -> Seq<char> {
    joined(c.wallpaper_dir, name)
}

/// The file of a wallpaper's thumbnail.
pub open spec fn thumbnail_file(c: ConfigView, name: Seq<char>) -> Seq<char> {
    joined(c.cache_dir, name)
}

pub fn full_path(cfg: &Config, filename: &str) -> (r: String)
    ensures
        r@ == wallpaper_file(cfg@, filename@),
{
    join_path(cfg.wallpaper_dir.as_str(), filename)
}

pub fn thumb_path(cfg: &Config, filename: &str) -> (r: String)
    ensures
        r@ == thumbnail_file(cfg@, filename@),
{
    join_path(cfg.cache_dir.as_str(), filename)
}

// ---------------------------------------------------------------- laws

/// A listing is determined by the names in the directory, in whatever order
/// those came.
pub proof fn listing_ignores_directory_order(
    a: Seq<Seq<char>>,
    b: Seq<Seq<char>>,
    la: Seq<Seq<char>>,
    lb: Seq<Seq<char>>,
)
    requires
        image_names(a).to_multiset() == image_names(b).to_multiset(),
        is_sorted(la) && la.to_multiset() == image_names(a).to_multiset(),
        is_sorted(lb) && lb.to_multiset() == image_names(b).to_multiset(),
    ensures
        la == lb,
{
    sorted_is_unique(la, lb);
}

proof fn variant_parts(name: Seq<char>, suffix: Seq<char>)
    requires
        name.contains('.') || !suffix.contains('.'),
    ensures
        stem(variant(name, suffix)) == stem(name) + suffix,
        extension(variant(name, suffix)) == extension(name),
{
    reveal_strlit(".");
    last_index_bounds(name, '.');
    let v = variant(name, suffix);
    let k = last_index(name, '.');
    if k >= 0 {
        let e = name.skip(k + 1);
        let at = k + suffix.len();
        assert(v[at] == '.');
        assert forall|j: int| at < j < v.len() implies v[j] != '.' by {
            assert(v[j] == e[j - at - 1]);
            assert(e[j - at - 1] == name[k + 1 + j - at - 1]);
        }
        last_index_is(v, '.', at);
        assert(stem(v) =~= stem(name) + suffix);
        assert(v.skip(at + 1) =~= e);
    } else {
        assert forall|j: int| -1 < j < v.len() implies v[j] != '.' by {
            if j < name.len() {
                assert(v[j] == name[j]);
            } else {
                assert(v[j] == suffix[j - name.len()]);
                assert(suffix.contains(suffix[j - name.len()]));
            }
        }
        assert(!name.contains('.')) by {
            assert forall|j: int| 0 <= j < name.len() implies name[j] != '.' by {}
        }
        last_index_is(v, '.', -1);
    }
}

/// The variant of a wallpaper is recognized as one, so the picker never
/// offers it. (A dot in the suffix of a name without one would start an
/// extension instead.)
pub proof fn variants_are_recognized(name: Seq<char>, suffix: Seq<char>)
    requires
        name.contains('.') || !suffix.contains('.'),
    ensures
        is_variant(variant(name, suffix), suffix),
{
    variant_parts(name, suffix);
    assert((stem(name) + suffix).skip(stem(name).len() as int) =~= suffix);
}

/// A variant keeps the extension of its wallpaper, so it is an image exactly
/// when the wallpaper is one.
pub proof fn variants_keep_the_format(name: Seq<char>, suffix: Seq<char>)
    requires
        name.contains('.') || !suffix.contains('.'),
    ensures
        is_image(variant(name, suffix)) == is_image(name),
{
    variant_parts(name, suffix);
}

/// A variant never has the name of its own wallpaper.
pub proof fn variants_have_their_own_name(name: Seq<char>, suffix: Seq<char>)
    requires
        suffix.len() > 0,
    ensures
        variant(name, suffix) != name,
{
    reveal_strlit(".");
    last_index_bounds(name, '.');
    assert(variant(name, suffix).len() == name.len() + suffix.len());
}

/// Different wallpapers have different variants.
pub proof fn variants_are_distinct(a: Seq<char>, b: Seq<char>, suffix: Seq<char>)
    requires
        !suffix.contains('.'),
        variant(a, suffix) == variant(b, suffix),
    ensures
        a == b,
{
    reveal_strlit(".");
    variant_parts(a, suffix);
    variant_parts(b, suffix);
    last_index_bounds(a, '.');
    last_index_bounds(b, '.');
    let sa = stem(a);
    let sb = stem(b);
    assert(sa + suffix == sb + suffix);
    assert((sa + suffix).len() == (sb + suffix).len());
    assert forall|i: int| 0 <= i < sa.len() implies sa[i] == sb[i] by {
        assert((sa + suffix)[i] == (sb + suffix)[i]);
    }
    assert(sa =~= sb);
    let ka = last_index(a, '.');
    let kb = last_index(b, '.');
    if ka >= 0 {
        assert(a =~= sa + seq!['.'] + a.skip(ka + 1));
        assert(b =~= sb + seq!['.'] + b.skip(kb + 1));
    }
}

/// What is offered holds no variant, and filtering it again drops nothing.
pub proof fn nothing_offered_is_a_variant(names: Seq<Seq<char>>, suffix: Seq<char>)
    requires
        suffix.len() > 0,
    ensures
        forall|i: int|
            0 <= i < originals(names, suffix).len() ==> !is_variant(
                #[trigger] originals(names, suffix)[i],
                suffix,
            ),
        originals(originals(names, suffix), suffix) == originals(names, suffix),
    decreases names.len(),
{
    reveal(Seq::filter);
    if names.len() > 0 {
        let f = |n: Seq<char>| !is_variant(n, suffix);
        let rest = names.drop_last();
        nothing_offered_is_a_variant(rest, suffix);
        let o = originals(names, suffix);
        if f(names.last()) {
            assert(o == originals(rest, suffix).push(names.last()));
            assert(o.drop_last() =~= originals(rest, suffix));
            assert forall|i: int| 0 <= i < o.len() implies !is_variant(#[trigger] o[i], suffix) by {
                if i < o.len() - 1 {
                    assert(o[i] == originals(rest, suffix)[i]);
                }
            }
        }
    }
}

/// A name has a stem and an extension, parted by its last dot; its variant has
/// the suffix between them. A name without a dot is all stem.
pub proof fn names_have_parts(s: Seq<char>, e: Seq<char>, suffix: Seq<char>)
    requires
        !e.contains('.'),
    ensures
        stem(s + seq!['.'] + e) == s,
        extension(s + seq!['.'] + e) == Some(e),
        variant(s + seq!['.'] + e, suffix) == s + suffix + seq!['.'] + e,
        stem(e) == e,
        extension(e) is None,
        variant(e, suffix) == e + suffix,
        !is_image(e),
{
    reveal_strlit(".");
    let name = s + seq!['.'] + e;
    let k = s.len() as int;
    assert(name[k] == '.');
    assert forall|j: int| k < j < name.len() implies name[j] != '.' by {
        assert(name[j] == e[j - k - 1]);
        assert(e.contains(e[j - k - 1]));
    }
    last_index_is(name, '.', k);
    assert(name.take(k) =~= s);
    assert(name.skip(k + 1) =~= e);
    assert("."@ =~= seq!['.']);
    assert forall|j: int| -1 < j < e.len() implies e[j] != '.' by {
        assert(e.contains(e[j]));
    }
    last_index_is(e, '.', -1);
}

/// A file is a wallpaper when its extension is that of a supported format, in
/// whatever case.
pub proof fn images_go_by_their_extension(s: Seq<char>, e: Seq<char>)
    requires
        !e.contains('.'),
    ensures
        is_image(s + seq!['.'] + e) <==> {
            let low = ascii_lowercased(e);
            low == "jpg"@ || low == "jpeg"@ || low == "png"@ || low == "gif"@ || low == "bmp"@
                || low == "webp"@
        },
        is_image(s + seq!['.'] + e) == is_image(seq!['.'] + ascii_lowercased(e)),
{
    names_have_parts(s, e, Seq::empty());
    let l = ascii_lowercased(e);
    assert forall|j: int| 0 <= j < l.len() implies l[j] != '.' by {
        assert(e.contains(e[j]));
    }
    names_have_parts(Seq::empty(), l, Seq::empty());
    assert(Seq::<char>::empty() + seq!['.'] + l =~= seq!['.'] + l);
    assert(ascii_lowercased(l) =~= l);
}

/// A file is a variant exactly when its stem ends in the suffix.
pub proof fn variants_go_by_their_stem(s: Seq<char>, e: Seq<char>, suffix: Seq<char>)
    requires
        !e.contains('.'),
    ensures
        is_variant(s + seq!['.'] + e, suffix) <==> suffix.len() <= s.len() && s.skip(
            s.len() - suffix.len(),
        ) == suffix,
        is_variant(s + suffix + seq!['.'] + e, suffix),
{
    names_have_parts(s, e, suffix);
    names_have_parts(s + suffix, e, suffix);
    assert((s + suffix).skip(s.len() as int) =~= suffix);
}

proof fn filtering_keeps_what_it_should(
    s: Seq<Seq<char>>,
    f: spec_fn(Seq<char>) -> bool,
    n: Seq<char>,
)
    ensures
        s.filter(f).contains(n) <==> s.contains(n) && f(n),
    decreases s.len(),
{
    reveal(Seq::filter);
    if s.len() > 0 {
        let t = s.drop_last();
        filtering_keeps_what_it_should(t, f, n);
        let out = t.filter(f);
        if f(s.last()) {
            let all = out.push(s.last());
            if all.contains(n) {
                let i = choose|i: int| 0 <= i < all.len() && all[i] == n;
                if i < out.len() {
                    assert(out[i] == n);
                }
            }
            if out.contains(n) {
                let i = choose|i: int| 0 <= i < out.len() && out[i] == n;
                assert(all[i] == n);
            }
            assert(all[all.len() - 1] == s.last());
        }
        if t.contains(n) {
            let i = choose|i: int| 0 <= i < t.len() && t[i] == n;
            assert(s[i] == n);
        }
        if s.contains(n) {
            let i = choose|i: int| 0 <= i < s.len() && s[i] == n;
            if i < t.len() {
                assert(t[i] == n);
            }
        }
        assert(s[s.len() - 1] == s.last());
    }
}

/// A listing holds the images among a directory's files, and what is offered of
/// it are those that are no variants; without a suffix everything is offered.
pub proof fn what_is_listed_and_offered(
    names: Seq<Seq<char>>,
    listing: Seq<Seq<char>>,
    suffix: Seq<char>,
    n: Seq<char>,
)
    requires
        listing.to_multiset() == image_names(names).to_multiset(),
    ensures
        listing.contains(n) <==> names.contains(n) && is_image(n),
        originals(listing, suffix).contains(n) <==> names.contains(n) && is_image(n) && (suffix.len()
            == 0 || !is_variant(n, suffix)),
{
    filtering_keeps_what_it_should(names, |m: Seq<char>| is_image(m), n);
    filtering_keeps_what_it_should(listing, |m: Seq<char>| !is_variant(m, suffix), n);
    listing.to_multiset_ensures();
    image_names(names).to_multiset_ensures();
    assert(listing.contains(n) <==> listing.to_multiset().count(n) > 0);
    assert(image_names(names).contains(n) <==> image_names(names).to_multiset().count(n) > 0);
}

/// A wallpaper lies in the wallpaper directory and its thumbnail in the cache,
/// both under the wallpaper's own name.
pub proof fn files_lie_in_their_directory(c: ConfigView, name: Seq<char>)
    requires
        name.len() > 0,
        name[0] != '/',
    ensures
        c.wallpaper_dir.len() > 0 && c.wallpaper_dir.last() != '/' ==> wallpaper_file(c, name)
            == c.wallpaper_dir + seq!['/'] + name,
        c.cache_dir.len() > 0 && c.cache_dir.last() != '/' ==> thumbnail_file(c, name)
            == c.cache_dir + seq!['/'] + name,
{
    paths_are_joined_by_one_separator(c.wallpaper_dir, name);
    paths_are_joined_by_one_separator(c.cache_dir, name);
}

} // verus!
