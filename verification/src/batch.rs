//! The decisions of muxing a whole directory: which files are images and videos, how
//! they pair up, and where an already-muxed output would be.

use vstd::prelude::*;

use crate::error::LiveMuxError;
use crate::muxer::MuxerConfig;
use crate::path::{
    ascending, lemma_insert_keeps_ascending, path_order, spec_path_order, PathOrder,
    opt_text, path_extension, path_file_name, path_file_stem, path_join, spec_extension,
    spec_file_name, spec_file_stem, spec_join, spec_to_lowercase, text_or_empty, to_lowercase,
};
use crate::text::{chars_equal, chars_of, string_from_chars};
use crate::utils::{enrich_fname, enriched_path, get_content_id, lookup_field, FileMetadata};

verus! {

/// Extensions (lowercase) of images.
pub open spec fn image_extensions() -> Seq<Seq<char>> {
    seq!["heic"@, "heif"@, "avif"@, "jpg"@, "jpeg"@]
}

/// Extensions (lowercase) of videos.
pub open spec fn video_extensions() -> Seq<Seq<char>> {
    seq!["mov"@, "mp4"@]
}

/// The path's extension, lowercased, is one of `exts`.
pub open spec fn has_extension_in(path: Seq<char>, exts: Seq<Seq<char>>) -> bool {
    match spec_extension(path) {
        Some(e) => exts.contains(spec_to_lowercase(e)),
        None => false,
    }
}

/// Is `ext` one of `names`?
fn ext_in(ext: &[char], names: &[&str]) -> (b: bool)
    ensures
        b == names@.map_values(|n: &str| n@).contains(ext@),
{
    let ghost views = names@.map_values(|n: &str| n@);
    let mut i: usize = 0;
    while i < names.len()
        invariant
            i <= names@.len(),
            views == names@.map_values(|n: &str| n@),
            forall|j: int| 0 <= j < i ==> views[j] != ext@,
        decreases names@.len() - i,
    {
        if chars_equal(ext, &chars_of(names[i])) {
            assert(views[i as int] == ext@);
            return true;
        }
        i += 1;
    }
    false
}

/// An image extension (as lowercase): heic, heif, avif, jpg or jpeg.
pub fn is_image_extension(ext: &str) -> (b: bool)
    ensures
        b == image_extensions().contains(ext@),
{
    let names = ["heic", "heif", "avif", "jpg", "jpeg"];
    let r = ext_in(&chars_of(ext), &names);
    assert(names@.map_values(|n: &str| n@) =~= image_extensions());
    r
}

/// A video extension (as lowercase): mov or mp4.
pub fn is_video_extension(ext: &str) -> (b: bool)
    ensures
        b == video_extensions().contains(ext@),
{
    let names = ["mov", "mp4"];
    let r = ext_in(&chars_of(ext), &names);
    assert(names@.map_values(|n: &str| n@) =~= video_extensions());
    r
}

/// The file is an image (heic, heif, avif, jpg, jpeg; any case).
pub fn is_image(path: &str) -> (b: bool)
    ensures
        b == has_extension_in(path@, image_extensions()),
{
    match path_extension(path) {
        Some(e) => is_image_extension(to_lowercase(e.as_str()).as_str()),
        None => false,
    }
}

/// The file is a video (mov, mp4; any case).
pub fn is_video(path: &str) -> (b: bool)
    ensures
        b == has_extension_in(path@, video_extensions()),
{
    match path_extension(path) {
        Some(e) => is_video_extension(to_lowercase(e.as_str()).as_str()),
        None => false,
    }
}

/// Settings for muxing a directory.
pub struct BatchConfig {
    pub directory: String,
    pub output_dir: Option<String>,
    pub recursive: bool,
    pub exif_match: bool,
    pub incremental: bool,
    pub copy_unmuxed: bool,
    pub delete_video: bool,
    pub delete_temp: bool,
    pub overwrite: bool,
}

/// Progress report for one processed pair.
pub struct BatchProgress {
    pub current: usize,
    pub total: usize,
    pub file: String,
    pub success: bool,
    pub error: Option<String>,
}

/// Refuses settings that cannot go together: overwriting the images while writing to an
/// output directory.
pub fn check_batch_config(config: &BatchConfig) -> (r: Result<(), LiveMuxError>)
    ensures
        r is Ok <==> !(config.overwrite && config.output_dir is Some),
        r matches Err(e) ==> (e matches LiveMuxError::ArgConflict(m) && m@
            == "--overwrite cannot be used with --output-dir"@),
{
    if config.overwrite && config.output_dir.is_some() {
        return Err(
            LiveMuxError::ArgConflict(
                string_from_chars(&chars_of("--overwrite cannot be used with --output-dir")),
            ),
        );
    }
    Ok(())
}

/// Where the output for `image` goes under these settings (what an incremental run checks).
pub open spec fn batch_output_path(config: BatchConfig, image: Seq<char>) -> Seq<char> {
    match config.output_dir {
        Some(dir) => spec_join(dir@, text_or_empty(spec_file_name(image))),
        None => if config.overwrite {
            image
        } else {
            enriched_path(image, "LIVE"@)
        },
    }
}

/// The output path for `image`: into the output directory under its file name, over the
/// image itself, or next to it as `<name>.LIVE.<ext>`. None when an output directory is
/// set and `image` has no file name to put there.
pub fn incremental_output_path(config: &BatchConfig, image: &str) -> (r: Option<String>)
    ensures
        r is None <==> (config.output_dir is Some && spec_file_name(image@) is None),
        r matches Some(p) ==> p@ == batch_output_path(*config, image@),
{
    match &config.output_dir {
        Some(out_dir) => {
            let name = match path_file_name(image) {
                Some(n) => n,
                None => return None,
            };
            Some(path_join(out_dir.as_str(), name.as_str()))
        },
        None => if config.overwrite {
            Some(string_from_chars(&chars_of(image)))
        } else {
            Some(enrich_fname(image, "LIVE"))
        },
    }
}

// ---------------------------------------------------------------------------------------
// Pairing

/// A file under the key it is paired by: `(key, path)`.
pub type Keyed = Seq<(Seq<char>, Seq<char>)>;

/// An exec list of keyed files read as a list of character sequences.
pub open spec fn keyed_view(v: Seq<(String, String)>) -> Keyed {
    Seq::new(v.len(), |i: int| (v[i].0@, v[i].1@))
}

/// The path last listed under `key` (a map filled in order keeps the last one).
pub open spec fn last_with_key(entries: Keyed, key: Seq<char>) -> Option<Seq<char>>
    decreases entries.len(),
{
    if entries.len() == 0 {
        None
    } else if entries.last().0 == key {
        Some(entries.last().1)
    } else {
        last_with_key(entries.drop_last(), key)
    }
}

/// Entry `i` is the last one with its key.
pub open spec fn is_last_of_key(entries: Keyed, i: int) -> bool {
    forall|j: int| i < j < entries.len() ==> entries[j].0 != entries[i].0
}

/// The pairs among the first `n` images: each image that is the last under its key, with
/// the last video under the same key, in the images' order.
pub open spec fn pairs_upto(images: Keyed, videos: Keyed, n: int) -> Seq<(Seq<char>, Seq<char>)>
    decreases n,
{
    if n <= 0 {
        Seq::empty()
    } else {
        let rest = pairs_upto(images, videos, n - 1);
        match last_with_key(videos, images[n - 1].0) {
            Some(v) => if is_last_of_key(images, n - 1) {
                rest.push((images[n - 1].1, v))
            } else {
                rest
            },
            None => rest,
        }
    }
}

/// The image/video pairs: an image and a video pair up when they share a key; under each
/// key the last image and the last video count.
pub open spec fn pairs_by_key(images: Keyed, videos: Keyed) -> Seq<(Seq<char>, Seq<char>)> {
    pairs_upto(images, videos, images.len() as int)
}

/// The path last listed under `key`.
fn find_last_with_key(entries: &Vec<(String, String)>, key: &[char]) -> (r: Option<String>)
    ensures
        opt_text(r) == last_with_key(keyed_view(entries@), key@),
{
    let ghost kv = keyed_view(entries@);
    let mut k: usize = entries.len();
    assert(kv.take(k as int) =~= kv);
    while k > 0
        invariant
            k <= entries@.len(),
            kv == keyed_view(entries@),
            last_with_key(kv, key@) == last_with_key(kv.take(k as int), key@),
        decreases k,
    {
        assert(kv.take(k as int).last() == kv[k - 1]);
        assert(kv.take(k as int).drop_last() =~= kv.take(k - 1));
        if chars_equal(&chars_of(entries[k - 1].0.as_str()), key) {
            return Some(entries[k - 1].1.clone());
        }
        k -= 1;
    }
    None
}

/// Is entry `i` the last one with its key?
fn is_last_key_at(entries: &Vec<(String, String)>, i: usize) -> (b: bool)
    requires
        i < entries@.len(),
    ensures
        b == is_last_of_key(keyed_view(entries@), i as int),
{
    let ghost kv = keyed_view(entries@);
    let key = chars_of(entries[i].0.as_str());
    let len = entries.len();
    let mut j: usize = i + 1;
    while j < entries.len()
        invariant
            i < j <= entries@.len(),
            kv == keyed_view(entries@),
            key@ == kv[i as int].0,
            forall|m: int| i < m < j ==> kv[m].0 != kv[i as int].0,
        decreases entries@.len() - j,
    {
        if chars_equal(&chars_of(entries[j].0.as_str()), &key) {
            assert(kv[j as int].0 == kv[i as int].0);
            return false;
        }
        j += 1;
    }
    true
}

/// Pairs images with videos that share a key (`(key, path)` entries, in listing order):
/// under each key the last image and the last video count; pairs come in the images' order.
pub fn pair_by_key(images: &Vec<(String, String)>, videos: &Vec<(String, String)>) -> (r: Vec<
    (String, String),
>)
    ensures
        keyed_view(r@) == pairs_by_key(keyed_view(images@), keyed_view(videos@)),
{
    let ghost iv = keyed_view(images@);
    let ghost vv = keyed_view(videos@);
    let mut pairs: Vec<(String, String)> = Vec::new();
    let mut n: usize = 0;
    assert(keyed_view(pairs@) =~= pairs_upto(iv, vv, 0));
    while n < images.len()
        invariant
            n <= images@.len(),
            iv == keyed_view(images@),
            vv == keyed_view(videos@),
            keyed_view(pairs@) == pairs_upto(iv, vv, n as int),
        decreases images@.len() - n,
    {
        let key = chars_of(images[n].0.as_str());
        if let Some(video) = find_last_with_key(videos, &key) {
            if is_last_key_at(images, n) {
                let ghost before = pairs@;
                pairs.push((images[n].1.clone(), video));
                assert(keyed_view(pairs@) =~= keyed_view(before).push((iv[n as int].1, video@)));
            }
        }
        n += 1;
    }
    pairs
}

/// The key a file is paired by under filename matching: its stem, lowercased.
pub fn filename_key(path: &str) -> (r: String)
    ensures
        r@ == spec_to_lowercase(text_or_empty(spec_file_stem(path@))),
{
    let stem = match path_file_stem(path) {
        Some(s) => s,
        None => String::new(),
    };
    to_lowercase(stem.as_str())
}

/// Files keyed for filename matching: images and videos (others left out), each under its
/// lowercased stem, in listing order.
pub open spec fn keyed_by_filename(files: Seq<Seq<char>>, images: bool) -> Keyed
    decreases files.len(),
{
    if files.len() == 0 {
        Seq::empty()
    } else {
        let rest = keyed_by_filename(files.drop_last(), images);
        let f = files.last();
        let entry = (spec_to_lowercase(text_or_empty(spec_file_stem(f))), f);
        let is_img = has_extension_in(f, image_extensions());
        let is_vid = has_extension_in(f, video_extensions());
        if images && is_img || !images && !is_img && is_vid {
            rest.push(entry)
        } else {
            rest
        }
    }
}

/// Splits the listed files into images and videos keyed by lowercased stem.
pub fn classify_by_filename(files: &Vec<String>) -> (r: (Vec<(String, String)>, Vec<(String, String)>))
    ensures
        keyed_view(r.0@) == keyed_by_filename(files@.map_values(|f: String| f@), true),
        keyed_view(r.1@) == keyed_by_filename(files@.map_values(|f: String| f@), false),
{
    let ghost fv = files@.map_values(|f: String| f@);
    let mut images: Vec<(String, String)> = Vec::new();
    let mut videos: Vec<(String, String)> = Vec::new();
    let mut i: usize = 0;
    assert(keyed_view(images@) =~= Seq::<(Seq<char>, Seq<char>)>::empty());
    assert(keyed_view(videos@) =~= Seq::<(Seq<char>, Seq<char>)>::empty());
    while i < files.len()
        invariant
            i <= files@.len(),
            fv == files@.map_values(|f: String| f@),
            keyed_view(images@) == keyed_by_filename(fv.take(i as int), true),
            keyed_view(videos@) == keyed_by_filename(fv.take(i as int), false),
        decreases files@.len() - i,
    {
        assert(fv.take(i + 1).drop_last() =~= fv.take(i as int));
        assert(fv.take(i + 1).last() == files@[i as int]@);
        let path = files[i].as_str();
        let ghost old_i = images@;
        let ghost old_v = videos@;
        let key = filename_key(path);
        if is_image(path) {
            images.push((key, files[i].clone()));
            assert(keyed_view(images@) =~= keyed_view(old_i).push((key@, files@[i as int]@)));
        } else if is_video(path) {
            videos.push((key, files[i].clone()));
            assert(keyed_view(videos@) =~= keyed_view(old_v).push((key@, files@[i as int]@)));
        }
        i += 1;
    }
    assert(fv.take(files@.len() as int) =~= fv);
    (images, videos)
}

/// Files keyed for EXIF matching: images under `MakerNotes:ContentIdentifier`, videos
/// under `QuickTime:ContentIdentifier`; files without one are left out.
pub open spec fn keyed_by_exif(
    files: Seq<Seq<char>>,
    metas: Seq<FileMetadata>,
    images: bool,
) -> Keyed
    decreases files.len() + metas.len(),
{
    if files.len() == 0 || metas.len() == 0 {
        Seq::empty()
    } else if files.len() > metas.len() {
        keyed_by_exif(files.take(metas.len() as int), metas, images)
    } else if metas.len() > files.len() {
        keyed_by_exif(files, metas.take(files.len() as int), images)
    } else {
        let rest = keyed_by_exif(files.drop_last(), metas.drop_last(), images);
        let f = files.last();
        let m = metas.last();
        let is_img = has_extension_in(f, image_extensions());
        let is_vid = has_extension_in(f, video_extensions());
        if images && is_img {
            match lookup_field(m.fields(), "MakerNotes:ContentIdentifier"@) {
                Some(id) => rest.push((id, f)),
                None => rest,
            }
        } else if !images && !is_img && is_vid {
            match lookup_field(m.fields(), "QuickTime:ContentIdentifier"@) {
                Some(id) => rest.push((id, f)),
                None => rest,
            }
        } else {
            rest
        }
    }
}

/// Splits the listed files into images and videos keyed by their content identifiers,
/// reading each file's metadata record (files and records matched in order).
pub fn classify_by_exif(files: &Vec<String>, metas: &Vec<FileMetadata>) -> (r: (
    Vec<(String, String)>,
    Vec<(String, String)>,
))
    ensures
        keyed_view(r.0@) == keyed_by_exif(files@.map_values(|f: String| f@), metas@, true),
        keyed_view(r.1@) == keyed_by_exif(files@.map_values(|f: String| f@), metas@, false),
{
    let ghost fv = files@.map_values(|f: String| f@);
    let n = if files.len() < metas.len() {
        files.len()
    } else {
        metas.len()
    };
    let mut images: Vec<(String, String)> = Vec::new();
    let mut videos: Vec<(String, String)> = Vec::new();
    let mut i: usize = 0;
    assert(keyed_view(images@) =~= Seq::<(Seq<char>, Seq<char>)>::empty());
    assert(keyed_view(videos@) =~= Seq::<(Seq<char>, Seq<char>)>::empty());
    while i < n
        invariant
            i <= n,
            n <= files@.len(),
            n <= metas@.len(),
            n == files@.len() || n == metas@.len(),
            fv == files@.map_values(|f: String| f@),
            keyed_view(images@) == keyed_by_exif(fv.take(i as int), metas@.take(i as int), true),
            keyed_view(videos@) == keyed_by_exif(fv.take(i as int), metas@.take(i as int), false),
        decreases n - i,
    {
        assert(fv.take(i + 1).drop_last() =~= fv.take(i as int));
        assert(metas@.take(i + 1).drop_last() =~= metas@.take(i as int));
        assert(fv.take(i + 1).last() == files@[i as int]@);
        assert(metas@.take(i + 1).last() == metas@[i as int]);
        let path = files[i].as_str();
        let ghost old_i = images@;
        let ghost old_v = videos@;
        if is_image(path) {
            if let Some(id) = get_content_id(&metas[i], "MakerNotes:ContentIdentifier") {
                images.push((id, files[i].clone()));
                assert(keyed_view(images@) =~= keyed_view(old_i).push((id@, files@[i as int]@)));
            }
        } else if is_video(path) {
            if let Some(id) = get_content_id(&metas[i], "QuickTime:ContentIdentifier") {
                videos.push((id, files[i].clone()));
                assert(keyed_view(videos@) =~= keyed_view(old_v).push((id@, files@[i as int]@)));
            }
        }
        i += 1;
    }
    proof {
        lemma_keyed_by_exif_truncate(fv, metas@, n as int);
    }
    (images, videos)
}

/// The image paths of keyed pairs.
pub open spec fn image_paths(pairs: Keyed) -> Seq<Seq<char>> {
    Seq::new(pairs.len(), |i: int| pairs[i].0)
}

/// The pairs ordered by image path (pairs with equal paths kept in the order given), as
/// sorting them by `PathBuf` does.
pub fn sort_pairs_by_image(pairs: Vec<(String, String)>) -> (r: Vec<(String, String)>)
    ensures
        keyed_view(r@).to_multiset() == keyed_view(pairs@).to_multiset(),
        ascending(image_paths(keyed_view(r@))),
{
    let ghost pv = keyed_view(pairs@);
    let mut out: Vec<(String, String)> = Vec::new();
    let mut n: usize = 0;
    assert(pv.take(0) =~= Seq::<(Seq<char>, Seq<char>)>::empty());
    assert(keyed_view(out@) =~= Seq::<(Seq<char>, Seq<char>)>::empty());
    while n < pairs.len()
        invariant
            n <= pairs@.len(),
            pv == keyed_view(pairs@),
            keyed_view(out@).to_multiset() == pv.take(n as int).to_multiset(),
            ascending(image_paths(keyed_view(out@))),
        decreases pairs@.len() - n,
    {
        let x = (pairs[n].0.clone(), pairs[n].1.clone());
        let mut k: usize = out.len();
        loop
            invariant
                k <= out@.len(),
                x.0@ == pv[n as int].0,
                x.1@ == pv[n as int].1,
                k < out@.len() ==> spec_path_order(x.0@, out@[k as int].0@) == PathOrder::Less,
            ensures
                k <= out@.len(),
                k < out@.len() ==> spec_path_order(x.0@, out@[k as int].0@) == PathOrder::Less,
                k > 0 ==> spec_path_order(out@[k - 1].0@, x.0@) != PathOrder::Greater,
            decreases k,
        {
            if k == 0 {
                break;
            }
            let o = path_order(x.0.as_str(), out[k - 1].0.as_str());
            if o != PathOrder::Less {
                break;
            }
            k -= 1;
        }
        let ghost before = out@;
        out.insert(k, x);
        proof {
            let bv = keyed_view(before);
            let ov = keyed_view(out@);
            assert(ov =~= bv.insert(k as int, pv[n as int]));
            vstd::seq_lib::to_multiset_insert(bv, k as int, pv[n as int]);
            assert(pv.take(n + 1) =~= pv.take(n as int).push(pv[n as int]));
            vstd::seq_lib::to_multiset_build(pv.take(n as int), pv[n as int]);
            assert(image_paths(ov) =~= image_paths(bv).insert(k as int, pv[n as int].0));
            lemma_insert_keeps_ascending(image_paths(bv), k as int, pv[n as int].0);
        }
        n += 1;
    }
    assert(pv.take(pairs@.len() as int) =~= pv);
    out
}

/// The image/video pairs among the listed files, matched by filename (lowercased stem),
/// ordered by image path.
pub fn find_pairs_by_filename(files: &Vec<String>) -> (r: Vec<(String, String)>)
    ensures
        ({
            let fv = files@.map_values(|f: String| f@);
            keyed_view(r@).to_multiset() == pairs_by_key(
                keyed_by_filename(fv, true),
                keyed_by_filename(fv, false),
            ).to_multiset()
        }),
        ascending(image_paths(keyed_view(r@))),
{
    let (images, videos) = classify_by_filename(files);
    sort_pairs_by_image(pair_by_key(&images, &videos))
}

/// The image/video pairs among the listed files, matched by content identifier from their
/// metadata records (matched to the files in order), ordered by image path.
pub fn find_pairs_by_exif(files: &Vec<String>, metas: &Vec<FileMetadata>) -> (r: Vec<(String, String)>)
    ensures
        ({
            let fv = files@.map_values(|f: String| f@);
            keyed_view(r@).to_multiset() == pairs_by_key(
                keyed_by_exif(fv, metas@, true),
                keyed_by_exif(fv, metas@, false),
            ).to_multiset()
        }),
        ascending(image_paths(keyed_view(r@))),
{
    let (images, videos) = classify_by_exif(files, metas);
    sort_pairs_by_image(pair_by_key(&images, &videos))
}

/// Records and files beyond the shorter list are not read.
proof fn lemma_keyed_by_exif_truncate(files: Seq<Seq<char>>, metas: Seq<FileMetadata>, n: int)
    requires
        n <= files.len(),
        n <= metas.len(),
        n == files.len() || n == metas.len(),
    ensures
        keyed_by_exif(files, metas, true) == keyed_by_exif(files.take(n), metas.take(n), true),
        keyed_by_exif(files, metas, false) == keyed_by_exif(files.take(n), metas.take(n), false),
{
    if n == files.len() {
        assert(files.take(n) =~= files);
        if metas.len() > n {
            assert(metas.take(n).len() == n);
        } else {
            assert(metas.take(n) =~= metas);
        }
    } else {
        assert(metas.take(n) =~= metas);
    }
}

} // verus!

verus! {

/// The entry `last_with_key` returns is the last one listed under the key.
proof fn lemma_last_with_key_entry(entries: Keyed, k: Seq<char>)
    ensures
        last_with_key(entries, k) matches Some(p) ==> exists|m: int|
            0 <= m < entries.len() && #[trigger] entries[m] == (k, p) && is_last_of_key(entries, m),
        last_with_key(entries, k) is None ==> forall|m: int| 0 <= m < entries.len() ==> (
        #[trigger] entries[m]).0 != k,
    decreases entries.len(),
{
    if entries.len() > 0 {
        let prefix = entries.drop_last();
        lemma_last_with_key_entry(prefix, k);
        if entries.last().0 == k {
            let m = entries.len() - 1;
            assert(entries[m] == (k, entries.last().1));
            assert(is_last_of_key(entries, m));
        } else if let Some(p) = last_with_key(prefix, k) {
            let m = choose|m: int|
                0 <= m < prefix.len() && #[trigger] prefix[m] == (k, p) && is_last_of_key(prefix, m);
            assert(entries[m] == prefix[m]);
            assert forall|j: int| m < j < entries.len() implies entries[j].0 != entries[m].0 by {
                if j < prefix.len() {
                    assert(prefix[j] == entries[j]);
                } else {
                    assert(entries[j] == entries.last());
                }
            }
        } else {
            assert forall|m: int| 0 <= m < entries.len() implies (#[trigger] entries[m]).0 != k by {
                if m < prefix.len() {
                    assert(prefix[m] == entries[m]);
                }
            }
        }
    }
}

/// An entry that is the last under its key is what `last_with_key` returns for it.
proof fn lemma_last_of_key_found(entries: Keyed, m: int)
    requires
        0 <= m < entries.len(),
        is_last_of_key(entries, m),
    ensures
        last_with_key(entries, entries[m].0) == Some(entries[m].1),
    decreases entries.len(),
{
    if m < entries.len() - 1 {
        let prefix = entries.drop_last();
        assert(entries.last().0 != entries[m].0);
        assert(prefix[m] == entries[m]);
        assert(is_last_of_key(prefix, m));
        lemma_last_of_key_found(prefix, m);
    }
}

/// Every pair among the first `n` images comes from an image `m < n` that is the last
/// under its key, with the last video under that key.
proof fn lemma_pairs_upto_sound(images: Keyed, videos: Keyed, n: int)
    requires
        n <= images.len(),
    ensures
        forall|x: (Seq<char>, Seq<char>)|
            #[trigger] pairs_upto(images, videos, n).contains(x) ==> exists|m: int|
                0 <= m < n && is_last_of_key(images, m) && #[trigger] images[m].1 == x.0
                    && last_with_key(videos, images[m].0) == Some(x.1),
    decreases n,
{
    if n > 0 {
        lemma_pairs_upto_sound(images, videos, n - 1);
        let rest = pairs_upto(images, videos, n - 1);
        assert forall|x: (Seq<char>, Seq<char>)|
            #[trigger] pairs_upto(images, videos, n).contains(x) implies exists|m: int|
                0 <= m < n && is_last_of_key(images, m) && #[trigger] images[m].1 == x.0
                    && last_with_key(videos, images[m].0) == Some(x.1) by {
            if rest.contains(x) {
                let m = choose|m: int|
                    0 <= m < n - 1 && is_last_of_key(images, m) && #[trigger] images[m].1 == x.0
                        && last_with_key(videos, images[m].0) == Some(x.1);
                assert(0 <= m < n);
            } else {
                let i = choose|i: int|
                    0 <= i < pairs_upto(images, videos, n).len() && pairs_upto(
                        images,
                        videos,
                        n,
                    )[i] == x;
                assert(i == rest.len()) by {
                    if i < rest.len() {
                        assert(rest[i] == x);
                    }
                }
                assert(images[n - 1].1 == x.0);
            }
        }
    }
}

/// Every image `m < n` that is the last under its key and has a video under that key
/// yields its pair.
proof fn lemma_pairs_upto_complete(images: Keyed, videos: Keyed, n: int, m: int)
    requires
        0 <= m < n <= images.len(),
        is_last_of_key(images, m),
        last_with_key(videos, images[m].0) is Some,
    ensures
        pairs_upto(images, videos, n).contains(
            (images[m].1, last_with_key(videos, images[m].0).unwrap()),
        ),
    decreases n,
{
    let x = (images[m].1, last_with_key(videos, images[m].0).unwrap());
    let p = pairs_upto(images, videos, n);
    if m == n - 1 {
        assert(p.last() == x);
        assert(p[p.len() - 1] == x);
    } else {
        lemma_pairs_upto_complete(images, videos, n - 1, m);
        let rest = pairs_upto(images, videos, n - 1);
        let i = choose|i: int| 0 <= i < rest.len() && rest[i] == x;
        assert(p[i] == x);
    }
}

/// Pairing joins images and videos by key, as two maps filled in listing order do: for
/// every key under which both an image and a video are listed, the last image and the
/// last video under it form a pair; and every pair is such a pair.
pub proof fn law_pairs_join_by_key(images: Keyed, videos: Keyed)
    ensures
        forall|k: Seq<char>|
            #![trigger last_with_key(images, k), last_with_key(videos, k)]
            last_with_key(images, k) is Some && last_with_key(videos, k) is Some
                ==> pairs_by_key(images, videos).contains(
                (last_with_key(images, k).unwrap(), last_with_key(videos, k).unwrap()),
            ),
        forall|x: (Seq<char>, Seq<char>)|
            #[trigger] pairs_by_key(images, videos).contains(x) ==> exists|k: Seq<char>|
                last_with_key(images, k) == Some(x.0) && #[trigger] last_with_key(videos, k)
                    == Some(x.1),
{
    assert forall|k: Seq<char>|
        #![trigger last_with_key(images, k), last_with_key(videos, k)]
        last_with_key(images, k) is Some && last_with_key(videos, k) is Some
            implies pairs_by_key(images, videos).contains(
            (last_with_key(images, k).unwrap(), last_with_key(videos, k).unwrap()),
        ) by {
        lemma_last_with_key_entry(images, k);
        let i = last_with_key(images, k).unwrap();
        let m = choose|m: int|
            0 <= m < images.len() && #[trigger] images[m] == (k, i) && is_last_of_key(images, m);
        lemma_pairs_upto_complete(images, videos, images.len() as int, m);
    }
    lemma_pairs_upto_sound(images, videos, images.len() as int);
    assert forall|x: (Seq<char>, Seq<char>)|
        #[trigger] pairs_by_key(images, videos).contains(x) implies exists|k: Seq<char>|
            last_with_key(images, k) == Some(x.0) && #[trigger] last_with_key(videos, k)
                == Some(x.1) by {
        let m = choose|m: int|
            0 <= m < images.len() && is_last_of_key(images, m) && #[trigger] images[m].1 == x.0
                && last_with_key(videos, images[m].0) == Some(x.1);
        lemma_last_of_key_found(images, m);
        let k = images[m].0;
        assert(last_with_key(images, k) == Some(x.0));
    }
}

} // verus!

verus! {

// ---------------------------------------------------------------------------------------
// Running a batch

/// Which answer a batch run waits for.
#[derive(PartialEq, Eq, Structural)]
pub enum BatchStage {
    /// None: the next action is due.
    Next,
    /// Whether the current pair's output already holds its video.
    Checking,
    /// The outcome of muxing the current pair.
    Muxing,
    /// None: the run is over.
    Finished,
}

/// Outside work a batch run asks for.
pub enum BatchAction {
    /// Tell whether `output` exists and already holds `video` (`on_checked`).
    CheckMuxed { output: String, video: String },
    /// Mux one pair with these settings (`on_muxed`).
    Mux { config: MuxerConfig },
    /// Report this progress, then ask for the next action.
    Report { progress: BatchProgress },
    /// Copy the images left out of every pair into `output_dir` (see `copy_target`); the
    /// run is over.
    CopyUnmatched { output_dir: String },
    /// The run is over.
    Finish,
}

/// The settings a pair is muxed with: the batch's output directory and flags, no explicit
/// output path, and the XMP written.
pub open spec fn is_pair_config(
    m: MuxerConfig,
    config: BatchConfig,
    image: Seq<char>,
    video: Seq<char>,
) -> bool {
    &&& m.image_path@ == image
    &&& m.video_path@ == video
    &&& m.output_path is None
    &&& m.output_directory == config.output_dir
    &&& m.delete_video == config.delete_video
    &&& m.delete_temp == config.delete_temp
    &&& m.overwrite == config.overwrite
    &&& !m.no_xmp
}

/// A batch muxes each pair with its own settings: the pair's image and video, and the
/// batch's output directory, overwrite, delete-video and delete-temp flags, with the XMP
/// written. So the output a pair is written to is the very path the incremental check
/// looks at for it.
pub proof fn law_pair_config_carries_batch_settings(
    m: MuxerConfig,
    config: BatchConfig,
    image: Seq<char>,
    video: Seq<char>,
)
    requires
        is_pair_config(m, config, image, video),
    ensures
        m.image_path@ == image,
        m.video_path@ == video,
        m.output_directory == config.output_dir,
        m.overwrite == config.overwrite,
        m.delete_video == config.delete_video,
        m.delete_temp == config.delete_temp,
        !m.no_xmp,
        crate::muxer::resolved_output_path(m, image) == batch_output_path(config, image),
{
}

/// `p` reports pair number `current` of `total`, for the image `file`.
pub open spec fn is_progress(
    p: BatchProgress,
    current: int,
    total: int,
    file: Seq<char>,
    success: bool,
    error: Option<Seq<char>>,
) -> bool {
    &&& p.current == current
    &&& p.total == total
    &&& p.file@ == file
    &&& p.success == success
    &&& opt_text(p.error) == error
}

/// A run over the pairs found in a directory, in order.
pub struct BatchRun {
    pub config: BatchConfig,
    pub pairs: Vec<(String, String)>,
    /// Index of the pair being handled.
    pub current: usize,
    pub stage: BatchStage,
}

/// With an output directory, every paired image has a file name to be written under.
pub open spec fn pairs_named(config: BatchConfig, pairs: Seq<(String, String)>) -> bool {
    config.output_dir is Some ==> forall|i: int|
        0 <= i < pairs.len() ==> (#[trigger] spec_file_name(pairs[i].0@)) is Some
}

/// Starts muxing the pairs found in a directory (in the order given): a run at the first
/// pair. Settings that overwrite the images while writing to an output directory are
/// refused with `ArgConflict`. None when an output directory is set and a paired image has
/// no file name to be written under there.
pub fn mux_directory(config: BatchConfig, pairs: Vec<(String, String)>) -> (r: Result<
    Option<BatchRun>,
    LiveMuxError,
>)
    ensures
        config.overwrite && config.output_dir is Some <==> r is Err,
        r matches Err(e) ==> (e matches LiveMuxError::ArgConflict(m) && m@
            == "--overwrite cannot be used with --output-dir"@),
        r matches Ok(o) ==> (o is None <==> !pairs_named(config, pairs@)),
        r matches Ok(Some(run)) ==> {
            &&& run.wf()
            &&& run.config == config
            &&& run.pairs == pairs
            &&& run.current == 0
            &&& run.stage == BatchStage::Next
        },
{
    match check_batch_config(&config) {
        Ok(()) => {},
        Err(e) => return Err(e),
    }
    if config.output_dir.is_some() {
        let mut i: usize = 0;
        while i < pairs.len()
            invariant
                i <= pairs@.len(),
                config.output_dir is Some,
                !config.overwrite,
                forall|j: int| 0 <= j < i ==> (#[trigger] spec_file_name(pairs@[j].0@)) is Some,
            decreases pairs@.len() - i,
        {
            if path_file_name(pairs[i].0.as_str()).is_none() {
                return Ok(None);
            }
            i += 1;
        }
    }
    Ok(Some(BatchRun { config, pairs, current: 0, stage: BatchStage::Next }))
}

impl BatchRun {
    /// With an output directory, every paired image has a file name to be written under.
    pub open spec fn images_named(&self) -> bool {
        pairs_named(self.config, self.pairs@)
    }

    /// The run is in order: its position within the pairs, and names for the outputs.
    pub open spec fn wf(&self) -> bool {
        &&& self.current <= self.pairs@.len()
        &&& (self.stage == BatchStage::Checking || self.stage == BatchStage::Muxing) ==> self.current
            < self.pairs@.len()
        &&& self.images_named()
    }

    /// The settings the current pair is muxed with.
    fn pair_config(&self) -> (m: MuxerConfig)
        requires
            self.current < self.pairs@.len(),
        ensures
            is_pair_config(
                m,
                self.config,
                self.pairs@[self.current as int].0@,
                self.pairs@[self.current as int].1@,
            ),
    {
        let (image, video) = (&self.pairs[self.current].0, &self.pairs[self.current].1);
        MuxerConfig {
            image_path: image.clone(),
            video_path: video.clone(),
            output_path: None,
            output_directory: match &self.config.output_dir {
                Some(d) => Some(d.clone()),
                None => None,
            },
            delete_video: self.config.delete_video,
            delete_temp: self.config.delete_temp,
            overwrite: self.config.overwrite,
            no_xmp: false,
        }
    }

    /// The next action: for a pair, in incremental mode the check whether it was muxed
    /// already, else muxing it; after the last pair, copying the unpaired images when asked
    /// (and an output directory is set), else nothing.
    pub fn next_action(&mut self) -> (r: BatchAction)
        requires
            old(self).wf(),
            old(self).stage == BatchStage::Next,
        ensures
            final(self).wf(),
            final(self).config == old(self).config,
            final(self).pairs == old(self).pairs,
            final(self).current == old(self).current,
            ({
                let c = old(self).config;
                let i = old(self).current as int;
                if i < old(self).pairs@.len() {
                    let image = old(self).pairs@[i].0@;
                    let video = old(self).pairs@[i].1@;
                    if c.incremental {
                        &&& final(self).stage == BatchStage::Checking
                        &&& r matches BatchAction::CheckMuxed { output, video: v } && output@
                            == batch_output_path(c, image) && v@ == video
                    } else {
                        &&& final(self).stage == BatchStage::Muxing
                        &&& r matches BatchAction::Mux { config: m } && is_pair_config(m, c, image, video)
                    }
                } else {
                    &&& final(self).stage == BatchStage::Finished
                    &&& if c.copy_unmuxed && c.output_dir is Some {
                        r matches BatchAction::CopyUnmatched { output_dir } && Some(output_dir)
                            == c.output_dir
                    } else {
                        r is Finish
                    }
                }
            }),
    {
        if self.current < self.pairs.len() {
            if self.config.incremental {
                let image = &self.pairs[self.current].0;
                let output = match incremental_output_path(&self.config, image.as_str()) {
                    Some(p) => p,
                    None => {
                        assert(spec_file_name(self.pairs@[self.current as int].0@) is Some);
                        String::new()
                    },
                };
                self.stage = BatchStage::Checking;
                BatchAction::CheckMuxed { output, video: self.pairs[self.current].1.clone() }
            } else {
                self.stage = BatchStage::Muxing;
                BatchAction::Mux { config: self.pair_config() }
            }
        } else {
            self.stage = BatchStage::Finished;
            if self.config.copy_unmuxed {
                if let Some(d) = &self.config.output_dir {
                    return BatchAction::CopyUnmatched { output_dir: d.clone() };
                }
            }
            BatchAction::Finish
        }
    }

    /// Takes whether the current pair's output already holds its video: if so the pair is
    /// reported as skipped, else it is muxed.
    pub fn on_checked(&mut self, already_muxed: bool) -> (r: BatchAction)
        requires
            old(self).wf(),
            old(self).stage == BatchStage::Checking,
        ensures
            final(self).wf(),
            final(self).config == old(self).config,
            final(self).pairs == old(self).pairs,
            ({
                let i = old(self).current as int;
                let image = old(self).pairs@[i].0@;
                if already_muxed {
                    &&& final(self).current == i + 1
                    &&& final(self).stage == BatchStage::Next
                    &&& r matches BatchAction::Report { progress } && is_progress(
                        progress,
                        i + 1,
                        old(self).pairs@.len() as int,
                        image,
                        true,
                        Some("Skipped (already muxed)"@),
                    )
                } else {
                    &&& final(self).current == i
                    &&& final(self).stage == BatchStage::Muxing
                    &&& r matches BatchAction::Mux { config: m } && is_pair_config(
                        m,
                        old(self).config,
                        image,
                        old(self).pairs@[i].1@,
                    )
                }
            }),
    {
        if already_muxed {
            let total = self.pairs.len();
            let progress = BatchProgress {
                current: self.current + 1,
                total,
                file: self.pairs[self.current].0.clone(),
                success: true,
                error: Some(string_from_chars(&chars_of("Skipped (already muxed)"))),
            };
            self.current = self.current + 1;
            self.stage = BatchStage::Next;
            BatchAction::Report { progress }
        } else {
            self.stage = BatchStage::Muxing;
            BatchAction::Mux { config: self.pair_config() }
        }
    }

    /// Takes how muxing the current pair ended (the error's message on failure) and
    /// reports it.
    pub fn on_muxed(&mut self, outcome: Result<(), String>) -> (r: BatchAction)
        requires
            old(self).wf(),
            old(self).stage == BatchStage::Muxing,
        ensures
            final(self).wf(),
            final(self).config == old(self).config,
            final(self).pairs == old(self).pairs,
            final(self).current == old(self).current + 1,
            final(self).stage == BatchStage::Next,
            r matches BatchAction::Report { progress } && is_progress(
                progress,
                old(self).current + 1,
                old(self).pairs@.len() as int,
                old(self).pairs@[old(self).current as int].0@,
                outcome is Ok,
                match outcome {
                    Ok(()) => None,
                    Err(m) => Some(m@),
                },
            ),
    {
        let (success, error) = match outcome {
            Ok(()) => (true, None),
            Err(m) => (false, Some(m)),
        };
        let total = self.pairs.len();
        let progress = BatchProgress {
            current: self.current + 1,
            total,
            file: self.pairs[self.current].0.clone(),
            success,
            error,
        };
        self.current = self.current + 1;
        self.stage = BatchStage::Next;
        BatchAction::Report { progress }
    }

    /// Where a file found in the directory is copied by `CopyUnmatched`: an image that is
    /// in no pair goes into the output directory under its file name; anything else (and a
    /// path without a file name) stays.
    pub fn copy_target(&self, path: &str, output_dir: &str) -> (r: Option<String>)
        ensures
            match r {
                Some(dest) => {
                    &&& has_extension_in(path@, image_extensions())
                    &&& forall|i: int| 0 <= i < self.pairs@.len() ==> #[trigger] self.pairs@[i].0@ != path@
                    &&& spec_file_name(path@) is Some
                    &&& dest@ == spec_join(output_dir@, spec_file_name(path@).unwrap())
                },
                None => !has_extension_in(path@, image_extensions()) || (exists|i: int|
                    0 <= i < self.pairs@.len() && #[trigger] self.pairs@[i].0@ == path@)
                    || spec_file_name(path@) is None,
            },
    {
        if !is_image(path) {
            return None;
        }
        let p = chars_of(path);
        let mut i: usize = 0;
        while i < self.pairs.len()
            invariant
                i <= self.pairs@.len(),
                p@ == path@,
                forall|j: int| 0 <= j < i ==> #[trigger] self.pairs@[j].0@ != path@,
            decreases self.pairs@.len() - i,
        {
            if chars_equal(&chars_of(self.pairs[i].0.as_str()), &p) {
                assert(self.pairs@[i as int].0@ == path@);
                return None;
            }
            i += 1;
        }
        let name = match path_file_name(path) {
            Some(n) => n,
            None => return None,
        };
        Some(path_join(output_dir, name.as_str()))
    }
}

} // verus!
