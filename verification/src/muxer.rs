//! The decisions of muxing one image/video pair: where the output goes, what the inputs
//! are taken to be, how the XMP describes the trailer, and the bytes of the output.

use vstd::prelude::*;

use crate::constants::XMP_TEMPLATE;
use crate::error::LiveMuxError;
use crate::path::{
    has_path_separator, has_separator,
    path_extension, path_file_name, path_join, path_with_extension, spec_extension,
    spec_file_name, spec_join, spec_to_lowercase, spec_with_extension, text_or_empty,
    to_lowercase,
};
use crate::samsung_tags::{max_video_len, ImageType, SamsungTags, SamsungTagsView};
use crate::text::{append_slice, chars_equal, chars_of, decimal, string_from_chars};
use crate::utils::{enrich_fname, enriched_path, lookup_field, FileMetadata};
use crate::xmp::{replace_in_item_post, XmpDocument};

verus! {

/// Settings for muxing one image/video pair.
pub struct MuxerConfig {
    pub image_path: String,
    pub video_path: String,
    pub output_path: Option<String>,
    pub output_directory: Option<String>,
    pub delete_video: bool,
    pub delete_temp: bool,
    pub overwrite: bool,
    pub no_xmp: bool,
}

/// Muxing state of one pair: the settings with resolved input paths, the output path, the
/// output path as first resolved, and the XMP being built.
pub struct Muxer {
    pub config: MuxerConfig,
    pub output_fpath: String,
    pub org_outfpath: String,
    pub xmp: XmpDocument,
}

/// Where the output goes: into the output directory under the image's file name, over
/// the image, to the explicit output path, or next to the image as `<name>.LIVE.<ext>`.
pub open spec fn resolved_output_path(config: MuxerConfig, image: Seq<char>) -> Seq<char> {
    match config.output_directory {
        Some(dir) => spec_join(dir@, text_or_empty(spec_file_name(image))),
        None => if config.overwrite {
            image
        } else {
            match config.output_path {
                Some(out) => out@,
                None => enriched_path(image, "LIVE"@),
            }
        },
    }
}

/// The check `Muxer::new` makes before resolving paths: the first failing condition, as
/// whether it is an argument conflict (else an invalid file) and its message.
pub open spec fn new_check(
    config: MuxerConfig,
    image: Option<String>,
    video: Option<String>,
    output_dir_exists: bool,
) -> Result<(), (bool, Seq<char>)> {
    if image is None {
        Err((false, "Image file doesn't exist: "@ + config.image_path@))
    } else if video is None {
        Err((false, "Video file doesn't exist: "@ + config.video_path@))
    } else if config.output_directory is Some && !output_dir_exists {
        Err((false, "Output directory doesn't exist"@))
    } else if config.overwrite && config.output_path is Some {
        Err((true, "--overwrite cannot be used with --output"@))
    } else if config.output_path is Some && config.output_directory is Some {
        Err((true, "--output cannot be used with --output-dir"@))
    } else {
        Ok(())
    }
}

/// `e` is the error of kind `conflict` (argument conflict, else invalid file) with `msg`.
pub open spec fn is_check_error(e: LiveMuxError, conflict: bool, msg: Seq<char>) -> bool {
    if conflict {
        e matches LiveMuxError::ArgConflict(m) && m@ == msg
    } else {
        e matches LiveMuxError::InvalidFile(m) && m@ == msg
    }
}

/// What recording the trailer layout leaves: the motion-photo item's length set, then the
/// primary item's padding; the first failure stops with its error.
pub open spec fn describe_trailer_post(
    before: Seq<char>,
    after: Seq<char>,
    length: Seq<char>,
    padding: Seq<char>,
    r: Result<(), LiveMuxError>,
) -> bool {
    match crate::xmp::replaced_item_attr(before, "MotionPhoto"@, "Item:Length"@, length) {
        Err(m) => after == before && (r matches Err(LiveMuxError::XmpElementMissing(msg)) && msg@
            == m),
        Ok(mid) => replace_in_item_post(mid, after, "Primary"@, "Item:Padding"@, padding, r),
    }
}

/// Extension types of images muxed as HEIC.
pub open spec fn is_heic_family(ext: Seq<char>) -> bool {
    ext == "heic"@ || ext == "heif"@ || ext == "avif"@
}

/// The image types muxed as HEIC are exactly heic, heif and avif: for these
/// `validate_image` answers `Heic` and leaves the XMP alone; every other extension (jpg,
/// jpeg and anything unknown) is muxed as JPG with the primary mime `image/jpeg`.
pub proof fn law_heic_family_is_heic_heif_avif(ext: Seq<char>)
    ensures
        is_heic_family(ext) <==> (ext == seq!['h', 'e', 'i', 'c'] || ext == seq!['h', 'e', 'i', 'f']
            || ext == seq!['a', 'v', 'i', 'f']),
{
    reveal_strlit("heic");
    reveal_strlit("heif");
    reveal_strlit("avif");
    assert("heic"@ =~= seq!['h', 'e', 'i', 'c']);
    assert("heif"@ =~= seq!['h', 'e', 'i', 'f']);
    assert("avif"@ =~= seq!['a', 'v', 'i', 'f']);
}

/// The extension a file is taken to have: ExifTool's detected type when the record has
/// one, else the path's extension; lowercased.
pub open spec fn effective_extension(path: Seq<char>, metadata: FileMetadata) -> Seq<char> {
    match lookup_field(metadata.fields(), "File:FileTypeExtension"@) {
        Some(e) => spec_to_lowercase(e),
        None => spec_to_lowercase(text_or_empty(spec_extension(path))),
    }
}

/// The output path after matching its extension to the image's detected type (a type
/// holding a path separator is no extension, and leaves the path as it is).
pub open spec fn fixed_output_path(output: Seq<char>, metadata: FileMetadata) -> Seq<char> {
    match lookup_field(metadata.fields(), "File:FileTypeExtension"@) {
        Some(e) => if spec_to_lowercase(text_or_empty(spec_extension(output)))
            == spec_to_lowercase(e) || has_separator(spec_to_lowercase(e)) {
            output
        } else {
            spec_with_extension(output, spec_to_lowercase(e))
        },
        None => output,
    }
}

/// The motion photo: the image followed by the trailer that carries the video.
pub open spec fn motion_photo(image: Seq<u8>, video: Seq<u8>, image_type: ImageType) -> Seq<u8> {
    image + SamsungTagsView::initial(video, image_type).with_image_size(image.len()).footer()
}

/// Builds the motion photo from the final image bytes and the video bytes.
pub fn build_motion_photo(image: Vec<u8>, video: Vec<u8>, image_type: ImageType) -> (r: Vec<u8>)
    requires
        image@.len() + video@.len() <= max_video_len(),
    ensures
        r@ == motion_photo(image@, video@, image_type),
{
    let mut merged_bytes = image;
    let mut samsung_tail = SamsungTags::new(video, image_type);
    samsung_tail.set_image_size(merged_bytes.len());
    let footer = samsung_tail.video_footer();
    append_slice(&mut merged_bytes, &footer);
    merged_bytes
}

/// A motion photo carries its video where its XMP says: the item length recorded from the
/// trailer as first built (before the image's size is known), counted back from the end of
/// the file `build_motion_photo` makes, lands on the video's first byte, and the whole
/// video follows.
pub proof fn law_motion_photo_locates_video(image: Seq<u8>, video: Seq<u8>, image_type: ImageType)
    requires
        video.len() <= max_video_len(),
    ensures
        ({
            let described = SamsungTagsView::initial(video, image_type);
            let item_length = described.footer().len() - described.image_padding();
            let file = motion_photo(image, video, image_type);
            let start = file.len() - item_length;
            &&& 0 <= item_length <= file.len()
            &&& start + video.len() <= file.len()
            &&& file.subrange(start, start + video.len()) == video
        }),
{
    crate::samsung_tags::lemma_fixed_lengths();
    let v0 = SamsungTagsView::initial(video, image_type);
    let v = v0.with_image_size(image.len());
    if image_type == ImageType::Heic {
        crate::samsung_tags::lemma_set_tag_value_at(
            v0.tags,
            crate::samsung_tags::SefTag::MotionPhotoData,
            v0.heic_motion_data(image.len()),
            1,
        );
    } else {
        crate::samsung_tags::lemma_jpg_padding(v0);
        crate::samsung_tags::lemma_jpg_padding(v);
    }
    assert(v0.well_formed());
    assert(v.well_formed());
    crate::samsung_tags::lemma_data_entry_lengths(v0);
    crate::samsung_tags::lemma_data_entry_lengths(v);
    assert(v0.footer().len() == v.footer().len());
    assert(v0.image_padding() == v.image_padding());
    crate::samsung_tags::law_item_length_locates_video(v, image);
    crate::samsung_tags::law_video_at_padding(v);
    crate::samsung_tags::lemma_padding_within_footer(v);
}

/// What a run writes is recognized as already muxed: the incremental check, which
/// searches the existing output for the video's bytes, finds the video in every motion
/// photo built from it.
pub proof fn law_output_holds_video(image: Seq<u8>, video: Seq<u8>, image_type: ImageType)
    requires
        video.len() <= max_video_len(),
    ensures
        crate::text::find(motion_photo(image, video, image_type), video) is Some,
{
    law_motion_photo_locates_video(image, video, image_type);
    let described = SamsungTagsView::initial(video, image_type);
    let file = motion_photo(image, video, image_type);
    let start = file.len() - (described.footer().len() - described.image_padding());
    assert(crate::text::matches_at(file, start, video));
    crate::text::lemma_find_props(file, video);
}

/// What `Muxer::new` gives: the first failing check's error, else a muxer for the
/// resolved inputs, writing to the resolved output path, with the template XMP.
pub open spec fn muxer_new_result(
    config: MuxerConfig,
    image_path: Option<String>,
    video_path: Option<String>,
    output_dir_exists: bool,
    r: Result<Muxer, LiveMuxError>,
) -> bool {
    match new_check(config, image_path, video_path, output_dir_exists) {
        Err((conflict, msg)) => r matches Err(e) && is_check_error(e, conflict, msg),
        Ok(()) => r matches Ok(m) && {
            let image = image_path.unwrap();
            let out = resolved_output_path(config, image@);
            &&& m.config.image_path == image
            &&& m.config.video_path == video_path.unwrap()
            &&& m.config.output_path == config.output_path
            &&& m.config.output_directory == config.output_directory
            &&& m.config.delete_video == config.delete_video
            &&& m.config.delete_temp == config.delete_temp
            &&& m.config.overwrite == config.overwrite
            &&& m.config.no_xmp == config.no_xmp
            &&& m.output_fpath@ == out
            &&& m.org_outfpath@ == out
            &&& m.xmp@ == XMP_TEMPLATE@
        },
    }
}

/// The image would go into the output directory under its file name, and has none.
pub open spec fn image_unnamed(
    config: MuxerConfig,
    image_path: Option<String>,
    video_path: Option<String>,
    output_dir_exists: bool,
) -> bool {
    image_path matches Some(p) && video_path is Some && config.output_directory is Some
        && output_dir_exists && config.output_path is None && spec_file_name(p@) is None
}

impl Muxer {
    /// Resolves the output path and starts the XMP from the template. `image_path` and
    /// `video_path` are the canonical input paths (none when an input does not exist) and
    /// `output_dir_exists` tells whether the output directory exists.
    pub fn new(
        config: MuxerConfig,
        image_path: Option<String>,
        video_path: Option<String>,
        output_dir_exists: bool,
    ) -> (r: Result<Muxer, LiveMuxError>)
        requires
            !image_unnamed(config, image_path, video_path, output_dir_exists),
        ensures
            muxer_new_result(config, image_path, video_path, output_dir_exists, r),
    {
        let image_path = match image_path {
            Some(p) => p,
            None => {
                let msg = crate::text::concat_chars(
                    &chars_of("Image file doesn't exist: "),
                    &chars_of(config.image_path.as_str()),
                );
                return Err(LiveMuxError::InvalidFile(string_from_chars(&msg)));
            },
        };
        let video_path = match video_path {
            Some(p) => p,
            None => {
                let msg = crate::text::concat_chars(
                    &chars_of("Video file doesn't exist: "),
                    &chars_of(config.video_path.as_str()),
                );
                return Err(LiveMuxError::InvalidFile(string_from_chars(&msg)));
            },
        };
        if config.output_directory.is_some() && !output_dir_exists {
            return Err(
                LiveMuxError::InvalidFile(
                    string_from_chars(&chars_of("Output directory doesn't exist")),
                ),
            );
        }
        if config.overwrite && config.output_path.is_some() {
            return Err(
                LiveMuxError::ArgConflict(
                    string_from_chars(&chars_of("--overwrite cannot be used with --output")),
                ),
            );
        }
        if config.output_path.is_some() && config.output_directory.is_some() {
            return Err(
                LiveMuxError::ArgConflict(
                    string_from_chars(&chars_of("--output cannot be used with --output-dir")),
                ),
            );
        }
        // resolve the output path
        let output_fpath = match &config.output_directory {
            Some(out_dir) => {
                let name = match path_file_name(image_path.as_str()) {
                    Some(n) => n,
                    None => {
                        assert(false);
                        String::new()
                    },
                };
                path_join(out_dir.as_str(), name.as_str())
            },
            None => if config.overwrite {
                image_path.clone()
            } else {
                match &config.output_path {
                    Some(out) => out.clone(),
                    None => enrich_fname(image_path.as_str(), "LIVE"),
                }
            },
        };
        let org_outfpath = output_fpath.clone();
        let xmp = match XmpDocument::from_template() {
            Ok(x) => x,
            Err(e) => return Err(e),
        };
        Ok(
            Muxer {
                config: MuxerConfig {
                    image_path,
                    video_path,
                    output_path: config.output_path,
                    output_directory: config.output_directory,
                    delete_video: config.delete_video,
                    delete_temp: config.delete_temp,
                    overwrite: config.overwrite,
                    no_xmp: config.no_xmp,
                },
                output_fpath,
                org_outfpath,
                xmp,
            },
        )
    }

    /// `new`, once it is sure the image has a file name to go under in the output
    /// directory when it goes there: None when it has none (a canonical path to an
    /// existing file always has one).
    pub fn new_checked(
        config: MuxerConfig,
        image_path: Option<String>,
        video_path: Option<String>,
        output_dir_exists: bool,
    ) -> (r: Option<Result<Muxer, LiveMuxError>>)
        ensures
            r is None <==> image_unnamed(config, image_path, video_path, output_dir_exists),
            r matches Some(x) ==> muxer_new_result(
                config,
                image_path,
                video_path,
                output_dir_exists,
                x,
            ),
    {
        if let Some(p) = &image_path {
            if video_path.is_some() && config.output_directory.is_some() && output_dir_exists
                && config.output_path.is_none() && path_file_name(p.as_str()).is_none() {
                return None;
            }
        }
        Some(Muxer::new(config, image_path, video_path, output_dir_exists))
    }

    /// The extension `path` is taken to have: ExifTool's detected type when known, else
    /// the path's own extension; lowercased.
    pub fn get_effective_extension(&self, path: &str, metadata: &FileMetadata) -> (r: String)
        ensures
            r@ == effective_extension(path@, *metadata),
    {
        // prefer ExifTool's detected type over the file extension
        if let Some(meta_ext) = metadata.get_str("File:FileTypeExtension") {
            return to_lowercase(meta_ext.as_str());
        }
        let ext = match path_extension(path) {
            Some(e) => e,
            None => String::new(),
        };
        to_lowercase(ext.as_str())
    }

    /// Decides the image type from the image's effective extension: HEIC for heic, heif and
    /// avif, JPG otherwise (marking the primary item as `image/jpeg`).
    pub fn validate_image(&mut self, metadata: &FileMetadata) -> (r: Result<ImageType, LiveMuxError>)
        ensures
            final(self).config == old(self).config,
            final(self).output_fpath == old(self).output_fpath,
            final(self).org_outfpath == old(self).org_outfpath,
            ({
                let ext = effective_extension(old(self).config.image_path@, *metadata);
                if is_heic_family(ext) {
                    r matches Ok(t) && t == ImageType::Heic && final(self).xmp@ == old(self).xmp@
                } else {
                    replace_in_item_post(
                        old(self).xmp@,
                        final(self).xmp@,
                        "Primary"@,
                        "Item:Mime"@,
                        "image/jpeg"@,
                        match r {
                            Ok(_) => Ok(()),
                            Err(e) => Err(e),
                        },
                    ) && (r is Ok ==> r == Ok::<ImageType, LiveMuxError>(ImageType::Jpg))
                }
            }),
    {
        let ext = self.get_effective_extension(self.config.image_path.as_str(), metadata);
        let e = chars_of(ext.as_str());
        if chars_equal(&e, &chars_of("heic")) || chars_equal(&e, &chars_of("heif")) || chars_equal(
            &e,
            &chars_of("avif"),
        ) {
            Ok(ImageType::Heic)
        } else {
            match self.xmp.set_primary_mime("image/jpeg") {
                Ok(()) => Ok(ImageType::Jpg),
                Err(err) => Err(err),
            }
        }
    }

    /// Marks the motion-photo item as `video/mp4` when the video's effective extension is
    /// mp4; anything else is treated as QuickTime.
    pub fn validate_video(&mut self, metadata: &FileMetadata) -> (r: Result<(), LiveMuxError>)
        ensures
            final(self).config == old(self).config,
            final(self).output_fpath == old(self).output_fpath,
            final(self).org_outfpath == old(self).org_outfpath,
            if effective_extension(old(self).config.video_path@, *metadata) == "mp4"@ {
                replace_in_item_post(
                    old(self).xmp@,
                    final(self).xmp@,
                    "MotionPhoto"@,
                    "Item:Mime"@,
                    "video/mp4"@,
                    r,
                )
            } else {
                r is Ok && final(self).xmp@ == old(self).xmp@
            },
    {
        let ext = self.get_effective_extension(self.config.video_path.as_str(), metadata);
        if chars_equal(&chars_of(ext.as_str()), &chars_of("mp4")) {
            self.xmp.set_motionphoto_mime("video/mp4")
        } else {
            Ok(())
        }
    }

    /// Gives the output path the extension of the image's detected type when it differs.
    pub fn fix_output_extension(&mut self, metadata: &FileMetadata)
        ensures
            final(self).output_fpath@ == fixed_output_path(old(self).output_fpath@, *metadata),
            final(self).config == old(self).config,
            final(self).org_outfpath == old(self).org_outfpath,
            final(self).xmp == old(self).xmp,
    {
        if let Some(meta_ext) = metadata.get_str("File:FileTypeExtension") {
            let current = match path_extension(self.output_fpath.as_str()) {
                Some(e) => e,
                None => String::new(),
            };
            let current_ext = to_lowercase(current.as_str());
            let meta_lower = to_lowercase(meta_ext.as_str());
            // a type holding a path separator cannot be an extension: the path stays
            if !chars_equal(&chars_of(current_ext.as_str()), &chars_of(meta_lower.as_str()))
                && !has_path_separator(meta_lower.as_str()) {
                self.output_fpath = path_with_extension(self.output_fpath.as_str(), meta_lower.as_str());
            }
        }
    }

    /// Records the trailer's layout in the XMP: the motion-photo item's length (distance of
    /// the video from the end of file) and the primary item's padding.
    pub fn describe_trailer(&mut self, trailer: &SamsungTags) -> (r: Result<(), LiveMuxError>)
        requires
            trailer.wf(),
        ensures
            final(self).config == old(self).config,
            final(self).output_fpath == old(self).output_fpath,
            final(self).org_outfpath == old(self).org_outfpath,
            describe_trailer_post(
                old(self).xmp@,
                final(self).xmp@,
                decimal((trailer@.footer().len() - trailer@.image_padding()) as nat),
                decimal(trailer@.image_padding()),
                r,
            ),
    {
        let video_size = trailer.get_video_size();
        let image_padding = trailer.get_image_padding();
        match self.xmp.set_motionphoto_length(video_size) {
            Ok(()) => {},
            Err(e) => return Err(e),
        }
        self.xmp.set_primary_padding(image_padding)
    }

    /// The XMP sidecar written next to the output (`<output>.XMP`).
    pub fn xmp_sidecar_path(&self) -> (r: String)
        ensures
            r@ == self.output_fpath@ + ".XMP"@,
    {
        string_from_chars(
            &crate::text::concat_chars(&chars_of(self.output_fpath.as_str()), &chars_of(".XMP")),
        )
    }

    /// The copy of the image that receives the XMP (`<output stem>.XMP.<ext>`).
    pub fn xmp_image_path(&self) -> (r: String)
        ensures
            r@ == enriched_path(self.output_fpath@, "XMP"@),
    {
        enrich_fname(self.output_fpath.as_str(), "XMP")
    }

    /// Where the video remuxed to MP4 goes (`<video stem>.REMUX.mp4`).
    pub fn remux_video_path(&self) -> (r: String)
        ensures
            r@ == spec_with_extension(enriched_path(self.config.video_path@, "REMUX"@), "mp4"@),
    {
        let enriched = enrich_fname(self.config.video_path.as_str(), "REMUX");
        proof {
            reveal_strlit("mp4");
        }
        path_with_extension(enriched.as_str(), "mp4")
    }
}

} // verus!
