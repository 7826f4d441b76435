//! Muxing one pair as a sequence of steps. The run never touches files or processes:
//! each step names the outside work it needs next (an action), and the answer to that
//! work moves the run on. The caller performs the actions in order.

use vstd::prelude::*;

use crate::error::LiveMuxError;
use crate::ffmpeg::{header_needs_remux, needs_remux};
use crate::muxer::{effective_extension, fixed_output_path, is_heic_family, motion_photo, Muxer};
use crate::samsung_tags::{max_video_len, ImageType, SamsungTags, SamsungTagsView};
use crate::text::{
    append_slice, chars_equal, chars_of, decimal, parse_i64, parsed_i64, signed_decimal, strings_view, trim, trim_chars,
};
use crate::utils::{enriched_path, extract_track_number, regex_capture, FileMetadata, STILL_IMAGE_TRACK_PATTERN};
use crate::xmp::{mergeable, merged_xml, replaced_item_attr, with_timestamp};

verus! {

/// Which answer a run is waiting for.
#[derive(PartialEq, Eq, Structural)]
pub enum MuxStage {
    /// The ExifTool records of the image and the video.
    Metadata,
    /// The first bytes of the video.
    VideoHeader,
    /// Whether ffmpeg can be run.
    Ffmpeg,
    /// The end of the remux to MP4.
    Remux,
    /// ExifTool's listing of the video's QuickTime tracks.
    Tracks,
    /// The duration of the keyframe track.
    Keyframe,
    /// The bytes of the video to embed.
    Video,
    /// The image's own XMP.
    SourceXmp,
    /// The end of writing the XMP sidecar.
    Sidecar,
    /// The end of embedding the XMP into a copy of the image.
    Embed,
    /// The bytes of the image that leads the output.
    Image,
    /// The end of writing the output.
    Output,
    /// Nothing: the run is over.
    Finished,
}

/// Outside work a run asks for.
pub enum MuxAction {
    /// Read the ExifTool records of both inputs (`on_metadata`).
    ReadMetadata { image: String, video: String },
    /// Read the first 12 bytes of the video, or all it has (`on_video_header`).
    ReadVideoHeader { video: String },
    /// Find out whether ffmpeg can be run (`on_ffmpeg`).
    CheckFfmpeg,
    /// Remux the video `from` into MP4 at `to` (`on_remuxed`).
    Remux { from: String, to: String },
    /// List the video's QuickTime tracks with ExifTool (`on_tracks`).
    ReadTracks { video: String },
    /// Measure the duration, in microseconds, of track `track` of that listing
    /// (`on_keyframe`).
    MeasureKeyframe { track: String },
    /// Read the whole video (`on_video`).
    ReadVideo { path: String },
    /// Read the XMP the image carries (`on_source_xmp`).
    ReadSourceXmp { image: String },
    /// Write the XMP sidecar (`on_sidecar_written`).
    WriteSidecar { path: String, bytes: Vec<u8> },
    /// Copy the image to `copy`, embed the sidecar into that copy and strip Apple's Live
    /// Photo tags from it (`on_embedded`).
    EmbedXmp { image: String, copy: String, sidecar: String },
    /// Read the image that leads the output (`on_image`).
    ReadImage { path: String },
    /// Write the output, then give it the file times of `times_from` (`on_output_written`).
    WriteOutput { path: String, bytes: Vec<u8>, times_from: String },
    /// Remove the files of `best_effort`, ignoring failures, then those of `required`,
    /// stopping at the first failure. The run is over.
    Cleanup { best_effort: Vec<String>, required: Vec<String> },
}

/// A `MuxAction` with its texts as character sequences.
pub enum MuxActionView {
    ReadMetadata { image: Seq<char>, video: Seq<char> },
    ReadVideoHeader { video: Seq<char> },
    CheckFfmpeg,
    Remux { from: Seq<char>, to: Seq<char> },
    ReadTracks { video: Seq<char> },
    MeasureKeyframe { track: Seq<char> },
    ReadVideo { path: Seq<char> },
    ReadSourceXmp { image: Seq<char> },
    WriteSidecar { path: Seq<char>, bytes: Seq<u8> },
    EmbedXmp { image: Seq<char>, copy: Seq<char>, sidecar: Seq<char> },
    ReadImage { path: Seq<char> },
    WriteOutput { path: Seq<char>, bytes: Seq<u8>, times_from: Seq<char> },
    Cleanup { best_effort: Seq<Seq<char>>, required: Seq<Seq<char>> },
}

impl View for MuxAction {
    type V = MuxActionView;

    open spec fn view(&self) -> MuxActionView {
        match self {
            MuxAction::ReadMetadata { image, video } => MuxActionView::ReadMetadata {
                image: image@,
                video: video@,
            },
            MuxAction::ReadVideoHeader { video } => MuxActionView::ReadVideoHeader { video: video@ },
            MuxAction::CheckFfmpeg => MuxActionView::CheckFfmpeg,
            MuxAction::Remux { from, to } => MuxActionView::Remux { from: from@, to: to@ },
            MuxAction::ReadTracks { video } => MuxActionView::ReadTracks { video: video@ },
            MuxAction::MeasureKeyframe { track } => MuxActionView::MeasureKeyframe { track: track@ },
            MuxAction::ReadVideo { path } => MuxActionView::ReadVideo { path: path@ },
            MuxAction::ReadSourceXmp { image } => MuxActionView::ReadSourceXmp { image: image@ },
            MuxAction::WriteSidecar { path, bytes } => MuxActionView::WriteSidecar {
                path: path@,
                bytes: bytes@,
            },
            MuxAction::EmbedXmp { image, copy, sidecar } => MuxActionView::EmbedXmp {
                image: image@,
                copy: copy@,
                sidecar: sidecar@,
            },
            MuxAction::ReadImage { path } => MuxActionView::ReadImage { path: path@ },
            MuxAction::WriteOutput { path, bytes, times_from } => MuxActionView::WriteOutput {
                path: path@,
                bytes: bytes@,
                times_from: times_from@,
            },
            MuxAction::Cleanup { best_effort, required } => MuxActionView::Cleanup {
                best_effort: strings_view(best_effort@),
                required: strings_view(required@),
            },
        }
    }
}

/// The XMP after checking the inputs' types: for an image that is not of the HEIC family
/// the primary item's mime becomes `image/jpeg`, then for an MP4 video the motion-photo
/// item's mime becomes `video/mp4`; the first missing item stops with its message.
pub open spec fn validated_xmp(xml: Seq<char>, image_ext: Seq<char>, video_ext: Seq<char>) -> Result<
    Seq<char>,
    Seq<char>,
> {
    let after_image = if is_heic_family(image_ext) {
        Ok(xml)
    } else {
        replaced_item_attr(xml, "Primary"@, "Item:Mime"@, "image/jpeg"@)
    };
    match after_image {
        Err(m) => Err(m),
        Ok(x) => if video_ext == "mp4"@ {
            replaced_item_attr(x, "MotionPhoto"@, "Item:Mime"@, "video/mp4"@)
        } else {
            Ok(x)
        },
    }
}

/// The image type an effective extension stands for.
pub open spec fn image_type_for(ext: Seq<char>) -> ImageType {
    if is_heic_family(ext) {
        ImageType::Heic
    } else {
        ImageType::Jpg
    }
}

/// The keyframe time a measured duration gives: its integer value, or -1 when it does not
/// read as an `i64`.
pub open spec fn keyframe_us(duration: Seq<char>) -> int {
    match parsed_i64(duration) {
        Some(v) => v,
        None => -1,
    }
}

/// The XMP after merging the image's own XMP: unchanged when that is blank or has no
/// rdf:Description.
pub open spec fn with_source_xmp(xml: Seq<char>, source: Seq<char>) -> Seq<char> {
    if trim(source).len() == 0 {
        xml
    } else {
        match merged_xml(xml, source) {
            Some(x) => x,
            None => xml,
        }
    }
}

/// A run of `Muxer` over one pair.
pub struct MuxRun {
    pub muxer: Muxer,
    pub stage: MuxStage,
    /// The image type, once the metadata is in.
    pub image_type: ImageType,
    /// The video that gets embedded: the input, or its MP4 remux.
    pub video_source: String,
    /// The MP4 remux, when one is made.
    pub remuxed: Option<String>,
    /// The trailer, once the video is read.
    pub trailer: Option<SamsungTags>,
}

impl MuxRun {
    /// The trailer holds the video as freshly built: no image size set yet.
    pub open spec fn holds_fresh_trailer(&self) -> bool {
        self.trailer matches Some(t) && t.wf() && t@ == SamsungTagsView::initial(
            t@.video,
            t@.image_type,
        ) && t@.image_type == self.image_type
    }

    /// Where a run goes once the video to embed is settled: without XMP it reads that
    /// video; otherwise it lists the input video's tracks.
    pub open spec fn after_video_choice(&self) -> (MuxStage, MuxActionView) {
        if self.muxer.config.no_xmp {
            (MuxStage::Video, MuxActionView::ReadVideo { path: self.video_source@ })
        } else {
            (MuxStage::Tracks, MuxActionView::ReadTracks { video: self.muxer.config.video_path@ })
        }
    }

    /// The XMP sidecar's path (`<output>.XMP`).
    pub open spec fn sidecar_path(&self) -> Seq<char> {
        self.muxer.output_fpath@ + ".XMP"@
    }

    /// The image copy that receives the XMP (`<output stem>.XMP.<ext>`).
    pub open spec fn xmp_image_path(&self) -> Seq<char> {
        enriched_path(self.muxer.output_fpath@, "XMP"@)
    }

    /// The files removed at the end: the temporary ones on a best-effort basis (the
    /// sidecar and the XMP image copy when there is XMP, then the remux, when temporaries
    /// are deleted), then those whose removal must succeed (the input video when asked, and
    /// under overwrite the file first named as output when the output moved to another
    /// name).
    pub open spec fn cleanup_lists(&self) -> (Seq<Seq<char>>, Seq<Seq<char>>) {
        let c = self.muxer.config;
        let temps: Seq<Seq<char>> = if c.delete_temp && !c.no_xmp {
            seq![self.sidecar_path(), self.xmp_image_path()]
        } else {
            Seq::empty()
        };
        let remux: Seq<Seq<char>> = match self.remuxed {
            Some(p) => if c.delete_temp {
                seq![p@]
            } else {
                Seq::empty()
            },
            None => Seq::empty(),
        };
        let video: Seq<Seq<char>> = if c.delete_video {
            seq![c.video_path@]
        } else {
            Seq::empty()
        };
        let first: Seq<Seq<char>> = if c.overwrite && self.muxer.output_fpath@
            != self.muxer.org_outfpath@ {
            seq![self.muxer.org_outfpath@]
        } else {
            Seq::empty()
        };
        (temps + remux, video + first)
    }

    /// Takes the inputs' ExifTool records (an empty record for a missing one): decides the
    /// image type, matches the output's extension to the image's detected type and records
    /// the mime types in the XMP; then the video's first bytes are needed.
    pub fn on_metadata(&mut self, image_meta: &FileMetadata, video_meta: &FileMetadata) -> (r:
        Result<MuxAction, LiveMuxError>)
        requires
            old(self).stage == MuxStage::Metadata,
        ensures
            ({
                let c = old(self).muxer.config;
                let image_ext = effective_extension(c.image_path@, *image_meta);
                let video_ext = effective_extension(c.video_path@, *video_meta);
                match validated_xmp(old(self).muxer.xmp@, image_ext, video_ext) {
                    Err(m) => r matches Err(LiveMuxError::XmpElementMissing(msg)) && msg@ == m,
                    Ok(x) => {
                        &&& r matches Ok(a) && a@ == (MuxActionView::ReadVideoHeader {
                            video: c.video_path@,
                        })
                        &&& final(self).stage == MuxStage::VideoHeader
                        &&& final(self).image_type == image_type_for(image_ext)
                        &&& final(self).muxer.xmp@ == x
                        &&& final(self).muxer.output_fpath@ == fixed_output_path(
                            old(self).muxer.output_fpath@,
                            *image_meta,
                        )
                        &&& final(self).muxer.config == c
                        &&& final(self).muxer.org_outfpath == old(self).muxer.org_outfpath
                        &&& final(self).remuxed == old(self).remuxed
                        &&& final(self).trailer == old(self).trailer
                    },
                }
            }),
    {
        let image_type = match self.muxer.validate_image(image_meta) {
            Ok(t) => t,
            Err(e) => return Err(e),
        };
        self.muxer.fix_output_extension(image_meta);
        match self.muxer.validate_video(video_meta) {
            Ok(()) => {},
            Err(e) => return Err(e),
        }
        self.image_type = image_type;
        self.stage = MuxStage::VideoHeader;
        Ok(MuxAction::ReadVideoHeader { video: self.muxer.config.video_path.clone() })
    }

    /// Settles on the input video itself as the one to embed.
    fn keep_input_video(&mut self) -> (r: MuxAction)
        ensures
            final(self).muxer == old(self).muxer,
            final(self).image_type == old(self).image_type,
            final(self).trailer == old(self).trailer,
            final(self).video_source@ == old(self).muxer.config.video_path@,
            final(self).remuxed is None,
            (final(self).stage, r@) == final(self).after_video_choice(),
    {
        self.video_source = self.muxer.config.video_path.clone();
        self.remuxed = None;
        self.next_after_video_choice()
    }

    /// Moves on once the video to embed is settled.
    fn next_after_video_choice(&mut self) -> (r: MuxAction)
        ensures
            final(self).muxer == old(self).muxer,
            final(self).image_type == old(self).image_type,
            final(self).trailer == old(self).trailer,
            final(self).video_source == old(self).video_source,
            final(self).remuxed == old(self).remuxed,
            (final(self).stage, r@) == final(self).after_video_choice(),
    {
        if self.muxer.config.no_xmp {
            self.stage = MuxStage::Video;
            MuxAction::ReadVideo { path: self.video_source.clone() }
        } else {
            self.stage = MuxStage::Tracks;
            MuxAction::ReadTracks { video: self.muxer.config.video_path.clone() }
        }
    }

    /// Takes the video's first bytes: a QuickTime-only `ftyp` brand asks whether ffmpeg
    /// can remux it; any other video is embedded as it is.
    pub fn on_video_header(&mut self, header: &[u8]) -> (r: MuxAction)
        requires
            old(self).stage == MuxStage::VideoHeader,
        ensures
            final(self).muxer == old(self).muxer,
            final(self).image_type == old(self).image_type,
            final(self).trailer == old(self).trailer,
            if header_needs_remux(header@) {
                &&& final(self).stage == MuxStage::Ffmpeg
                &&& r@ == MuxActionView::CheckFfmpeg
                &&& final(self).video_source == old(self).video_source
                &&& final(self).remuxed == old(self).remuxed
            } else {
                &&& final(self).video_source@ == old(self).muxer.config.video_path@
                &&& final(self).remuxed is None
                &&& (final(self).stage, r@) == final(self).after_video_choice()
            },
    {
        if needs_remux(header) {
            self.stage = MuxStage::Ffmpeg;
            MuxAction::CheckFfmpeg
        } else {
            self.keep_input_video()
        }
    }

    /// Takes whether ffmpeg can be run: if so the video is remuxed to `<video
    /// stem>.REMUX.mp4`, else (a MOV that may not play everywhere) it is embedded as it is.
    pub fn on_ffmpeg(&mut self, available: bool) -> (r: MuxAction)
        requires
            old(self).stage == MuxStage::Ffmpeg,
        ensures
            final(self).muxer == old(self).muxer,
            final(self).image_type == old(self).image_type,
            final(self).trailer == old(self).trailer,
            if available {
                let mp4 = crate::path::spec_with_extension(
                    enriched_path(old(self).muxer.config.video_path@, "REMUX"@),
                    "mp4"@,
                );
                &&& final(self).stage == MuxStage::Remux
                &&& r@ == (MuxActionView::Remux { from: old(self).muxer.config.video_path@, to: mp4 })
                &&& final(self).video_source@ == mp4
                &&& final(self).remuxed matches Some(p) && p@ == mp4
            } else {
                &&& final(self).video_source@ == old(self).muxer.config.video_path@
                &&& final(self).remuxed is None
                &&& (final(self).stage, r@) == final(self).after_video_choice()
            },
    {
        if available {
            let mp4 = self.muxer.remux_video_path();
            self.video_source = mp4.clone();
            self.remuxed = Some(mp4.clone());
            self.stage = MuxStage::Remux;
            MuxAction::Remux { from: self.muxer.config.video_path.clone(), to: mp4 }
        } else {
            self.keep_input_video()
        }
    }

    /// Takes the end of the remux: the motion-photo item's mime becomes `video/mp4`.
    pub fn on_remuxed(&mut self) -> (r: Result<MuxAction, LiveMuxError>)
        requires
            old(self).stage == MuxStage::Remux,
        ensures
            match replaced_item_attr(old(self).muxer.xmp@, "MotionPhoto"@, "Item:Mime"@, "video/mp4"@) {
                Err(m) => r matches Err(LiveMuxError::XmpElementMissing(msg)) && msg@ == m,
                Ok(x) => {
                    &&& final(self).muxer.xmp@ == x
                    &&& final(self).muxer.config == old(self).muxer.config
                    &&& final(self).muxer.output_fpath == old(self).muxer.output_fpath
                    &&& final(self).muxer.org_outfpath == old(self).muxer.org_outfpath
                    &&& final(self).image_type == old(self).image_type
                    &&& final(self).trailer == old(self).trailer
                    &&& final(self).video_source == old(self).video_source
                    &&& final(self).remuxed == old(self).remuxed
                    &&& r matches Ok(a) && (final(self).stage, a@) == final(self).after_video_choice()
                },
            },
    {
        match self.muxer.xmp.set_motionphoto_mime("video/mp4") {
            Ok(()) => Ok(self.next_after_video_choice()),
            Err(e) => Err(e),
        }
    }

    /// Takes the track listing: when it names the Live Photo keyframe track (the one whose
    /// still-image time is -1), that track's duration is needed; otherwise no keyframe is
    /// set and the video is read.
    pub fn on_tracks(&mut self, track_xml: &str) -> (r: MuxAction)
        requires
            old(self).stage == MuxStage::Tracks,
        ensures
            final(self).muxer == old(self).muxer,
            final(self).image_type == old(self).image_type,
            final(self).trailer == old(self).trailer,
            final(self).video_source == old(self).video_source,
            final(self).remuxed == old(self).remuxed,
            match regex_capture(STILL_IMAGE_TRACK_PATTERN@, track_xml@) {
                Some(t) => final(self).stage == MuxStage::Keyframe && r@
                    == (MuxActionView::MeasureKeyframe { track: t }),
                None => final(self).stage == MuxStage::Video && r@ == (MuxActionView::ReadVideo {
                    path: old(self).video_source@,
                }),
            },
    {
        match extract_track_number(track_xml) {
            Some(track) => {
                self.stage = MuxStage::Keyframe;
                MuxAction::MeasureKeyframe { track }
            },
            None => {
                self.stage = MuxStage::Video;
                MuxAction::ReadVideo { path: self.video_source.clone() }
            },
        }
    }

    /// Takes the keyframe track's duration (none when it could not be measured): a
    /// measured one, read as an integer (-1 when it is not one), becomes the presentation
    /// timestamp. Then the video is read.
    pub fn on_keyframe(&mut self, duration_us: Option<String>) -> (r: MuxAction)
        requires
            old(self).stage == MuxStage::Keyframe,
        ensures
            final(self).muxer.config == old(self).muxer.config,
            final(self).muxer.output_fpath == old(self).muxer.output_fpath,
            final(self).muxer.org_outfpath == old(self).muxer.org_outfpath,
            final(self).image_type == old(self).image_type,
            final(self).trailer == old(self).trailer,
            final(self).video_source == old(self).video_source,
            final(self).remuxed == old(self).remuxed,
            final(self).muxer.xmp@ == match duration_us {
                Some(d) => with_timestamp(old(self).muxer.xmp@, signed_decimal(keyframe_us(d@))),
                None => old(self).muxer.xmp@,
            },
            final(self).stage == MuxStage::Video,
            r@ == (MuxActionView::ReadVideo { path: old(self).video_source@ }),
    {
        if let Some(d) = duration_us {
            let us: i64 = match parse_i64(d.as_str()) {
                Some(v) => v,
                None => -1,
            };
            let _ = self.muxer.xmp.set_timestamp(us);
        }
        self.stage = MuxStage::Video;
        MuxAction::ReadVideo { path: self.video_source.clone() }
    }

    /// Takes the video's bytes and builds the trailer around them. Without XMP the image is
    /// read next; otherwise the image's own XMP.
    pub fn on_video(&mut self, video: Vec<u8>) -> (r: MuxAction)
        requires
            old(self).stage == MuxStage::Video,
            video@.len() <= max_video_len(),
        ensures
            final(self).muxer == old(self).muxer,
            final(self).image_type == old(self).image_type,
            final(self).video_source == old(self).video_source,
            final(self).remuxed == old(self).remuxed,
            final(self).holds_fresh_trailer(),
            final(self).trailer.unwrap()@.video == video@,
            if old(self).muxer.config.no_xmp {
                final(self).stage == MuxStage::Image && r@ == (MuxActionView::ReadImage {
                    path: old(self).muxer.config.image_path@,
                })
            } else {
                final(self).stage == MuxStage::SourceXmp && r@ == (MuxActionView::ReadSourceXmp {
                    image: old(self).muxer.config.image_path@,
                })
            },
    {
        let trailer = SamsungTags::new(video, self.image_type);
        self.trailer = Some(trailer);
        if self.muxer.config.no_xmp {
            self.stage = MuxStage::Image;
            MuxAction::ReadImage { path: self.muxer.config.image_path.clone() }
        } else {
            self.stage = MuxStage::SourceXmp;
            MuxAction::ReadSourceXmp { image: self.muxer.config.image_path.clone() }
        }
    }

    /// Takes the image's own XMP: unless it is blank it is merged in (a source without
    /// rdf:Description is passed over). Then the trailer's layout is recorded and the XMP
    /// goes to the sidecar.
    pub fn on_source_xmp(&mut self, source_xmp: &str) -> (r: Result<MuxAction, LiveMuxError>)
        requires
            old(self).stage == MuxStage::SourceXmp,
            old(self).holds_fresh_trailer(),
            trim(source_xmp@).len() == 0 || mergeable(source_xmp@),
        ensures
            ({
                let t = old(self).trailer.unwrap()@;
                let merged = with_source_xmp(old(self).muxer.xmp@, source_xmp@);
                &&& crate::muxer::describe_trailer_post(
                    merged,
                    final(self).muxer.xmp@,
                    decimal((t.footer().len() - t.image_padding()) as nat),
                    decimal(t.image_padding()),
                    match r {
                        Ok(_) => Ok(()),
                        Err(e) => Err(e),
                    },
                )
                &&& r is Ok ==> {
                    &&& final(self).stage == MuxStage::Sidecar
                    &&& r matches Ok(a) && a@ == (MuxActionView::WriteSidecar {
                        path: final(self).sidecar_path(),
                        bytes: vstd::utf8::encode_utf8(final(self).muxer.xmp@),
                    })
                }
            }),
            final(self).muxer.config == old(self).muxer.config,
            final(self).muxer.output_fpath == old(self).muxer.output_fpath,
            final(self).muxer.org_outfpath == old(self).muxer.org_outfpath,
            final(self).image_type == old(self).image_type,
            final(self).trailer == old(self).trailer,
            final(self).video_source == old(self).video_source,
            final(self).remuxed == old(self).remuxed,
    {
        let blank = trim_chars(&chars_of(source_xmp)).len() == 0;
        if !blank {
            // a source without rdf:Description leaves the XMP as it is
            let _ = self.muxer.xmp.merge_source_xmp(source_xmp);
        }
        let described = match &self.trailer {
            Some(t) => self.muxer.describe_trailer(t),
            None => Ok(()),
        };
        match described {
            Ok(()) => {},
            Err(e) => return Err(e),
        }
        self.stage = MuxStage::Sidecar;
        Ok(
            MuxAction::WriteSidecar {
                path: self.muxer.xmp_sidecar_path(),
                bytes: self.muxer.xmp.to_bytes(),
            },
        )
    }

    /// Takes the end of writing the sidecar: the XMP is embedded into a copy of the image.
    pub fn on_sidecar_written(&mut self) -> (r: MuxAction)
        requires
            old(self).stage == MuxStage::Sidecar,
        ensures
            final(self).muxer == old(self).muxer,
            final(self).image_type == old(self).image_type,
            final(self).trailer == old(self).trailer,
            final(self).video_source == old(self).video_source,
            final(self).remuxed == old(self).remuxed,
            final(self).stage == MuxStage::Embed,
            r@ == (MuxActionView::EmbedXmp {
                image: old(self).muxer.config.image_path@,
                copy: old(self).xmp_image_path(),
                sidecar: old(self).sidecar_path(),
            }),
    {
        self.stage = MuxStage::Embed;
        MuxAction::EmbedXmp {
            image: self.muxer.config.image_path.clone(),
            copy: self.muxer.xmp_image_path(),
            sidecar: self.muxer.xmp_sidecar_path(),
        }
    }

    /// Takes the end of embedding: the image copy with the XMP is read.
    pub fn on_embedded(&mut self) -> (r: MuxAction)
        requires
            old(self).stage == MuxStage::Embed,
        ensures
            final(self).muxer == old(self).muxer,
            final(self).image_type == old(self).image_type,
            final(self).trailer == old(self).trailer,
            final(self).video_source == old(self).video_source,
            final(self).remuxed == old(self).remuxed,
            final(self).stage == MuxStage::Image,
            r@ == (MuxActionView::ReadImage { path: old(self).xmp_image_path() }),
    {
        self.stage = MuxStage::Image;
        MuxAction::ReadImage { path: self.muxer.xmp_image_path() }
    }

    /// Takes the bytes of the leading image and builds the motion photo: the image, then
    /// the trailer carrying the video. It is written to the output path.
    pub fn on_image(&mut self, image: Vec<u8>) -> (r: MuxAction)
        requires
            old(self).stage == MuxStage::Image,
            old(self).holds_fresh_trailer(),
            image@.len() + old(self).trailer.unwrap()@.video.len() <= max_video_len(),
        ensures
            final(self).muxer == old(self).muxer,
            final(self).image_type == old(self).image_type,
            final(self).video_source == old(self).video_source,
            final(self).remuxed == old(self).remuxed,
            final(self).stage == MuxStage::Output,
            r@ == (MuxActionView::WriteOutput {
                path: old(self).muxer.output_fpath@,
                bytes: motion_photo(
                    image@,
                    old(self).trailer.unwrap()@.video,
                    old(self).image_type,
                ),
                times_from: old(self).muxer.config.image_path@,
            }),
    {
        let mut merged_bytes = image;
        let footer = match &mut self.trailer {
            Some(t) => {
                t.set_image_size(merged_bytes.len());
                t.video_footer()
            },
            None => Vec::new(),
        };
        append_slice(&mut merged_bytes, &footer);
        self.stage = MuxStage::Output;
        MuxAction::WriteOutput {
            path: self.muxer.output_fpath.clone(),
            bytes: merged_bytes,
            times_from: self.muxer.config.image_path.clone(),
        }
    }

    /// Takes the end of writing the output: what is left to remove, and the run is over.
    pub fn on_output_written(&mut self) -> (r: MuxAction)
        requires
            old(self).stage == MuxStage::Output,
        ensures
            final(self).muxer == old(self).muxer,
            final(self).remuxed == old(self).remuxed,
            final(self).stage == MuxStage::Finished,
            r@ == (MuxActionView::Cleanup {
                best_effort: old(self).cleanup_lists().0,
                required: old(self).cleanup_lists().1,
            }),
    {
        let c = &self.muxer.config;
        let mut best_effort: Vec<String> = Vec::new();
        let mut required: Vec<String> = Vec::new();
        if !c.no_xmp && c.delete_temp {
            best_effort.push(self.muxer.xmp_sidecar_path());
            best_effort.push(self.muxer.xmp_image_path());
        }
        if let Some(p) = &self.remuxed {
            if c.delete_temp {
                best_effort.push(p.clone());
            }
        }
        if c.delete_video {
            required.push(c.video_path.clone());
        }
        if c.overwrite && !chars_equal(
            &chars_of(self.muxer.output_fpath.as_str()),
            &chars_of(self.muxer.org_outfpath.as_str()),
        ) {
            required.push(self.muxer.org_outfpath.clone());
        }
        proof {
            let lists = self.cleanup_lists();
            assert(strings_view(required@) =~= lists.1);
            assert(strings_view(best_effort@) =~= lists.0);
        }
        self.stage = MuxStage::Finished;
        MuxAction::Cleanup { best_effort, required }
    }
}

impl Muxer {
    /// Starts muxing the pair: the run, and its first action (the metadata of both
    /// inputs is needed).
    pub fn mux(self) -> (r: (MuxRun, MuxAction))
        ensures
            r.0.muxer == self,
            r.0.stage == MuxStage::Metadata,
            r.0.remuxed is None,
            r.0.trailer is None,
            r.1@ == (MuxActionView::ReadMetadata {
                image: self.config.image_path@,
                video: self.config.video_path@,
            }),
    {
        let action = MuxAction::ReadMetadata {
            image: self.config.image_path.clone(),
            video: self.config.video_path.clone(),
        };
        let run = MuxRun {
            muxer: self,
            stage: MuxStage::Metadata,
            image_type: ImageType::Jpg,
            video_source: String::new(),
            remuxed: None,
            trailer: None,
        };
        (run, action)
    }

}

} // verus!
