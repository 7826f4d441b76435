use livemux_core::adb::{bundled_exiftool_dir, mkdir_failure, push_progress, PushOutcome};
use livemux_core::batch::{
    find_pairs_by_exif, find_pairs_by_filename, mux_directory, BatchAction, BatchConfig,
};
use livemux_core::exiftool::{
    embed_xmp_args, embedded_video_args, exiftool_command, find_subsequence, metadata_args,
    quicktime_tracks_args, read_xmp_args, remove_apple_livephoto_args, request,
};
use livemux_core::ffmpeg::remux_args;
use livemux_core::mux_run::MuxAction;
use livemux_core::muxer::{build_motion_photo, Muxer, MuxerConfig};
use livemux_core::samsung_tags::{ImageType, SamsungTags};
use livemux_core::error::LiveMuxError;
use livemux_core::path::{has_path_separator, sort_paths};
use livemux_core::text::{char_is_whitespace, parse_i64};
use livemux_core::utils::{parse_metadata, track_duration_text, FileMetadata};

fn s(x: &str) -> String {
    x.to_string()
}

fn strings(xs: &[&str]) -> Vec<String> {
    xs.iter().map(|x| x.to_string()).collect()
}

fn meta(fields: &[(&str, &str)]) -> FileMetadata {
    FileMetadata {
        string_fields: fields.iter().map(|(k, v)| (k.to_string(), v.to_string())).collect(),
    }
}

fn muxer(no_xmp: bool, delete_video: bool) -> Muxer {
    let config = MuxerConfig {
        image_path: s("img.HEIC"),
        video_path: s("img.MOV"),
        output_path: None,
        output_directory: None,
        delete_video,
        delete_temp: true,
        overwrite: false,
        no_xmp,
    };
    match Muxer::new(config, Some(s("/p/img.HEIC")), Some(s("/p/img.MOV")), false) {
        Ok(m) => m,
        Err(_) => panic!("muxer"),
    }
}

fn quicktime_header() -> Vec<u8> {
    let mut h = vec![0u8, 0, 0, 20];
    h.extend_from_slice(b"ftypqt  ");
    h
}

#[test]
fn mux_run_with_xmp_and_remux() {
    let (mut run, action) = muxer(false, true).mux();
    match action {
        MuxAction::ReadMetadata { image, video } => {
            assert_eq!(image, "/p/img.HEIC");
            assert_eq!(video, "/p/img.MOV");
        }
        _ => panic!("expected ReadMetadata"),
    }
    let image_meta = meta(&[("File:FileTypeExtension", "HEIC")]);
    let video_meta = meta(&[("File:FileTypeExtension", "MOV")]);
    let action = match run.on_metadata(&image_meta, &video_meta) {
        Ok(a) => a,
        Err(_) => panic!("metadata step failed"),
    };
    assert!(matches!(action, MuxAction::ReadVideoHeader { ref video } if video == "/p/img.MOV"));
    assert_eq!(run.image_type, ImageType::Heic);

    let action = run.on_video_header(&quicktime_header());
    assert!(matches!(action, MuxAction::CheckFfmpeg));
    let action = run.on_ffmpeg(true);
    match action {
        MuxAction::Remux { from, to } => {
            assert_eq!(from, "/p/img.MOV");
            assert_eq!(to, "/p/img.REMUX.mp4");
        }
        _ => panic!("expected Remux"),
    }
    let action = match run.on_remuxed() {
        Ok(a) => a,
        Err(_) => panic!("remux step failed"),
    };
    assert!(matches!(action, MuxAction::ReadTracks { ref video } if video == "/p/img.MOV"));
    let xmp = String::from_utf8(run.muxer.xmp.to_bytes()).unwrap();
    assert!(xmp.contains("Item:Mime=\"video/mp4\""));

    let xml = "  <Track2:StillImageTime>-1</Track2:StillImageTime>";
    let action = run.on_tracks(xml);
    assert!(matches!(action, MuxAction::MeasureKeyframe { ref track } if track == "2"));
    let action = run.on_keyframe(Some(s("1500000")));
    assert!(matches!(action, MuxAction::ReadVideo { ref path } if path == "/p/img.REMUX.mp4"));
    let xmp = String::from_utf8(run.muxer.xmp.to_bytes()).unwrap();
    assert!(xmp.contains("MotionPhotoPresentationTimestampUs=\"1500000\""));

    let video: Vec<u8> = (0u8..10).collect();
    let action = run.on_video(video.clone());
    assert!(matches!(action, MuxAction::ReadSourceXmp { ref image } if image == "/p/img.HEIC"));
    let action = match run.on_source_xmp("  \n") {
        Ok(a) => a,
        Err(_) => panic!("source XMP step failed"),
    };
    let item_length = SamsungTags::new(video.clone(), ImageType::Heic).get_video_size();
    match action {
        MuxAction::WriteSidecar { path, bytes } => {
            assert_eq!(path, "/p/img.LIVE.HEIC.XMP");
            let text = String::from_utf8(bytes).unwrap();
            assert!(text.contains(&format!("Item:Length=\"{}\"", item_length)));
            assert!(text.contains("Item:Padding=\"8\""));
        }
        _ => panic!("expected WriteSidecar"),
    }
    match run.on_sidecar_written() {
        MuxAction::EmbedXmp { image, copy, sidecar } => {
            assert_eq!(image, "/p/img.HEIC");
            assert_eq!(copy, "/p/img.LIVE.XMP.HEIC");
            assert_eq!(sidecar, "/p/img.LIVE.HEIC.XMP");
        }
        _ => panic!("expected EmbedXmp"),
    }
    let action = run.on_embedded();
    assert!(matches!(action, MuxAction::ReadImage { ref path } if path == "/p/img.LIVE.XMP.HEIC"));
    let image = vec![0xAAu8; 40];
    match run.on_image(image.clone()) {
        MuxAction::WriteOutput { path, bytes, times_from } => {
            assert_eq!(path, "/p/img.LIVE.HEIC");
            assert_eq!(times_from, "/p/img.HEIC");
            assert_eq!(bytes, build_motion_photo(image, video.clone(), ImageType::Heic));
            // the recorded item length, counted back from the end, lands on the video
            let start = bytes.len() - item_length;
            assert_eq!(&bytes[start..start + video.len()], &video[..]);
        }
        _ => panic!("expected WriteOutput"),
    }
    match run.on_output_written() {
        MuxAction::Cleanup { best_effort, required } => {
            assert_eq!(
                best_effort,
                strings(&["/p/img.LIVE.HEIC.XMP", "/p/img.LIVE.XMP.HEIC", "/p/img.REMUX.mp4"])
            );
            assert_eq!(required, strings(&["/p/img.MOV"]));
        }
        _ => panic!("expected Cleanup"),
    }
}

#[test]
fn mux_run_without_xmp() {
    let (mut run, _) = muxer(true, true).mux();
    let action = match run.on_metadata(&meta(&[]), &meta(&[])) {
        Ok(a) => a,
        Err(_) => panic!("metadata step failed"),
    };
    assert!(matches!(action, MuxAction::ReadVideoHeader { .. }));
    assert_eq!(run.image_type, ImageType::Heic);
    // an MP4-branded video is embedded as it is; without XMP no tracks are read
    let mut header = vec![0u8, 0, 0, 20];
    header.extend_from_slice(b"ftypisom");
    let action = run.on_video_header(&header);
    assert!(matches!(action, MuxAction::ReadVideo { ref path } if path == "/p/img.MOV"));
    let video = vec![7u8; 5];
    let action = run.on_video(video.clone());
    assert!(matches!(action, MuxAction::ReadImage { ref path } if path == "/p/img.HEIC"));
    match run.on_image(vec![1u8, 2, 3]) {
        MuxAction::WriteOutput { bytes, .. } => {
            assert_eq!(bytes, build_motion_photo(vec![1u8, 2, 3], video, ImageType::Heic));
        }
        _ => panic!("expected WriteOutput"),
    }
    match run.on_output_written() {
        MuxAction::Cleanup { best_effort, required } => {
            assert!(best_effort.is_empty());
            assert_eq!(required, strings(&["/p/img.MOV"]));
        }
        _ => panic!("expected Cleanup"),
    }
}

#[test]
fn mux_run_without_ffmpeg_keeps_the_mov_and_unparsable_keyframe_stays_unset() {
    let (mut run, _) = muxer(false, false).mux();
    let _ = run.on_metadata(&meta(&[]), &meta(&[]));
    assert!(matches!(run.on_video_header(&quicktime_header()), MuxAction::CheckFfmpeg));
    let action = run.on_ffmpeg(false);
    assert!(matches!(action, MuxAction::ReadTracks { .. }));
    assert!(run.remuxed.is_none());
    assert!(matches!(run.on_tracks("<Track1:StillImageTime>-1<"), MuxAction::MeasureKeyframe { .. }));
    let action = run.on_keyframe(Some(s("not a number")));
    assert!(matches!(action, MuxAction::ReadVideo { ref path } if path == "/p/img.MOV"));
    let xmp = String::from_utf8(run.muxer.xmp.to_bytes()).unwrap();
    assert!(xmp.contains("MotionPhotoPresentationTimestampUs=\"-1\""));
}

#[test]
fn mux_run_jpg_sets_primary_mime() {
    let (mut run, _) = muxer(false, false).mux();
    let image_meta = meta(&[("File:FileTypeExtension", "JPG")]);
    let _ = run.on_metadata(&image_meta, &meta(&[]));
    assert_eq!(run.image_type, ImageType::Jpg);
    assert_eq!(run.muxer.output_fpath, "/p/img.LIVE.jpg");
    let xmp = String::from_utf8(run.muxer.xmp.to_bytes()).unwrap();
    assert!(xmp.contains("Item:Mime=\"image/jpeg\""));
    // no keyframe track: the video is read right away
    let _ = run.on_video_header(&[]);
    assert!(matches!(run.on_tracks("<nothing/>"), MuxAction::ReadVideo { .. }));
}

fn batch_config(incremental: bool, output_dir: Option<&str>, copy_unmuxed: bool) -> BatchConfig {
    BatchConfig {
        directory: s("/d"),
        output_dir: output_dir.map(s),
        recursive: false,
        exif_match: false,
        incremental,
        copy_unmuxed,
        delete_video: false,
        delete_temp: true,
        overwrite: false,
    }
}

#[test]
fn batch_run_skips_muxes_and_reports() {
    let pairs = vec![(s("/d/a.HEIC"), s("/d/a.MOV")), (s("/d/b.JPG"), s("/d/b.MOV"))];
    let mut run = mux_directory(batch_config(true, None, false), pairs).unwrap().unwrap();
    match run.next_action() {
        BatchAction::CheckMuxed { output, video } => {
            assert_eq!(output, "/d/a.LIVE.HEIC");
            assert_eq!(video, "/d/a.MOV");
        }
        _ => panic!("expected CheckMuxed"),
    }
    match run.on_checked(true) {
        BatchAction::Report { progress } => {
            assert_eq!(progress.current, 1);
            assert_eq!(progress.total, 2);
            assert_eq!(progress.file, "/d/a.HEIC");
            assert!(progress.success);
            assert_eq!(progress.error, Some(s("Skipped (already muxed)")));
        }
        _ => panic!("expected Report"),
    }
    assert!(matches!(run.next_action(), BatchAction::CheckMuxed { .. }));
    match run.on_checked(false) {
        BatchAction::Mux { config } => {
            assert_eq!(config.image_path, "/d/b.JPG");
            assert_eq!(config.video_path, "/d/b.MOV");
            assert!(config.output_path.is_none());
            assert!(config.output_directory.is_none());
            assert!(config.delete_temp);
            assert!(!config.no_xmp);
        }
        _ => panic!("expected Mux"),
    }
    match run.on_muxed(Err(s("Invalid file: boom"))) {
        BatchAction::Report { progress } => {
            assert_eq!(progress.current, 2);
            assert!(!progress.success);
            assert_eq!(progress.error, Some(s("Invalid file: boom")));
        }
        _ => panic!("expected Report"),
    }
    assert!(matches!(run.next_action(), BatchAction::Finish));
}

#[test]
fn batch_run_copies_unmatched_images() {
    let pairs = vec![(s("/d/a.HEIC"), s("/d/a.MOV"))];
    let mut run = mux_directory(batch_config(false, Some("/out"), true), pairs).unwrap().unwrap();
    match run.next_action() {
        BatchAction::Mux { config } => assert_eq!(config.output_directory, Some(s("/out"))),
        _ => panic!("expected Mux"),
    }
    match run.on_muxed(Ok(())) {
        BatchAction::Report { progress } => {
            assert!(progress.success);
            assert!(progress.error.is_none());
        }
        _ => panic!("expected Report"),
    }
    match run.next_action() {
        BatchAction::CopyUnmatched { output_dir } => assert_eq!(output_dir, "/out"),
        _ => panic!("expected CopyUnmatched"),
    }
    assert_eq!(run.copy_target("/d/c.jpg", "/out"), Some(s("/out/c.jpg")));
    assert_eq!(run.copy_target("/d/a.HEIC", "/out"), None);
    assert_eq!(run.copy_target("/d/x.MOV", "/out"), None);
}

#[test]
fn batch_run_copy_needs_output_dir() {
    let mut run = mux_directory(batch_config(false, None, true), Vec::new()).unwrap().unwrap();
    assert!(matches!(run.next_action(), BatchAction::Finish));
    // an output directory needs a file name for every paired image
    let unnamed = vec![(s("/"), s("/d/a.MOV"))];
    assert!(mux_directory(batch_config(false, Some("/out"), false), unnamed).unwrap().is_none());
    assert_eq!(run.copy_target("/", "/out"), None);
}

#[test]
fn finding_pairs() {
    let files = strings(&["/d/A.heic", "/d/a.mov", "/d/b.jpg", "/d/c.mp4"]);
    assert_eq!(find_pairs_by_filename(&files), vec![(s("/d/A.heic"), s("/d/a.mov"))]);
    let metas = vec![
        meta(&[("MakerNotes:ContentIdentifier", "X")]),
        meta(&[("QuickTime:ContentIdentifier", "Y")]),
        meta(&[("MakerNotes:ContentIdentifier", "Y")]),
        meta(&[("QuickTime:ContentIdentifier", "Z")]),
    ];
    assert_eq!(find_pairs_by_exif(&files, &metas), vec![(s("/d/b.jpg"), s("/d/a.mov"))]);
}

#[test]
fn exiftool_requests() {
    assert_eq!(request(&strings(&["-j", "a.jpg"]), 3), "-j\na.jpg\n-execute3\n");
    assert_eq!(request(&Vec::new(), 12), "-execute12\n");
    let (program, args) = exiftool_command(None);
    assert_eq!(program, "exiftool");
    assert_eq!(args, strings(&["-stay_open", "True", "-@", "-"]));
    let (program, args) = exiftool_command(Some(s("/b/exiftool")));
    assert_eq!(program, "perl");
    assert_eq!(args, strings(&["/b/exiftool", "-stay_open", "True", "-@", "-"]));
    assert_eq!(metadata_args(&strings(&["a", "b"])), strings(&["-j", "-n", "a", "b"]));
    assert_eq!(read_xmp_args("i"), strings(&["-XMP", "-b", "i"]));
    assert_eq!(
        embed_xmp_args("s.XMP", "i"),
        strings(&["-overwrite_original", "-tagsfromfile", "s.XMP", "-xmp", "i"])
    );
    assert_eq!(
        quicktime_tracks_args("v"),
        strings(&["-X", "-ee", "-n", "-QuickTime:StillImageTime", "-QuickTime:TrackDuration", "v"])
    );
    assert_eq!(
        remove_apple_livephoto_args("i"),
        strings(&["-overwrite_original", "-MakerNotes:all=", "i"])
    );
    assert_eq!(embedded_video_args("i", false), strings(&["-b", "-MotionPhotoVideo", "i"]));
    assert_eq!(embedded_video_args("i", true), strings(&["-b", "-EmbeddedVideoFile", "i"]));
}

#[test]
fn ffmpeg_remux_arguments() {
    assert_eq!(
        remux_args("in.MOV", "out.mp4"),
        strings(&[
            "-y", "-i", "in.MOV", "-c", "copy", "-map", "0:v:0", "-map", "0:a:0?", "-movflags",
            "+faststart", "out.mp4",
        ])
    );
}

#[test]
fn integer_parsing() {
    assert_eq!(parse_i64("1500000"), Some(1500000));
    assert_eq!(parse_i64("-1"), Some(-1));
    assert_eq!(parse_i64("+7"), Some(7));
    assert_eq!(parse_i64("007"), Some(7));
    assert_eq!(parse_i64("9223372036854775807"), Some(i64::MAX));
    assert_eq!(parse_i64("-9223372036854775808"), Some(i64::MIN));
    assert_eq!(parse_i64("9223372036854775808"), None);
    assert_eq!(parse_i64("99999999999999999999999"), None);
    assert_eq!(parse_i64(""), None);
    assert_eq!(parse_i64("-"), None);
    assert_eq!(parse_i64("1.5"), None);
    assert_eq!(parse_i64(" 1"), None);
    assert_eq!(parse_i64("NaN"), None);
    for n in [0i64, 7, -1, 1500000, i64::MAX, i64::MIN, -42] {
        assert_eq!(parse_i64(&n.to_string()), Some(n));
    }
}

#[test]
fn written_output_is_recognized_as_muxed() {
    for image_type in [ImageType::Heic, ImageType::Jpg] {
        let video: Vec<u8> = (1u8..=30).collect();
        let out = build_motion_photo(vec![9u8; 17], video.clone(), image_type);
        assert!(find_subsequence(&out, &video).is_some());
    }
}

#[test]
fn sefh_found_from_the_end() {
    for image_type in [ImageType::Heic, ImageType::Jpg] {
        let f = SamsungTags::new(vec![5u8; 10], image_type).video_footer();
        let n = f.len();
        let len = u32::from_le_bytes([f[n - 8], f[n - 7], f[n - 6], f[n - 5]]) as usize;
        let start = n - 8 - len;
        assert_eq!(&f[start..start + 4], b"SEFH");
        assert_eq!(u32::from_le_bytes([f[start + 4], f[start + 5], f[start + 6], f[start + 7]]), 107);
        assert_eq!(u32::from_le_bytes([f[start + 8], f[start + 9], f[start + 10], f[start + 11]]), 2);
    }
}

#[test]
fn track_duration_capture() {
    let xml = "  <Track2:TrackDuration>1.5</Track2:TrackDuration>";
    assert_eq!(track_duration_text("2", xml), Some(s("1.5")));
    assert_eq!(track_duration_text("1", xml), None);
    let xml = "  <Track1:TrackDuration>3</Track1:TrackDuration>";
    assert_eq!(track_duration_text("1", xml), Some(s("3")));
}

#[test]
fn adb_push_reports() {
    let p = push_progress(1, 3, "/src/a.jpg", PushOutcome::Pushing);
    assert_eq!((p.current, p.total), (1, 3));
    assert_eq!(p.file, "/src/a.jpg");
    assert_eq!(p.status, "pushing");
    assert!(p.error.is_none());
    let p = push_progress(1, 3, "/src/a.jpg", PushOutcome::Done);
    assert_eq!(p.status, "done");
    let p = push_progress(2, 3, "/src/b.jpg", PushOutcome::Failed(s("  no space\n")));
    assert_eq!(p.status, "error");
    assert_eq!(p.error, Some(s("no space")));
    let p = push_progress(3, 3, "/src/c.jpg", PushOutcome::NotRun(s("No such file")));
    assert_eq!(p.error, Some(s("No such file")));
    assert_eq!(mkdir_failure("denied"), "Failed to create directory on device: denied");
}

#[test]
fn batch_run_refuses_overwrite_with_output_dir() {
    let mut config = batch_config(false, Some("/out"), false);
    config.overwrite = true;
    match mux_directory(config, vec![(s("/d/a.HEIC"), s("/d/a.MOV"))]) {
        Err(LiveMuxError::ArgConflict(m)) => {
            assert_eq!(m, "--overwrite cannot be used with --output-dir")
        }
        _ => panic!("expected ArgConflict"),
    }
}

#[test]
fn pairs_come_sorted_by_image_path() {
    let files = strings(&["/d/b.jpg", "/d/b.mov", "/d/a.heic", "/d/a.mov", "/d/c.jpg", "/d/c.mp4"]);
    assert_eq!(
        find_pairs_by_filename(&files),
        vec![(s("/d/a.heic"), s("/d/a.mov")), (s("/d/b.jpg"), s("/d/b.mov")), (s("/d/c.jpg"), s("/d/c.mp4"))]
    );
    let files = strings(&["/d/z.jpg", "/d/z.mov", "/d/y.jpg", "/d/y.mov"]);
    let metas = vec![
        meta(&[("MakerNotes:ContentIdentifier", "1")]),
        meta(&[("QuickTime:ContentIdentifier", "1")]),
        meta(&[("MakerNotes:ContentIdentifier", "2")]),
        meta(&[("QuickTime:ContentIdentifier", "2")]),
    ];
    assert_eq!(
        find_pairs_by_exif(&files, &metas),
        vec![(s("/d/y.jpg"), s("/d/y.mov")), (s("/d/z.jpg"), s("/d/z.mov"))]
    );
}

#[test]
fn paths_sort_by_components() {
    assert_eq!(sort_paths(strings(&["/s/b", "/s/a-b", "/s/a/c", "/s/a"])), strings(&["/s/a", "/s/a/c", "/s/a-b", "/s/b"]));
    assert!(sort_paths(Vec::new()).is_empty());
}

#[test]
fn metadata_parsing() {
    let raw = "  [{\"SourceFile\": \"a.jpg\", \"ImageWidth\": 4032, \"MakerNotes:ContentIdentifier\": \"X\"}, {\"QuickTime:ContentIdentifier\": \"Y\", \"Flag\": null}]\n";
    let records = parse_metadata(raw).unwrap();
    assert_eq!(records.len(), 2);
    assert_eq!(records[0].get_str("MakerNotes:ContentIdentifier"), Some(s("X")));
    assert_eq!(records[0].get_str("SourceFile"), Some(s("a.jpg")));
    assert_eq!(records[0].get_str("ImageWidth"), None);
    assert_eq!(records[1].get_str("QuickTime:ContentIdentifier"), Some(s("Y")));
    assert_eq!(records[1].get_str("Flag"), None);
    assert!(matches!(parse_metadata("not json"), Err(LiveMuxError::Json(_))));
    assert!(matches!(parse_metadata("{}"), Err(LiveMuxError::Json(_))));
    assert_eq!(parse_metadata("[]").unwrap().len(), 0);
}

#[test]
fn whitespace_is_unicode_white_space() {
    for c in (0u32..0x3100).filter_map(char::from_u32) {
        assert_eq!(char_is_whitespace(c), c.is_whitespace(), "{:?}", c);
    }
}

#[test]
fn separators_in_detected_type_leave_the_output() {
    assert!(has_path_separator("a/b"));
    assert!(has_path_separator("a\\b"));
    assert!(!has_path_separator("heic"));
    let m = match Muxer::new_checked(
        MuxerConfig {
            image_path: s("img.HEIC"),
            video_path: s("img.MOV"),
            output_path: None,
            output_directory: None,
            delete_video: false,
            delete_temp: true,
            overwrite: false,
            no_xmp: false,
        },
        Some(s("/p/img.HEIC")),
        Some(s("/p/img.MOV")),
        false,
    ) {
        Some(Ok(m)) => m,
        _ => panic!("muxer"),
    };
    let mut m = m;
    m.fix_output_extension(&meta(&[("File:FileTypeExtension", "x/y")]));
    assert_eq!(m.output_fpath, "/p/img.LIVE.HEIC");
    m.fix_output_extension(&meta(&[("File:FileTypeExtension", "JPG")]));
    assert_eq!(m.output_fpath, "/p/img.LIVE.jpg");
}

#[test]
fn checked_muxer_needs_an_image_name_for_the_output_dir() {
    let config = MuxerConfig {
        image_path: s("/"),
        video_path: s("v.MOV"),
        output_path: None,
        output_directory: Some(s("/out")),
        delete_video: false,
        delete_temp: true,
        overwrite: false,
        no_xmp: false,
    };
    assert!(Muxer::new_checked(config, Some(s("/")), Some(s("/v.MOV")), true).is_none());
}

#[test]
fn sefh_slots_locate_their_entries() {
    for image_type in [ImageType::Heic, ImageType::Jpg] {
        let mut t = SamsungTags::new(vec![3u8; 21], image_type);
        t.set_image_size(1000);
        let f = t.video_footer();
        let le = |b: &[u8]| u32::from_le_bytes([b[0], b[1], b[2], b[3]]) as usize;
        let s0 = f.len() - 44;
        assert_eq!(le(&f[s0 + 8..]), 2);
        let names: [&[u8]; 2] = [b"MotionPhoto_Data", b"MotionPhoto_Version"];
        for (j, name) in names.iter().enumerate() {
            let slot = s0 + 12 + 12 * j;
            let back = le(&f[slot + 4..]);
            let len = le(&f[slot + 8..]);
            let entry = &f[s0 - back..s0 - back + len];
            assert_eq!(&entry[..4], &f[slot..slot + 4]);
            assert_eq!(le(&entry[4..]), name.len());
            assert_eq!(&entry[8..8 + name.len()], *name);
        }
    }
}

#[test]
fn mux_run_without_xmp_overwrites_and_deletes() {
    let config = MuxerConfig {
        image_path: s("a.jpg"),
        video_path: s("a.MOV"),
        output_path: None,
        output_directory: None,
        delete_video: true,
        delete_temp: true,
        overwrite: true,
        no_xmp: true,
    };
    let m = match Muxer::new(config, Some(s("/p/a.jpg")), Some(s("/p/a.MOV")), false) {
        Ok(m) => m,
        Err(_) => panic!("muxer"),
    };
    let (mut run, _) = m.mux();
    let _ = run.on_metadata(&meta(&[("File:FileTypeExtension", "HEIC")]), &meta(&[]));
    assert_eq!(run.muxer.output_fpath, "/p/a.heic");
    assert!(matches!(run.on_video_header(&[]), MuxAction::ReadVideo { .. }));
    assert!(matches!(run.on_video(vec![1u8, 2]), MuxAction::ReadImage { .. }));
    assert!(matches!(run.on_image(vec![9u8; 4]), MuxAction::WriteOutput { .. }));
    match run.on_output_written() {
        MuxAction::Cleanup { best_effort, required } => {
            assert!(best_effort.is_empty());
            assert_eq!(required, strings(&["/p/a.MOV", "/p/a.jpg"]));
        }
        _ => panic!("expected Cleanup"),
    }
}

#[test]
fn image_size_changes_only_the_data_value() {
    let video = vec![4u8; 33];
    let before = SamsungTags::new(video.clone(), ImageType::Heic).video_footer();
    let mut t = SamsungTags::new(video.clone(), ImageType::Heic);
    t.set_image_size(5000);
    let after = t.video_footer();
    assert_eq!(after.len(), before.len());
    let at = video.len() + 40;
    let mut data = b"mpv2".to_vec();
    data.extend_from_slice(&5008u32.to_be_bytes());
    data.extend_from_slice(&33u32.to_be_bytes());
    assert_eq!(&after[at..at + 12], &data[..]);
    for i in 0..after.len() {
        if i < at || i >= at + 12 {
            assert_eq!(after[i], before[i]);
        }
    }
    let jpg_before = SamsungTags::new(video.clone(), ImageType::Jpg).video_footer();
    let mut j = SamsungTags::new(video, ImageType::Jpg);
    j.set_image_size(5000);
    assert_eq!(j.video_footer(), jpg_before);
}

#[test]
fn bundled_exiftool_choice() {
    assert_eq!(bundled_exiftool_dir(s("w"), s("u"), true, true), Some(s("w")));
    assert_eq!(bundled_exiftool_dir(s("w"), s("u"), false, true), Some(s("u")));
    assert_eq!(bundled_exiftool_dir(s("w"), s("u"), false, false), None);
}
