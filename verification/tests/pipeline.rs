use livemux_core::adb::{
    is_hidden_file_name, media_scan_uri, parse_adb_devices, parse_device_dirs, shell_escape,
};
use livemux_core::batch::{
    check_batch_config, classify_by_exif, classify_by_filename, filename_key,
    incremental_output_path, is_image, is_video, pair_by_key, BatchConfig,
};
use livemux_core::cli::{Cli, Commands, Job};
use livemux_core::error::LiveMuxError;
use livemux_core::exiftool::{find_subsequence, response_before_sentinel};
use livemux_core::ffmpeg::needs_remux;
use livemux_core::muxer::{build_motion_photo, Muxer, MuxerConfig};
use livemux_core::samsung_tags::{ImageType, SamsungTags};
use livemux_core::utils::FileMetadata;

fn batch(output_dir: Option<&str>, overwrite: bool) -> BatchConfig {
    BatchConfig {
        directory: "/in".to_string(),
        output_dir: output_dir.map(|s| s.to_string()),
        recursive: false,
        exif_match: false,
        incremental: true,
        copy_unmuxed: false,
        delete_video: false,
        delete_temp: true,
        overwrite,
    }
}

fn mux_config(output_path: Option<&str>, output_dir: Option<&str>, overwrite: bool) -> MuxerConfig {
    MuxerConfig {
        image_path: "img.HEIC".to_string(),
        video_path: "img.MOV".to_string(),
        output_path: output_path.map(|s| s.to_string()),
        output_directory: output_dir.map(|s| s.to_string()),
        delete_video: false,
        delete_temp: true,
        overwrite,
        no_xmp: false,
    }
}

fn meta(fields: &[(&str, &str)]) -> FileMetadata {
    FileMetadata {
        string_fields: fields.iter().map(|(k, v)| (k.to_string(), v.to_string())).collect(),
    }
}

fn s(x: &str) -> String {
    x.to_string()
}

#[test]
fn image_and_video_extensions() {
    assert!(is_image("/a/IMG_1.HEIC"));
    assert!(is_image("b.jpeg"));
    assert!(is_image("c.Avif"));
    assert!(!is_image("d.png"));
    assert!(!is_image("noext"));
    assert!(is_video("e.MOV"));
    assert!(is_video("f.mp4"));
    assert!(!is_video("g.heic"));
}

#[test]
fn batch_config_conflict() {
    assert!(check_batch_config(&batch(None, true)).is_ok());
    assert!(check_batch_config(&batch(Some("/out"), false)).is_ok());
    match check_batch_config(&batch(Some("/out"), true)) {
        Err(LiveMuxError::ArgConflict(m)) => {
            assert_eq!(m, "--overwrite cannot be used with --output-dir")
        }
        _ => panic!("expected ArgConflict"),
    }
}

#[test]
fn incremental_output_paths() {
    assert_eq!(incremental_output_path(&batch(Some("/out"), false), "/in/A.HEIC"), Some(s("/out/A.HEIC")));
    assert_eq!(incremental_output_path(&batch(None, true), "/in/A.HEIC"), Some(s("/in/A.HEIC")));
    assert_eq!(incremental_output_path(&batch(None, false), "/in/A.HEIC"), Some(s("/in/A.LIVE.HEIC")));
    assert_eq!(incremental_output_path(&batch(Some("/out"), false), "/"), None);
}

#[test]
fn pairing_by_filename() {
    let files = vec![
        s("/d/IMG_1.HEIC"),
        s("/d/img_1.mov"),
        s("/d/IMG_2.JPG"),
        s("/d/notes.txt"),
        s("/d/IMG_3.MP4"),
    ];
    let (images, videos) = classify_by_filename(&files);
    assert_eq!(images, vec![(s("img_1"), s("/d/IMG_1.HEIC")), (s("img_2"), s("/d/IMG_2.JPG"))]);
    assert_eq!(videos, vec![(s("img_1"), s("/d/img_1.mov")), (s("img_3"), s("/d/IMG_3.MP4"))]);
    let pairs = pair_by_key(&images, &videos);
    assert_eq!(pairs, vec![(s("/d/IMG_1.HEIC"), s("/d/img_1.mov"))]);
    assert_eq!(filename_key("/x/Photo.Final.JPG"), "photo.final");
}

#[test]
fn pairing_keeps_last_entry_per_key() {
    let images = vec![(s("k"), s("a1")), (s("j"), s("b")), (s("k"), s("a2"))];
    let videos = vec![(s("k"), s("v1")), (s("k"), s("v2")), (s("j"), s("w"))];
    let pairs = pair_by_key(&images, &videos);
    assert_eq!(pairs, vec![(s("b"), s("w")), (s("a2"), s("v2"))]);
}

#[test]
fn pairing_by_content_identifier() {
    let files = vec![s("a.HEIC"), s("b.MOV"), s("c.JPG"), s("d.MP4")];
    let metas = vec![
        meta(&[("MakerNotes:ContentIdentifier", "ID1")]),
        meta(&[("QuickTime:ContentIdentifier", "ID1")]),
        meta(&[]),
        meta(&[("QuickTime:ContentIdentifier", "ID9")]),
    ];
    let (images, videos) = classify_by_exif(&files, &metas);
    assert_eq!(images, vec![(s("ID1"), s("a.HEIC"))]);
    assert_eq!(videos, vec![(s("ID1"), s("b.MOV")), (s("ID9"), s("d.MP4"))]);
    assert_eq!(pair_by_key(&images, &videos), vec![(s("a.HEIC"), s("b.MOV"))]);
}

#[test]
fn muxer_new_errors_in_order() {
    let cfg = mux_config(None, None, false);
    match Muxer::new(cfg, None, None, true) {
        Err(LiveMuxError::InvalidFile(m)) => assert_eq!(m, "Image file doesn't exist: img.HEIC"),
        _ => panic!(),
    }
    match Muxer::new(mux_config(None, None, false), Some(s("/p/img.HEIC")), None, true) {
        Err(LiveMuxError::InvalidFile(m)) => assert_eq!(m, "Video file doesn't exist: img.MOV"),
        _ => panic!(),
    }
    match Muxer::new(mux_config(None, Some("/o"), false), Some(s("/p/img.HEIC")), Some(s("/p/img.MOV")), false) {
        Err(LiveMuxError::InvalidFile(m)) => assert_eq!(m, "Output directory doesn't exist"),
        _ => panic!(),
    }
    match Muxer::new(mux_config(Some("/x.HEIC"), None, true), Some(s("/p/img.HEIC")), Some(s("/p/img.MOV")), true) {
        Err(LiveMuxError::ArgConflict(m)) => assert_eq!(m, "--overwrite cannot be used with --output"),
        _ => panic!(),
    }
    match Muxer::new(mux_config(Some("/x.HEIC"), Some("/o"), false), Some(s("/p/img.HEIC")), Some(s("/p/img.MOV")), true) {
        Err(LiveMuxError::ArgConflict(m)) => assert_eq!(m, "--output cannot be used with --output-dir"),
        _ => panic!(),
    }
}

#[test]
fn muxer_output_paths() {
    let img = Some(s("/p/img.HEIC"));
    let vid = Some(s("/p/img.MOV"));
    let m = Muxer::new(mux_config(None, None, false), img.clone(), vid.clone(), true).ok().unwrap();
    assert_eq!(m.output_fpath, "/p/img.LIVE.HEIC");
    assert_eq!(m.xmp_sidecar_path(), "/p/img.LIVE.HEIC.XMP");
    assert_eq!(m.xmp_image_path(), "/p/img.LIVE.XMP.HEIC");
    assert_eq!(m.remux_video_path(), "/p/img.REMUX.mp4");
    let m = Muxer::new(mux_config(None, Some("/o"), false), img.clone(), vid.clone(), true).ok().unwrap();
    assert_eq!(m.output_fpath, "/o/img.HEIC");
    let m = Muxer::new(mux_config(None, None, true), img.clone(), vid.clone(), true).ok().unwrap();
    assert_eq!(m.output_fpath, "/p/img.HEIC");
    let m = Muxer::new(mux_config(Some("/q/out.HEIC"), None, false), img, vid, true).ok().unwrap();
    assert_eq!(m.output_fpath, "/q/out.HEIC");
    assert_eq!(m.org_outfpath, "/q/out.HEIC");
}

#[test]
fn muxer_validates_types_and_fixes_extension() {
    let img = Some(s("/p/img.HEIC"));
    let vid = Some(s("/p/img.MOV"));
    let mut m = Muxer::new(mux_config(None, None, false), img, vid, true).ok().unwrap();
    let heic = meta(&[("File:FileTypeExtension", "HEIC")]);
    assert!(matches!(m.validate_image(&heic), Ok(ImageType::Heic)));
    let jpg = meta(&[("File:FileTypeExtension", "JPG")]);
    assert!(matches!(m.validate_image(&jpg), Ok(ImageType::Jpg)));
    let text = String::from_utf8(m.xmp.to_bytes()).unwrap();
    assert!(text.contains("Item:Mime=\"image/jpeg\""));
    m.fix_output_extension(&jpg);
    assert_eq!(m.output_fpath, "/p/img.LIVE.jpg");
    let mp4 = meta(&[("File:FileTypeExtension", "MP4")]);
    m.validate_video(&mp4).ok().unwrap();
    assert!(String::from_utf8(m.xmp.to_bytes()).unwrap().contains("Item:Mime=\"video/mp4\""));
    assert_eq!(m.get_effective_extension("/x/a.MoV", &FileMetadata::empty()), "mov");
}

#[test]
fn muxer_describes_trailer_in_xmp() {
    let mut m = Muxer::new(mux_config(None, None, false), Some(s("/p/a.HEIC")), Some(s("/p/a.MOV")), true)
        .ok()
        .unwrap();
    let mut tags = SamsungTags::new(vec![0u8; 40], ImageType::Heic);
    tags.set_image_size(100);
    m.describe_trailer(&tags).ok().unwrap();
    let text = String::from_utf8(m.xmp.to_bytes()).unwrap();
    let expected_len = format!("Item:Length=\"{}\"", tags.video_footer().len() - 8);
    assert!(text.contains(&expected_len));
    assert!(text.contains("Item:Padding=\"8\""));
}

#[test]
fn motion_photo_is_image_then_trailer() {
    let image = vec![9u8; 50];
    let video = vec![3u8; 20];
    let out = build_motion_photo(image.clone(), video.clone(), ImageType::Jpg);
    assert_eq!(&out[..50], &image[..]);
    assert_eq!(&out[50 + 24..50 + 24 + 20], &video[..]);
    assert!(out.ends_with(b"SEFT"));
}

#[test]
fn sentinel_and_subsequence() {
    assert_eq!(find_subsequence(b"abcabc", b"ca"), Some(2));
    assert_eq!(find_subsequence(b"ab", b"abc"), None);
    let out = b"line1\nline2\r\n{ready12}\n";
    assert_eq!(response_before_sentinel(out, 12), Some(b"line1\nline2".to_vec()));
    assert_eq!(response_before_sentinel(out, 1), None);
    assert_eq!(response_before_sentinel(b"{ready0}", 0), Some(Vec::new()));
}

#[test]
fn remux_decision() {
    let mut qt = [0u8; 12];
    qt[4..8].copy_from_slice(b"ftyp");
    qt[8..12].copy_from_slice(b"qt  ");
    assert!(needs_remux(&qt));
    let mut mp4 = qt;
    mp4[8..12].copy_from_slice(b"isom");
    assert!(!needs_remux(&mp4));
    let mut m4v = qt;
    m4v[8..12].copy_from_slice(b"M4V ");
    assert!(!needs_remux(&m4v));
    assert!(!needs_remux(&[0u8; 12]));
    assert!(!needs_remux(&qt[..11]));
}

#[test]
fn adb_parsing() {
    let out = "List of devices attached\nR58M123 device usb:1 product:x model:SM_G991B device:o\r\nemulator-5554\toffline\nZX1\tdevice\n";
    let devs = parse_adb_devices(out);
    assert_eq!(devs.len(), 2);
    assert_eq!(devs[0].serial, "R58M123");
    assert_eq!(devs[0].model, "SM_G991B");
    assert_eq!(devs[1].serial, "ZX1");
    assert_eq!(devs[1].model, "ZX1");
    assert!(parse_adb_devices("").is_empty());
    let dirs = parse_device_dirs("DCIM/\nfile.txt\nPictures//\n");
    let names: Vec<&str> = dirs.iter().map(|d| d.name.as_str()).collect();
    assert_eq!(names, vec!["DCIM", "Pictures"]);
    assert!(dirs.iter().all(|d| d.has_children));
}

#[test]
fn adb_strings() {
    assert_eq!(shell_escape("/sdcard/it's"), "'/sdcard/it'\\''s'");
    assert_eq!(shell_escape(""), "''");
    assert!(is_hidden_file_name(".nomedia"));
    assert!(!is_hidden_file_name("a.jpg"));
    assert_eq!(media_scan_uri("/sdcard/DCIM", "a.jpg"), "file:///sdcard/DCIM/a.jpg");
    assert_eq!(media_scan_uri("/sdcard/DCIM/", "a.jpg"), "file:///sdcard/DCIM/a.jpg");
    assert_eq!(media_scan_uri("/sdcard/DCIM//", "a.jpg"), "file:///sdcard/DCIM/a.jpg");
}

#[test]
fn cli_jobs() {
    let cli = Cli {
        command: Commands::Mux { image: s("i"), video: s("v"), output: None, no_xmp: true },
        delete_video: true,
        overwrite: false,
        keep_temp: false,
        verbose: true,
    };
    assert_eq!(cli.log_level(), "debug");
    match cli.job() {
        Job::Single(c) => {
            assert!(c.delete_temp && c.delete_video && c.no_xmp);
            assert_eq!(c.image_path, "i");
        }
        Job::Batch(_) => panic!(),
    }
    let cli = Cli {
        command: Commands::Dir {
            directory: s("d"),
            output_dir: Some(s("o")),
            recursive: true,
            exif_match: false,
            incremental: true,
            copy_unmuxed: true,
        },
        delete_video: false,
        overwrite: false,
        keep_temp: true,
        verbose: false,
    };
    assert_eq!(cli.log_level(), "info");
    match cli.job() {
        Job::Batch(c) => {
            assert!(!c.delete_temp && c.recursive && c.copy_unmuxed);
            assert_eq!(c.output_dir, Some(s("o")));
        }
        Job::Single(_) => panic!(),
    }
}

#[test]
fn error_messages() {
    assert_eq!(LiveMuxError::ArgConflict(s("x")).message(), "Argument conflict: x");
    assert_eq!(LiveMuxError::XmpElementMissing(s("y")).message(), "XMP element not found: y");
    assert_eq!(LiveMuxError::ExifTool { message: s("z") }.message(), "ExifTool error: z");
}
