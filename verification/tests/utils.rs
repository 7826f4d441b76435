use livemux_core::utils::{
    enrich_fname, extract_track_number, get_content_id, verify_video_in_image, FileMetadata,
};

#[test]
fn test_enrich_fname() {
    let p = "/photos/IMG_001.HEIC";
    assert_eq!(enrich_fname(p, "LIVE"), "/photos/IMG_001.LIVE.HEIC");
}

#[test]
fn test_enrich_fname_no_ext() {
    let p = "/photos/IMG_001";
    assert_eq!(enrich_fname(p, "LIVE"), "/photos/IMG_001.LIVE");
}

#[test]
fn test_verify_video_ftyp() {
    let mut data = vec![0u8; 20];
    data[4..8].copy_from_slice(b"ftyp");
    assert!(verify_video_in_image(&data));
}

#[test]
fn test_verify_video_reject_ftypheic() {
    let mut data = vec![0u8; 20];
    data[4..12].copy_from_slice(b"ftypheic");
    assert!(!verify_video_in_image(&data));
}

#[test]
fn test_verify_video_too_short() {
    assert!(!verify_video_in_image(&[0u8; 5]));
}

#[test]
fn test_extract_track_number() {
    let xml = r#"  <Track2:StillImageTime>-1</Track2:StillImageTime>"#;
    assert_eq!(extract_track_number(xml), Some("2".to_string()));
}

// ----- further cases -----

#[test]
fn extract_track_number_absent() {
    let xml = "<Track1:StillImageTime>0</Track1:StillImageTime>";
    assert_eq!(extract_track_number(xml), None);
}

#[test]
fn extract_track_number_first_of_several() {
    let xml = "<Track3:StillImageTime>-1<\n<Track4:StillImageTime>-1<";
    assert_eq!(extract_track_number(xml), Some("3".to_string()));
}

#[test]
fn verify_video_wide_signature() {
    let mut data = vec![0u8; 15];
    data[0..4].copy_from_slice(b"wide");
    assert!(verify_video_in_image(&data));
}

#[test]
fn verify_video_signature_beyond_header_ignored() {
    let mut data = vec![0u8; 30];
    data[20..24].copy_from_slice(b"ftyp");
    assert!(!verify_video_in_image(&data));
}

#[test]
fn verify_video_rejects_audio_and_avif() {
    let mut m4a = vec![0u8; 20];
    m4a[4..11].copy_from_slice(b"ftypM4A");
    assert!(!verify_video_in_image(&m4a));
    let mut avif = vec![0u8; 20];
    avif[4..12].copy_from_slice(b"ftypavif");
    assert!(!verify_video_in_image(&avif));
}

#[test]
fn enrich_fname_multiple_dots() {
    assert_eq!(enrich_fname("a/b.c.jpg", "XMP"), "a/b.c.XMP.jpg");
}

#[test]
fn content_id_lookup() {
    let meta = FileMetadata {
        string_fields: vec![
            ("SourceFile".to_string(), "x.mov".to_string()),
            ("QuickTime:ContentIdentifier".to_string(), "ABC-123".to_string()),
        ],
    };
    assert_eq!(get_content_id(&meta, "QuickTime:ContentIdentifier"), Some("ABC-123".to_string()));
    assert_eq!(get_content_id(&meta, "MakerNotes:ContentIdentifier"), None);
    assert_eq!(get_content_id(&FileMetadata::empty(), "SourceFile"), None);
}
