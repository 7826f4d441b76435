use livemux_core::samsung_tags::{ImageType, SamsungTags};

#[test]
fn test_heic_motionphoto_data_encoding() {
    let video = vec![0u8; 100];
    let mut tags = SamsungTags::new(video, ImageType::Heic);
    tags.set_image_size(1000);

    let footer = tags.video_footer();
    // the video bytes are all zeros, so "mpv2" only appears in the tag data
    let pos = footer
        .windows(4)
        .rposition(|w| w == b"mpv2")
        .expect("mpv2 marker not found");
    let offset_be = i32::from_be_bytes(footer[pos + 4..pos + 8].try_into().unwrap());
    let size_be = i32::from_be_bytes(footer[pos + 8..pos + 12].try_into().unwrap());
    assert_eq!(offset_be, 1008); // 1000 + MPVD_BOX_SIZE(8)
    assert_eq!(size_be, 100);
}

#[test]
fn test_sefh_little_endian_version() {
    let video = vec![0u8; 50];
    let tags = SamsungTags::new(video, ImageType::Jpg);
    let footer = tags.video_footer();

    let pos = footer
        .windows(4)
        .position(|w| w == b"SEFH")
        .expect("SEFH not found");
    let version = i32::from_le_bytes(footer[pos + 4..pos + 8].try_into().unwrap());
    assert_eq!(version, 107);
}

#[test]
fn test_footer_ends_with_seft() {
    let video = vec![0u8; 10];
    let tags = SamsungTags::new(video, ImageType::Jpg);
    let footer = tags.video_footer();
    assert!(footer.ends_with(b"SEFT"));

    let tags_heic = SamsungTags::new(vec![0u8; 10], ImageType::Heic);
    let footer_heic = tags_heic.video_footer();
    assert!(footer_heic.ends_with(b"SEFT"));
}

#[test]
fn test_heic_starts_with_mpvd() {
    let video = vec![0u8; 10];
    let tags = SamsungTags::new(video, ImageType::Heic);
    let footer = tags.video_footer();
    assert_eq!(&footer[4..8], b"mpvd");
}

#[test]
fn test_jpg_no_mpvd() {
    let video = vec![0u8; 10];
    let tags = SamsungTags::new(video, ImageType::Jpg);
    let footer = tags.video_footer();
    assert!(footer.windows(4).position(|w| w == b"mpvd").is_none());
}

#[test]
fn test_tag_order_data_before_version() {
    let video = vec![0u8; 10];
    let tags = SamsungTags::new(video, ImageType::Jpg);
    let footer = tags.video_footer();
    let data_pos = footer
        .windows(16)
        .position(|w| w == b"MotionPhoto_Data")
        .unwrap();
    let version_pos = footer
        .windows(19)
        .position(|w| w == b"MotionPhoto_Version")
        .unwrap();
    assert!(data_pos < version_pos);
}

#[test]
fn test_heic_image_padding_is_mpvd_box_size() {
    let tags = SamsungTags::new(vec![0u8; 10], ImageType::Heic);
    assert_eq!(tags.get_image_padding(), 8);
}

#[test]
fn test_jpg_image_padding() {
    let tags = SamsungTags::new(vec![0u8; 10], ImageType::Jpg);
    let padding = tags.get_image_padding();
    // tag_id(4) + name_len_field(4) + "MotionPhoto_Data"(16) = 24
    assert_eq!(padding, 24);
}

// ----- further cases -----

#[test]
fn jpg_footer_exact_layout() {
    let video = vec![0xAAu8, 0xBB, 0xCC];
    let tags = SamsungTags::new(video.clone(), ImageType::Jpg);
    let footer = tags.video_footer();
    let mut expected: Vec<u8> = Vec::new();
    // MotionPhoto_Data entry
    expected.extend_from_slice(&[0x00, 0x00, 0x30, 0x0a]);
    expected.extend_from_slice(&16i32.to_le_bytes());
    expected.extend_from_slice(b"MotionPhoto_Data");
    expected.extend_from_slice(&video);
    let data_len = expected.len();
    // MotionPhoto_Version entry
    expected.extend_from_slice(&[0x00, 0x00, 0x31, 0x0a]);
    expected.extend_from_slice(&19i32.to_le_bytes());
    expected.extend_from_slice(b"MotionPhoto_Version");
    expected.extend_from_slice(b"mpv3");
    let total = expected.len();
    let version_len = total - data_len;
    // SEFH directory
    let mut sefh: Vec<u8> = Vec::new();
    sefh.extend_from_slice(b"SEFH");
    sefh.extend_from_slice(&107i32.to_le_bytes());
    sefh.extend_from_slice(&2i32.to_le_bytes());
    sefh.extend_from_slice(&[0x00, 0x00, 0x30, 0x0a]);
    sefh.extend_from_slice(&(total as i32).to_le_bytes());
    sefh.extend_from_slice(&(data_len as i32).to_le_bytes());
    sefh.extend_from_slice(&[0x00, 0x00, 0x31, 0x0a]);
    sefh.extend_from_slice(&(version_len as i32).to_le_bytes());
    sefh.extend_from_slice(&(version_len as i32).to_le_bytes());
    let sefh_len = sefh.len() as i32;
    sefh.extend_from_slice(&sefh_len.to_le_bytes());
    sefh.extend_from_slice(b"SEFT");
    expected.extend_from_slice(&sefh);
    assert_eq!(footer, expected);
}

#[test]
fn heic_mpvd_box_size_is_footer_length() {
    let mut tags = SamsungTags::new(vec![7u8; 33], ImageType::Heic);
    tags.set_image_size(500);
    let footer = tags.video_footer();
    let size = u32::from_be_bytes(footer[0..4].try_into().unwrap());
    assert_eq!(size as usize, footer.len());
    // sefd box right after the video
    assert_eq!(&footer[8 + 33 + 4..8 + 33 + 8], b"sefd");
}

#[test]
fn video_found_at_file_size_minus_item_length() {
    for image_type in [ImageType::Heic, ImageType::Jpg] {
        let video: Vec<u8> = (0u8..=200).collect();
        let image = vec![0x11u8; 77];
        let mut tags = SamsungTags::new(video.clone(), image_type);
        tags.set_image_size(image.len());
        let mut file = image.clone();
        file.extend_from_slice(&tags.video_footer());
        let start = file.len() - tags.get_video_size();
        assert_eq!(start, image.len() + tags.get_image_padding());
        assert_eq!(&file[start..start + video.len()], &video[..]);
    }
}

#[test]
fn heic_placeholder_before_image_size_is_set() {
    let tags = SamsungTags::new(vec![0u8; 4], ImageType::Heic);
    let footer = tags.video_footer();
    assert!(footer.windows(12).any(|w| w == b"mpv2___.___."));
}

#[test]
fn video_size_excludes_padding() {
    let tags = SamsungTags::new(vec![1u8; 10], ImageType::Jpg);
    assert_eq!(tags.get_video_size(), tags.video_footer().len() - 24);
    let tags = SamsungTags::new(vec![1u8; 10], ImageType::Heic);
    assert_eq!(tags.get_video_size(), tags.video_footer().len() - 8);
}
