use livemux_core::error::LiveMuxError;
use livemux_core::xmp::{
    extract_description_attrs, extract_description_children, extract_xmlns_attrs,
    filter_container_directory, find_description_attrs_end, source_xmp_is_mergeable,
    XmpDocument,
};

fn text(doc: &XmpDocument) -> String {
    String::from_utf8(doc.to_bytes()).unwrap()
}

fn chars(s: &str) -> Vec<char> {
    s.chars().collect()
}

fn strings(v: Vec<Vec<char>>) -> Vec<String> {
    v.into_iter().map(|c| c.into_iter().collect()).collect()
}

#[test]
fn test_template_preserves_namespaces() {
    let doc = XmpDocument::from_template().unwrap();
    let s = String::from_utf8(doc.to_bytes()).unwrap();
    assert!(s.contains("GCamera:MotionPhoto=\"1\""));
    assert!(s.contains("Item:Semantic=\"Primary\""));
    assert!(s.contains("Item:Mime=\"image/heic\""));
    assert!(s.contains("rdf:parseType=\"Resource\""));
}

#[test]
fn test_set_timestamp() {
    let mut doc = XmpDocument::from_template().unwrap();
    doc.set_timestamp(1500000).unwrap();
    let s = String::from_utf8(doc.to_bytes()).unwrap();
    assert!(s.contains("MotionPhotoPresentationTimestampUs=\"1500000\""));
    assert!(!s.contains("TimestampUs=\"-1\""));
}

#[test]
fn test_set_primary_mime() {
    let mut doc = XmpDocument::from_template().unwrap();
    doc.set_primary_mime("image/jpeg").unwrap();
    let s = String::from_utf8(doc.to_bytes()).unwrap();
    // Primary item should have jpeg, MotionPhoto should still have quicktime
    assert!(s.contains("Item:Mime=\"image/jpeg\""));
    assert!(s.contains("Item:Mime=\"video/quicktime\""));
}

#[test]
fn test_set_motionphoto_length() {
    let mut doc = XmpDocument::from_template().unwrap();
    doc.set_motionphoto_length(12345).unwrap();
    let s = String::from_utf8(doc.to_bytes()).unwrap();
    assert!(s.contains("Item:Length=\"12345\""));
}

#[test]
fn test_set_primary_padding() {
    let mut doc = XmpDocument::from_template().unwrap();
    doc.set_primary_padding(8).unwrap();
    let s = String::from_utf8(doc.to_bytes()).unwrap();
    assert!(s.contains("Item:Padding=\"8\""));
}

#[test]
fn test_filter_container_directory() {
    let xml = "<foo/><Container:Directory><inner/></Container:Directory><bar/>";
    assert_eq!(filter_container_directory(xml), "<foo/><bar/>");
}

// ----- further cases -----

#[test]
fn template_round_trips_unchanged() {
    let doc = XmpDocument::from_template().unwrap();
    assert_eq!(text(&doc), livemux_core::constants::XMP_TEMPLATE);
}

#[test]
fn negative_timestamp_and_zero() {
    let mut doc = XmpDocument::from_template().unwrap();
    doc.set_timestamp(-250).unwrap();
    assert!(text(&doc).contains("MotionPhotoPresentationTimestampUs=\"-250\""));
    let mut doc = XmpDocument::from_template().unwrap();
    doc.set_timestamp(0).unwrap();
    assert!(text(&doc).contains("MotionPhotoPresentationTimestampUs=\"0\""));
    let mut doc = XmpDocument::from_template().unwrap();
    doc.set_timestamp(i64::MIN).unwrap();
    assert!(text(&doc).contains("TimestampUs=\"-9223372036854775808\""));
}

#[test]
fn setters_touch_only_their_item() {
    let mut doc = XmpDocument::from_template().unwrap();
    doc.set_motionphoto_mime("video/mp4").unwrap();
    doc.set_motionphoto_length(999).unwrap();
    let s = text(&doc);
    assert!(s.contains("Item:Mime=\"image/heic\""));
    assert!(s.contains("Item:Mime=\"video/mp4\""));
    assert!(s.contains("Item:Length=\"0\""));
    assert!(s.contains("Item:Length=\"999\""));
    let expected = livemux_core::constants::XMP_TEMPLATE
        .replace("video/quicktime", "video/mp4")
        .replace("Item:Length=\"404\"", "Item:Length=\"999\"");
    assert_eq!(s, expected);
}

#[test]
fn merge_requires_description() {
    let mut doc = XmpDocument::from_template().unwrap();
    let before = text(&doc);
    match doc.merge_source_xmp("<x:xmpmeta></x:xmpmeta>") {
        Err(LiveMuxError::XmpElementMissing(m)) => assert_eq!(m, "rdf:Description in source"),
        _ => panic!("expected XmpElementMissing"),
    }
    assert_eq!(text(&doc), before);
}

#[test]
fn merge_copies_namespaces_attributes_and_children() {
    let source = "<x:xmpmeta><rdf:RDF><rdf:Description rdf:about=\"\" xmlns:xmp=\"http://ns.adobe.com/xap/1.0/\" xmlns:GCamera=\"http://ns.google.com/photos/1.0/camera/\" xmp:Rating=\"5\" GCamera:MotionPhoto=\"0\"><dc:title>T</dc:title><Container:Directory><x/></Container:Directory></rdf:Description></rdf:RDF></x:xmpmeta>";
    assert!(source_xmp_is_mergeable(source));
    let mut doc = XmpDocument::from_template().unwrap();
    doc.merge_source_xmp(source).unwrap();
    let s = text(&doc);
    assert!(s.contains("xmlns:HDRGainMap=\"http://ns.apple.com/HDRGainMap/1.0/\"\n        xmlns:xmp=\"http://ns.adobe.com/xap/1.0/\""));
    assert_eq!(s.matches("xmlns:GCamera=").count(), 1);
    assert!(s.contains("GCamera:MotionPhoto=\"1\"\n      xmp:Rating=\"5\""));
    assert!(!s.contains("GCamera:MotionPhoto=\"0\""));
    assert!(s.contains("      <dc:title>T</dc:title>\n    </rdf:Description>"));
    assert_eq!(s.matches("<Container:Directory>").count(), 1);
}

#[test]
fn description_helpers() {
    let tag = chars("<rdf:Description a=\"x>y\" b='q'>rest");
    assert_eq!(find_description_attrs_end(&tag), Some(30));
    let attrs_tag = chars("<rdf:Description rdf:about=\"\" xmlns:a=\"u\" c:d='v' e:f=\"w\"");
    assert_eq!(strings(extract_xmlns_attrs(&attrs_tag)), vec!["xmlns:a=\"u\"".to_string()]);
    assert_eq!(
        strings(extract_description_attrs(&attrs_tag)),
        vec!["c:d=\"v\"".to_string(), "e:f=\"w\"".to_string()]
    );
    let children = extract_description_children(&chars("<rdf:Description a=\"1\"><p/></rdf:Description>"));
    assert_eq!(children.map(|c| c.into_iter().collect::<String>()), Some("<p/>".to_string()));
    assert_eq!(extract_description_children(&chars("<rdf:Description a=\"1\"/>")), None);
}

#[test]
fn filter_container_directory_without_block() {
    assert_eq!(filter_container_directory("<a/><b/>"), "<a/><b/>");
}

#[test]
fn unmergeable_source_detected() {
    // a non-ASCII space right before an attribute name
    let source = "<rdf:Description\u{3000}a=\"1\">";
    assert!(!source_xmp_is_mergeable(source));
}

#[test]
fn timestamp_set_leaves_no_unset_value() {
    for us in [0i64, 1, 7, -5, -12, -10, 1500000, i64::MIN, i64::MAX] {
        let mut doc = XmpDocument::from_template().unwrap();
        assert!(doc.set_timestamp(us).is_ok());
        let xml = String::from_utf8(doc.to_bytes()).unwrap();
        assert!(!xml.contains("GCamera:MotionPhotoPresentationTimestampUs=\"-1\""));
        assert!(xml.contains(&format!("GCamera:MotionPhotoPresentationTimestampUs=\"{}\"", us)));
    }
}

#[test]
fn timestamp_set_twice_keeps_the_later_value() {
    let mut doc = XmpDocument::from_template().unwrap();
    doc.set_timestamp(1500000).unwrap();
    assert!(doc.set_timestamp(2000000).is_ok());
    let s = String::from_utf8(doc.to_bytes()).unwrap();
    assert!(s.contains("MotionPhotoPresentationTimestampUs=\"2000000\""));
    assert!(!s.contains("MotionPhotoPresentationTimestampUs=\"1500000\""));
}
