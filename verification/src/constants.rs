//! Fixed values of the Samsung SEF trailer and of the motion-photo XMP packet.

use vstd::prelude::*;

verus! {

/// Version number written in the SEFH directory header.
pub const SAMSUNG_SEFH_VERSION: u32 = 107;

/// Size of the ISOBMFF box header (`size` + `type`) of the `mpvd` box.
pub const MPVD_BOX_SIZE: usize = 8;

pub const MPVD_BOX_NAME: &'static str = "mpvd";

/// Size of the ISOBMFF box header (`size` + `type`) of the `sefd` box.
pub const SEFD_BOX_SIZE: usize = 8;

pub const SEFD_BOX_NAME: &'static str = "sefd";

/// Magic that opens the SEF directory.
pub const SEFH_MAGIC: &'static str = "SEFH";

/// Magic that closes the SEF trailer.
pub const SEFT_MAGIC: &'static str = "SEFT";

/// Value of the `MotionPhoto_Version` tag.
pub const MOTION_PHOTO_VERSION: &'static str = "mpv3";

/// Marker that opens the HEIC `MotionPhoto_Data` value.
pub const MOTION_PHOTO_DATA_MARKER: &'static str = "mpv2";

/// Twelve-byte stand-in for the HEIC `MotionPhoto_Data` value until the image size is known.
pub const MOTION_PHOTO_DATA_PLACEHOLDER: &'static str = "mpv2___.___.";

/// The motion-photo XMP packet that every output starts from.
pub const XMP_TEMPLATE: &'static str = "<x:xmpmeta xmlns:x=\"adobe:ns:meta/\" x:xmptk=\"Adobe XMP Core 5.1.0-jc003\">
  <rdf:RDF xmlns:rdf=\"http://www.w3.org/1999/02/22-rdf-syntax-ns#\">
    <rdf:Description rdf:about=\"\"
        xmlns:GCamera=\"http://ns.google.com/photos/1.0/camera/\"
        xmlns:Container=\"http://ns.google.com/photos/1.0/container/\"
        xmlns:Item=\"http://ns.google.com/photos/1.0/container/item/\"
        xmlns:HDRGainMap=\"http://ns.apple.com/HDRGainMap/1.0/\"
      GCamera:MotionPhoto=\"1\"
      GCamera:MotionPhotoVersion=\"1\"
      GCamera:MotionPhotoPresentationTimestampUs=\"-1\">
      <Container:Directory>
        <rdf:Seq>
          <rdf:li rdf:parseType=\"Resource\">
            <Container:Item
              Item:Mime=\"image/heic\"
              Item:Semantic=\"Primary\"
              Item:Length=\"0\"
              Item:Padding=\"8\"/>
          </rdf:li>
          <rdf:li rdf:parseType=\"Resource\">
            <Container:Item
              Item:Mime=\"video/quicktime\"
              Item:Semantic=\"MotionPhoto\"
              Item:Length=\"404\"
              Item:Padding=\"0\"/>
          </rdf:li>
        </rdf:Seq>
      </Container:Directory>
    </rdf:Description>
  </rdf:RDF>
</x:xmpmeta>";

} // verus!
