//! The Samsung SEF (Samsung EF) trailer that is appended after the image data.
//!
//! The trailer uses mixed endianness:
//! - SEFH directory fields are little-endian 32-bit integers;
//! - ISOBMFF box sizes (`mpvd`, `sefd`) are big-endian 32-bit integers.

use vstd::prelude::*;
use vstd::string::StringSliceAdditionalSpecFns;

use crate::constants::{
    MOTION_PHOTO_DATA_MARKER, MOTION_PHOTO_DATA_PLACEHOLDER, MOTION_PHOTO_VERSION, MPVD_BOX_NAME,
    MPVD_BOX_SIZE, SAMSUNG_SEFH_VERSION, SEFD_BOX_NAME, SEFD_BOX_SIZE, SEFH_MAGIC, SEFT_MAGIC,
};
use crate::text::{append_slice, copy_range};

verus! {

#[derive(Debug, Clone, Copy, PartialEq, Eq, Structural)]
pub enum ImageType {
    Heic,
    Jpg,
}

/// The tags a SEF trailer can carry, in the order in which they are laid out.
#[derive(Debug, Clone, Copy, PartialEq, Eq, Structural)]
pub enum SefTag {
    ImageUtcData,
    MccData,
    CameraSceneInfo,
    ColorDisplayP3,
    CameraCaptureModeInfo,
    MotionPhotoData,
    MotionPhotoVersion,
}

/// Layout order of the tags: iteration in this order determines the binary layout.
pub open spec fn tag_order() -> Seq<SefTag> {
    seq![
        SefTag::ImageUtcData,
        SefTag::MccData,
        SefTag::CameraSceneInfo,
        SefTag::ColorDisplayP3,
        SefTag::CameraCaptureModeInfo,
        SefTag::MotionPhotoData,
        SefTag::MotionPhotoVersion,
    ]
}

/// Number of entries in `tag_order()`.
pub const TAG_COUNT: usize = 7;

impl SefTag {
    /// The tag's name as written into the trailer.
    pub open spec fn name_str(self) -> &'static str {
        match self {
            SefTag::ImageUtcData => "Image_UTC_Data",
            SefTag::MccData => "MCC_Data",
            SefTag::CameraSceneInfo => "Camera_Scene_Info",
            SefTag::ColorDisplayP3 => "Color_Display_P3",
            SefTag::CameraCaptureModeInfo => "Camera_Capture_Mode_Info",
            SefTag::MotionPhotoData => "MotionPhoto_Data",
            SefTag::MotionPhotoVersion => "MotionPhoto_Version",
        }
    }

    /// The bytes of the tag's name.
    pub open spec fn name_bytes(self) -> Seq<u8> {
        self.name_str().spec_bytes()
    }

    /// The tag's 4-byte identifier.
    pub open spec fn id_bytes(self) -> Seq<u8> {
        match self {
            SefTag::ImageUtcData => seq![0x00u8, 0x00, 0x01, 0x0a],
            SefTag::MccData => seq![0x00u8, 0x00, 0xa1, 0x0a],
            SefTag::CameraSceneInfo => seq![0x00u8, 0x00, 0x01, 0x0d],
            SefTag::ColorDisplayP3 => seq![0x00u8, 0x00, 0xc1, 0x0c],
            SefTag::CameraCaptureModeInfo => seq![0x00u8, 0x00, 0x61, 0x0c],
            SefTag::MotionPhotoData => seq![0x00u8, 0x00, 0x30, 0x0a],
            SefTag::MotionPhotoVersion => seq![0x00u8, 0x00, 0x31, 0x0a],
        }
    }

    pub fn name(&self) -> (r: &'static str)
        ensures
            r == self.name_str(),
    {
        match self {
            SefTag::ImageUtcData => "Image_UTC_Data",
            SefTag::MccData => "MCC_Data",
            SefTag::CameraSceneInfo => "Camera_Scene_Info",
            SefTag::ColorDisplayP3 => "Color_Display_P3",
            SefTag::CameraCaptureModeInfo => "Camera_Capture_Mode_Info",
            SefTag::MotionPhotoData => "MotionPhoto_Data",
            SefTag::MotionPhotoVersion => "MotionPhoto_Version",
        }
    }

    pub fn id(&self) -> (r: [u8; 4])
        ensures
            r@ == self.id_bytes(),
    {
        let r = match self {
            SefTag::ImageUtcData => [0x00u8, 0x00, 0x01, 0x0a],
            SefTag::MccData => [0x00u8, 0x00, 0xa1, 0x0a],
            SefTag::CameraSceneInfo => [0x00u8, 0x00, 0x01, 0x0d],
            SefTag::ColorDisplayP3 => [0x00u8, 0x00, 0xc1, 0x0c],
            SefTag::CameraCaptureModeInfo => [0x00u8, 0x00, 0x61, 0x0c],
            SefTag::MotionPhotoData => [0x00u8, 0x00, 0x30, 0x0a],
            SefTag::MotionPhotoVersion => [0x00u8, 0x00, 0x31, 0x0a],
        };
        assert(r@ =~= self.id_bytes());
        r
    }

    /// The `i`-th tag of the layout order.
    pub fn at(i: usize) -> (t: SefTag)
        requires
            i < TAG_COUNT,
        ensures
            t == tag_order()[i as int],
    {
        match i {
            0 => SefTag::ImageUtcData,
            1 => SefTag::MccData,
            2 => SefTag::CameraSceneInfo,
            3 => SefTag::ColorDisplayP3,
            4 => SefTag::CameraCaptureModeInfo,
            5 => SefTag::MotionPhotoData,
            _ => SefTag::MotionPhotoVersion,
        }
    }
}

/// Little-endian bytes of a 32-bit field (what `i32::to_le_bytes` writes).
pub open spec fn le32(v: u32) -> Seq<u8> {
    seq![(v & 0xff) as u8, ((v >> 8) & 0xff) as u8, ((v >> 16) & 0xff) as u8, ((v >> 24) & 0xff) as u8]
}

/// Big-endian bytes of a 32-bit field (what `i32::to_be_bytes` writes).
pub open spec fn be32(v: u32) -> Seq<u8> {
    seq![((v >> 24) & 0xff) as u8, ((v >> 16) & 0xff) as u8, ((v >> 8) & 0xff) as u8, (v & 0xff) as u8]
}

/// The 32-bit field that stores a size or offset `n`: the trailer writes sizes through
/// `as i32`, which keeps the low 32 bits.
pub open spec fn field32(n: int) -> u32 {
    n as u32
}

/// Value of a big-endian 32-bit field.
pub open spec fn read_be32(b: Seq<u8>) -> int {
    b[0] as int * 0x1000000 + b[1] as int * 0x10000 + b[2] as int * 0x100 + b[3] as int
}

/// Value of a little-endian 32-bit field.
pub open spec fn read_le32(b: Seq<u8>) -> int {
    b[3] as int * 0x1000000 + b[2] as int * 0x10000 + b[1] as int * 0x100 + b[0] as int
}

/// Stored tag values, in storage order.
pub type TagValues = Seq<(SefTag, Seq<u8>)>;

/// Value of the first stored entry for `t`.
pub open spec fn find_tag_value(tags: TagValues, t: SefTag) -> Option<Seq<u8>>
    decreases tags.len(),
{
    if tags.len() == 0 {
        None
    } else if tags[0].0 == t {
        Some(tags[0].1)
    } else {
        find_tag_value(tags.drop_first(), t)
    }
}

/// `tags` with the value of the first entry for `t` replaced by `value`
/// (unchanged when there is no such entry).
pub open spec fn set_tag_value(tags: TagValues, t: SefTag, value: Seq<u8>) -> TagValues
    decreases tags.len(),
{
    if tags.len() == 0 {
        tags
    } else if tags[0].0 == t {
        tags.update(0, (t, value))
    } else {
        seq![tags[0]] + set_tag_value(tags.drop_first(), t, value)
    }
}

/// The populated tags among `order`, each with its value, in the order of `order`.
pub open spec fn active_tags(tags: TagValues, order: Seq<SefTag>) -> TagValues
    decreases order.len(),
{
    if order.len() == 0 {
        Seq::empty()
    } else {
        let prefix = active_tags(tags, order.drop_last());
        match find_tag_value(tags, order.last()) {
            Some(v) => prefix.push((order.last(), v)),
            None => prefix,
        }
    }
}

/// One tag entry of the SEF data: id, little-endian name length, name, value.
pub open spec fn tag_entry(t: SefTag, value: Seq<u8>) -> Seq<u8> {
    t.id_bytes() + le32(field32(t.name_bytes().len() as int)) + t.name_bytes() + value
}

/// The concatenated entries of `active`.
pub open spec fn tag_data(active: TagValues) -> Seq<u8>
    decreases active.len(),
{
    if active.len() == 0 {
        Seq::empty()
    } else {
        tag_data(active.drop_last()) + tag_entry(active.last().0, active.last().1)
    }
}

/// SEFH directory records of `active`: per tag its id, the distance from the start of
/// its entry to the end of the tag data (`total`), and the entry's length.
pub open spec fn directory(active: TagValues, total: int) -> Seq<u8>
    decreases active.len(),
{
    if active.len() == 0 {
        Seq::empty()
    } else {
        let prefix = active.drop_last();
        let (t, v) = active.last();
        directory(prefix, total) + t.id_bytes() + le32(field32(total - tag_data(prefix).len()))
            + le32(field32(tag_entry(t, v).len() as int))
    }
}

/// The SEFH directory up to (not including) its own length field.
pub open spec fn sefh_body(active: TagValues) -> Seq<u8> {
    SEFH_MAGIC.spec_bytes() + le32(SAMSUNG_SEFH_VERSION) + le32(field32(active.len() as int))
        + directory(active, tag_data(active).len() as int)
}

/// The complete SEFH directory: body, the body's length, and the closing magic.
pub open spec fn sefh(active: TagValues) -> Seq<u8> {
    sefh_body(active) + le32(field32(sefh_body(active).len() as int)) + SEFT_MAGIC.spec_bytes()
}

/// Abstract state of a `SamsungTags`.
pub struct SamsungTagsView {
    pub video: Seq<u8>,
    pub image_type: ImageType,
    pub image_size: nat,
    pub tags: TagValues,
}

/// Largest video the trailer is built for: a Rust allocation never exceeds
/// `isize::MAX` bytes, and the trailer holds the video next to a few hundred more.
pub open spec fn max_video_len() -> nat {
    (usize::MAX / 2) as nat
}

impl SamsungTagsView {
    pub open spec fn active(self) -> TagValues {
        active_tags(self.tags, tag_order())
    }

    pub open spec fn tag_data(self) -> Seq<u8> {
        tag_data(self.active())
    }

    pub open spec fn sefh(self) -> Seq<u8> {
        sefh(self.active())
    }

    /// Contents of the HEIC `mpvd` box: the video, then the `sefd` box.
    pub open spec fn mpvd_payload(self) -> Seq<u8> {
        self.video + be32(field32(self.tag_data().len() + self.sefh().len() + SEFD_BOX_SIZE))
            + SEFD_BOX_NAME.spec_bytes() + self.tag_data() + self.sefh()
    }

    /// The complete trailer.
    pub open spec fn footer(self) -> Seq<u8> {
        match self.image_type {
            ImageType::Heic => be32(field32(self.mpvd_payload().len() + MPVD_BOX_SIZE))
                + MPVD_BOX_NAME.spec_bytes() + self.mpvd_payload(),
            ImageType::Jpg => self.tag_data() + self.sefh(),
        }
    }

    /// Padding of the primary image item: for HEIC the `mpvd` box header, for JPG the
    /// bytes before the `MotionPhoto_Data` value.
    pub open spec fn image_padding(self) -> nat {
        match self.image_type {
            ImageType::Heic => MPVD_BOX_SIZE as nat,
            ImageType::Jpg => padding_before_data(self.tags, tag_order()),
        }
    }

    /// The `MotionPhoto_Data` value for a HEIC image of `image_size` bytes: the marker,
    /// the offset of the video in the output file, and the video's length.
    pub open spec fn heic_motion_data(self, image_size: nat) -> Seq<u8> {
        MOTION_PHOTO_DATA_MARKER.spec_bytes() + be32(field32(image_size + MPVD_BOX_SIZE))
            + be32(field32(self.video.len() as int))
    }

    /// A fresh trailer for `video`: version tag, then the data tag holding the video for
    /// JPG or a 12-byte placeholder for HEIC; image size 0.
    pub open spec fn initial(video: Seq<u8>, image_type: ImageType) -> SamsungTagsView {
        SamsungTagsView {
            video,
            image_type,
            image_size: 0,
            tags: seq![
                (SefTag::MotionPhotoVersion, MOTION_PHOTO_VERSION.spec_bytes()),
                (SefTag::MotionPhotoData, match image_type {
                    ImageType::Jpg => video,
                    ImageType::Heic => MOTION_PHOTO_DATA_PLACEHOLDER.spec_bytes(),
                }),
            ],
        }
    }

    /// The trailer once the final image size is known: for HEIC the data tag then locates
    /// the video in the output file.
    pub open spec fn with_image_size(self, image_size: nat) -> SamsungTagsView {
        SamsungTagsView {
            image_size,
            tags: match self.image_type {
                ImageType::Heic => set_tag_value(
                    self.tags,
                    SefTag::MotionPhotoData,
                    self.heic_motion_data(image_size),
                ),
                ImageType::Jpg => self.tags,
            },
            ..self
        }
    }

    /// What `SamsungTags` always holds: the version tag followed by the data tag, the data
    /// being the video itself for JPG and a 12-byte locator for HEIC.
    pub open spec fn well_formed(self) -> bool {
        &&& self.video.len() <= max_video_len()
        &&& self.tags.len() == 2
        &&& self.tags[0] == (SefTag::MotionPhotoVersion, MOTION_PHOTO_VERSION.spec_bytes())
        &&& self.tags[1].0 == SefTag::MotionPhotoData
        &&& match self.image_type {
            ImageType::Jpg => self.tags[1].1 == self.video,
            ImageType::Heic => self.tags[1].1.len() == 12,
        }
    }
}

/// Bytes of the populated entries of `order` before the `MotionPhoto_Data` value:
/// whole entries ahead of it, then its id, name-length field and name.
pub open spec fn padding_before_data(tags: TagValues, order: Seq<SefTag>) -> nat
    decreases order.len(),
{
    if order.len() == 0 {
        0
    } else {
        match find_tag_value(tags, order[0]) {
            Some(v) => if order[0] == SefTag::MotionPhotoData {
                (4 + 4 + order[0].name_bytes().len()) as nat
            } else {
                (tag_entry(order[0], v).len() + padding_before_data(tags, order.drop_first())) as nat
            },
            None => padding_before_data(tags, order.drop_first()),
        }
    }
}

/// Builds the Samsung SEF binary trailer appended after image data.
pub struct SamsungTags {
    video_bytes: Vec<u8>,
    video_size: usize,
    image_type: ImageType,
    image_size: usize,
    /// Ordered tag storage: only populated tags are stored; layout follows `tag_order()`.
    tags: Vec<(SefTag, Vec<u8>)>,
}

impl View for SamsungTags {
    type V = SamsungTagsView;

    closed spec fn view(&self) -> SamsungTagsView {
        SamsungTagsView {
            video: self.video_bytes@,
            image_type: self.image_type,
            image_size: self.image_size as nat,
            tags: Seq::new(self.tags@.len(), |i: int| (self.tags@[i].0, self.tags@[i].1@)),
        }
    }
}

/// Lengths of the fixed strings the trailer is made of.
pub proof fn lemma_fixed_lengths()
    ensures
        SEFH_MAGIC.spec_bytes().len() == 4,
        SEFT_MAGIC.spec_bytes().len() == 4,
        MPVD_BOX_NAME.spec_bytes().len() == 4,
        SEFD_BOX_NAME.spec_bytes().len() == 4,
        MOTION_PHOTO_VERSION.spec_bytes().len() == 4,
        MOTION_PHOTO_DATA_MARKER.spec_bytes().len() == 4,
        MOTION_PHOTO_DATA_PLACEHOLDER.spec_bytes().len() == 12,
        SefTag::MotionPhotoData.name_bytes().len() == 16,
        SefTag::MotionPhotoVersion.name_bytes().len() == 19,
{
    reveal_strlit("SEFH");
    reveal_strlit("SEFT");
    reveal_strlit("mpvd");
    reveal_strlit("sefd");
    reveal_strlit("mpv3");
    reveal_strlit("mpv2");
    reveal_strlit("mpv2___.___.");
    reveal_strlit("MotionPhoto_Data");
    reveal_strlit("MotionPhoto_Version");
    vstd::string::is_ascii_spec_bytes("SEFH");
    vstd::string::is_ascii_spec_bytes("SEFT");
    vstd::string::is_ascii_spec_bytes("mpvd");
    vstd::string::is_ascii_spec_bytes("sefd");
    vstd::string::is_ascii_spec_bytes("mpv3");
    vstd::string::is_ascii_spec_bytes("mpv2");
    vstd::string::is_ascii_spec_bytes("mpv2___.___.");
    vstd::string::is_ascii_spec_bytes("MotionPhoto_Data");
    vstd::string::is_ascii_spec_bytes("MotionPhoto_Version");
}


/// Under `well_formed`, which tags a prefix of the layout order populates:
/// none before `MotionPhoto_Data`, then the data, then the version.
pub proof fn lemma_active_prefixes(v: SamsungTagsView)
    requires
        v.well_formed(),
    ensures
        forall|k: int| 0 <= k <= 5 ==> #[trigger] active_tags(v.tags, tag_order().take(k)) == Seq::<(SefTag, Seq<u8>)>::empty(),
        active_tags(v.tags, tag_order().take(6)) == seq![(SefTag::MotionPhotoData, v.tags[1].1)],
        active_tags(v.tags, tag_order().take(7)) == seq![
            (SefTag::MotionPhotoData, v.tags[1].1),
            (SefTag::MotionPhotoVersion, v.tags[0].1),
        ],
        v.active() == seq![
            (SefTag::MotionPhotoData, v.tags[1].1),
            (SefTag::MotionPhotoVersion, v.tags[0].1),
        ],
        find_tag_value(v.tags, SefTag::MotionPhotoData) == Some(v.tags[1].1),
        find_tag_value(v.tags, SefTag::MotionPhotoVersion) == Some(v.tags[0].1),
        forall|t: SefTag| t != SefTag::MotionPhotoData && t != SefTag::MotionPhotoVersion
            ==> #[trigger] find_tag_value(v.tags, t) is None,
{
    let tags = v.tags;
    let order = tag_order();
    assert(tags.drop_first().drop_first().len() == 0);
    assert(tags.drop_first()[0] == tags[1]);
    assert forall|t: SefTag| t != SefTag::MotionPhotoData && t != SefTag::MotionPhotoVersion
        implies #[trigger] find_tag_value(tags, t) is None by {
        assert(find_tag_value(tags.drop_first().drop_first(), t) is None);
        assert(find_tag_value(tags.drop_first(), t) is None);
    }
    assert(find_tag_value(tags.drop_first(), SefTag::MotionPhotoData) == Some(tags[1].1));
    assert(order.take(0).len() == 0);
    assert(active_tags(tags, order.take(0)) == Seq::<(SefTag, Seq<u8>)>::empty());
    let e = Seq::<(SefTag, Seq<u8>)>::empty();
    assert(order.take(1).drop_last() =~= order.take(0));
    assert(order.take(1).last() == SefTag::ImageUtcData);
    assert(find_tag_value(tags, SefTag::ImageUtcData) is None);
    assert(active_tags(tags, order.take(1)) == e);
    assert(order.take(2).drop_last() =~= order.take(1));
    assert(order.take(2).last() == SefTag::MccData);
    assert(find_tag_value(tags, SefTag::MccData) is None);
    assert(active_tags(tags, order.take(2)) == e);
    assert(order.take(3).drop_last() =~= order.take(2));
    assert(order.take(3).last() == SefTag::CameraSceneInfo);
    assert(find_tag_value(tags, SefTag::CameraSceneInfo) is None);
    assert(active_tags(tags, order.take(3)) == e);
    assert(order.take(4).drop_last() =~= order.take(3));
    assert(order.take(4).last() == SefTag::ColorDisplayP3);
    assert(find_tag_value(tags, SefTag::ColorDisplayP3) is None);
    assert(active_tags(tags, order.take(4)) == e);
    assert(order.take(5).drop_last() =~= order.take(4));
    assert(order.take(5).last() == SefTag::CameraCaptureModeInfo);
    assert(find_tag_value(tags, SefTag::CameraCaptureModeInfo) is None);
    assert(active_tags(tags, order.take(5)) == e);
    assert forall|k: int| 0 <= k <= 5 implies #[trigger] active_tags(tags, order.take(k)) == e by {
        if k == 0 {
        } else if k == 1 {
        } else if k == 2 {
        } else if k == 3 {
        } else if k == 4 {
        } else {
        }
    }
    assert(order.take(6).drop_last() =~= order.take(5));
    assert(active_tags(tags, order.take(5)) == Seq::<(SefTag, Seq<u8>)>::empty());
    assert(active_tags(tags, order.take(6)) =~= seq![(SefTag::MotionPhotoData, tags[1].1)]);
    assert(order.take(7).drop_last() =~= order.take(6));
    assert(active_tags(tags, order.take(7)) =~= seq![
        (SefTag::MotionPhotoData, tags[1].1),
        (SefTag::MotionPhotoVersion, tags[0].1),
    ]);
    assert(order.take(7) =~= order);
}

/// Setting the value of the first entry for `t`, when that entry is at `i`.
pub proof fn lemma_set_tag_value_at(tags: TagValues, t: SefTag, value: Seq<u8>, i: int)
    requires
        0 <= i < tags.len(),
        tags[i].0 == t,
        forall|j: int| 0 <= j < i ==> tags[j].0 != t,
    ensures
        set_tag_value(tags, t, value) == tags.update(i, (t, value)),
    decreases i,
{
    if i > 0 {
        lemma_set_tag_value_at(tags.drop_first(), t, value, i - 1);
        assert(seq![tags[0]] + tags.drop_first().update(i - 1, (t, value)) =~= tags.update(
            i,
            (t, value),
        ));
    }
}

/// Setting the value of a tag that has no entry changes nothing.
pub proof fn lemma_set_tag_value_absent(tags: TagValues, t: SefTag, value: Seq<u8>)
    requires
        forall|j: int| 0 <= j < tags.len() ==> tags[j].0 != t,
    ensures
        set_tag_value(tags, t, value) == tags,
    decreases tags.len(),
{
    if tags.len() > 0 {
        lemma_set_tag_value_absent(tags.drop_first(), t, value);
        assert(seq![tags[0]] + tags.drop_first() =~= tags);
    }
}

/// The tag data of a prefix is no longer than the whole tag data.
pub proof fn lemma_tag_data_prefix_len(a: TagValues, j: int)
    requires
        0 <= j <= a.len(),
    ensures
        tag_data(a.take(j)).len() <= tag_data(a).len(),
    decreases a.len(),
{
    if j < a.len() {
        lemma_tag_data_prefix_len(a.drop_last(), j);
        assert(a.drop_last().take(j) =~= a.take(j));
    } else {
        assert(a.take(j) =~= a);
    }
}

/// Sizes of the parts of a well-formed trailer.
pub proof fn lemma_data_entry_lengths(v: SamsungTagsView)
    requires
        v.well_formed(),
    ensures
        tag_data(seq![(SefTag::MotionPhotoData, v.tags[1].1)]) == tag_entry(
            SefTag::MotionPhotoData,
            v.tags[1].1,
        ),
        v.tag_data() == tag_entry(SefTag::MotionPhotoData, v.tags[1].1) + tag_entry(
            SefTag::MotionPhotoVersion,
            v.tags[0].1,
        ),
        tag_entry(SefTag::MotionPhotoData, v.tags[1].1).len() == 24 + v.tags[1].1.len(),
        tag_entry(SefTag::MotionPhotoVersion, v.tags[0].1).len() == 31,
        v.tags[1].1.len() <= max_video_len(),
        v.tag_data().len() == 55 + v.tags[1].1.len(),
        v.sefh().len() == 44,
{
    lemma_active_prefixes(v);
    lemma_fixed_lengths();
    let d = (SefTag::MotionPhotoData, v.tags[1].1);
    let e = (SefTag::MotionPhotoVersion, v.tags[0].1);
    assert(seq![d].drop_last() =~= Seq::<(SefTag, Seq<u8>)>::empty());
    assert(seq![d, e].drop_last() =~= seq![d]);
    let a = v.active();
    assert(a.drop_last() =~= seq![d]);
    assert(d.0.id_bytes().len() == 4);
    assert(e.0.id_bytes().len() == 4);
    assert(directory(Seq::<(SefTag, Seq<u8>)>::empty(), tag_data(a).len() as int).len() == 0);
    assert(seq![d].last() == d);
    assert(directory(seq![d], tag_data(a).len() as int).len() == 12);
    assert(a.last() == e);
    assert(directory(a, tag_data(a).len() as int).len() == 24);
}

/// For JPG the data value starts after its tag's id, name-length field and name.
pub proof fn lemma_jpg_padding(v: SamsungTagsView)
    requires
        v.well_formed(),
    ensures
        padding_before_data(v.tags, tag_order()) == 24,
{
    lemma_active_prefixes(v);
    lemma_fixed_lengths();
    let o = tag_order();
    assert(o.skip(5)[0] == SefTag::MotionPhotoData);
    assert(padding_before_data(v.tags, o.skip(5)) == 24);
    assert(o.skip(4).drop_first() =~= o.skip(5));
    assert(o.skip(4)[0] == SefTag::CameraCaptureModeInfo);
    assert(padding_before_data(v.tags, o.skip(4)) == 24);
    assert(o.skip(3).drop_first() =~= o.skip(4));
    assert(o.skip(3)[0] == SefTag::ColorDisplayP3);
    assert(padding_before_data(v.tags, o.skip(3)) == 24);
    assert(o.skip(2).drop_first() =~= o.skip(3));
    assert(o.skip(2)[0] == SefTag::CameraSceneInfo);
    assert(padding_before_data(v.tags, o.skip(2)) == 24);
    assert(o.skip(1).drop_first() =~= o.skip(2));
    assert(o.skip(1)[0] == SefTag::MccData);
    assert(padding_before_data(v.tags, o.skip(1)) == 24);
    assert(o.drop_first() =~= o.skip(1));
    assert(o[0] == SefTag::ImageUtcData);
}

/// The image padding lies within the trailer.
pub proof fn lemma_padding_within_footer(v: SamsungTagsView)
    requires
        v.well_formed(),
    ensures
        v.image_padding() <= v.footer().len(),
        v.footer().len() <= v.video.len() + 200,
{
    lemma_data_entry_lengths(v);
    lemma_jpg_padding(v);
    lemma_fixed_lengths();
}

impl SamsungTags {
    /// The internal consistency every `SamsungTags` keeps.
    pub closed spec fn wf(&self) -> bool {
        &&& self.video_size == self.video_bytes@.len()
        &&& self@.well_formed()
    }

    pub fn new(video_bytes: Vec<u8>, image_type: ImageType) -> (r: Self)
        requires
            video_bytes@.len() <= max_video_len(),
        ensures
            r.wf(),
            r@ == SamsungTagsView::initial(video_bytes@, image_type),
    {
        proof {
            lemma_fixed_lengths();
        }
        let video_size = video_bytes.len();
        let mut tags: Vec<(SefTag, Vec<u8>)> = Vec::new();
        // MotionPhoto_Version is always present
        tags.push((SefTag::MotionPhotoVersion, str_bytes(MOTION_PHOTO_VERSION)));
        // MotionPhoto_Data: the video itself for JPG, a 12-byte placeholder for HEIC
        let motion_data = if image_type == ImageType::Jpg {
            let copy = copy_range(&video_bytes, 0, video_bytes.len());
            assert(copy@ =~= video_bytes@);
            copy
        } else {
            str_bytes(MOTION_PHOTO_DATA_PLACEHOLDER)
        };
        tags.push((SefTag::MotionPhotoData, motion_data));
        let r = SamsungTags { video_bytes, video_size, image_type, image_size: 0, tags };
        assert(r@.tags[0] == (SefTag::MotionPhotoVersion, MOTION_PHOTO_VERSION.spec_bytes()));
        assert(r@.tags[1].1 == r.tags@[1].1@);
        assert(r@.tags =~= seq![
            (SefTag::MotionPhotoVersion, MOTION_PHOTO_VERSION.spec_bytes()),
            (SefTag::MotionPhotoData, match image_type {
                ImageType::Jpg => r.video_bytes@,
                ImageType::Heic => MOTION_PHOTO_DATA_PLACEHOLDER.spec_bytes(),
            }),
        ]);
        r
    }

    /// Sets the final image size (after XMP embedding); for HEIC this rewrites
    /// `MotionPhoto_Data` to locate the video in the output file.
    pub fn set_image_size(&mut self, image_size: usize)
        requires
            old(self).wf(),
            image_size + MPVD_BOX_SIZE <= usize::MAX,
        ensures
            final(self).wf(),
            final(self)@ == old(self)@.with_image_size(image_size as nat),
    {
        proof {
            lemma_fixed_lengths();
        }
        self.image_size = image_size;
        if self.image_type == ImageType::Heic {
            let video_offset = (image_size + MPVD_BOX_SIZE) as u32;
            let mut mp_data = str_bytes(MOTION_PHOTO_DATA_MARKER);
            push_be32(&mut mp_data, video_offset);
            push_be32(&mut mp_data, self.video_size as u32);
            let ghost mp = mp_data@;
            assert(mp =~= old(self)@.heic_motion_data(image_size as nat));
            self.set_tag(SefTag::MotionPhotoData, mp_data);
            proof {
                lemma_set_tag_value_at(old(self)@.tags, SefTag::MotionPhotoData, mp, 1);
            }
            assert(self@.tags =~= set_tag_value(
                old(self)@.tags,
                SefTag::MotionPhotoData,
                old(self)@.heic_motion_data(image_size as nat),
            ));
        }
    }

    /// Padding of the primary image item (`Item:Padding` in the XMP): the `mpvd` box
    /// header for HEIC, the bytes before the `MotionPhoto_Data` value for JPG.
    pub fn get_image_padding(&self) -> (r: usize)
        requires
            self.wf(),
        ensures
            r == self@.image_padding(),
    {
        if self.image_type == ImageType::Heic {
            return MPVD_BOX_SIZE;
        }
        let ghost v = self@;
        proof {
            lemma_active_prefixes(v);
            lemma_fixed_lengths();
        }
        // accumulate bytes until the MotionPhoto_Data value is reached
        let mut size: usize = 0;
        let mut k: usize = 0;
        assert(tag_order().skip(0) =~= tag_order());
        while k < TAG_COUNT
            invariant
                self.wf(),
                v == self@,
                v.image_type == ImageType::Jpg,
                k <= 5,
                size == 0,
                padding_before_data(v.tags, tag_order()) == size + padding_before_data(
                    v.tags,
                    tag_order().skip(k as int),
                ),
            decreases TAG_COUNT - k,
        {
            proof {
                lemma_active_prefixes(v);
                lemma_fixed_lengths();
            }
            let tag = SefTag::at(k);
            assert(tag_order().skip(k as int)[0] == tag);
            assert(tag_order().skip(k as int).drop_first() =~= tag_order().skip(k + 1));
            if let Some(value) = self.find_tag(tag) {
                let name = tag.name();
                if tag == SefTag::MotionPhotoData {
                    return size + 4 + 4 + name.len();
                }
                size = size + 4 + 4 + name.len() + value.len();
            }
            k += 1;
        }
        0
    }

    /// The `Item:Length` of the motion-photo item: the distance from the start of the
    /// video to the end of the file (trailer length minus image padding), so that
    /// `file_size - Item:Length` locates the video.
    pub fn get_video_size(&self) -> (r: usize)
        requires
            self.wf(),
        ensures
            r == self@.footer().len() - self@.image_padding(),
    {
        proof {
            lemma_padding_within_footer(self@);
        }
        self.video_footer().len() - self.get_image_padding()
    }

    /// Builds the complete Samsung SEF trailer.
    pub fn video_footer(&self) -> (r: Vec<u8>)
        requires
            self.wf(),
        ensures
            r@ == self@.footer(),
    {
        let ghost v = self@;
        let ghost order = tag_order();
        proof {
            lemma_active_prefixes(v);
            lemma_fixed_lengths();
            lemma_data_entry_lengths(v);
        }
        // Phase 1: tag data, with each entry's start and length
        let mut data: Vec<u8> = Vec::new();
        let mut records: Vec<(SefTag, usize, usize)> = Vec::new();
        let mut k: usize = 0;
        while k < TAG_COUNT
            invariant
                self.wf(),
                v == self@,
                order == tag_order(),
                k <= TAG_COUNT,
                data@ == tag_data(active_tags(v.tags, order.take(k as int))),
                data@.len() <= tag_data(v.active()).len(),
                records@.len() == active_tags(v.tags, order.take(k as int)).len(),
                forall|j: int|
                    #![trigger records@[j]]
                    0 <= j < records@.len() ==> {
                        let a = active_tags(v.tags, order.take(k as int));
                        &&& records@[j].0 == a[j].0
                        &&& records@[j].1 == tag_data(a.take(j)).len()
                        &&& records@[j].2 == tag_entry(a[j].0, a[j].1).len()
                    },
            decreases TAG_COUNT - k,
        {
            proof {
                lemma_active_prefixes(v);
                lemma_fixed_lengths();
                lemma_data_entry_lengths(v);
            }
            let tag = SefTag::at(k);
            let ghost a = active_tags(v.tags, order.take(k as int));
            assert(order.take(k + 1).drop_last() =~= order.take(k as int));
            assert(order.take(k + 1).last() == tag);
            if let Some(value) = self.find_tag(tag) {
                let ghost a2 = a.push((tag, value@));
                assert(active_tags(v.tags, order.take(k + 1)) == a2);
                assert(a2.drop_last() =~= a);
                let start = data.len();
                let name = tag.name();
                append_slice(&mut data, &tag.id());
                push_le32(&mut data, name.len() as u32);
                append_slice(&mut data, name.as_bytes());
                append_slice(&mut data, value);
                assert(data@ =~= tag_data(a2));
                assert(k == 5 || k == 6) by {
                    if k != 5 && k != 6 {
                        assert(find_tag_value(v.tags, tag) is None);
                    }
                }
                let entry_len = data.len() - start;
                records.push((tag, start, entry_len));
                assert forall|j: int|
                    #![trigger records@[j]]
                    0 <= j < records@.len() implies {
                        &&& records@[j].0 == a2[j].0
                        &&& records@[j].1 == tag_data(a2.take(j)).len()
                        &&& records@[j].2 == tag_entry(a2[j].0, a2[j].1).len()
                    } by {
                    if j < a.len() {
                        assert(a2.take(j) =~= a.take(j));
                    } else {
                        assert(a2.take(j) =~= a);
                    }
                }
            } else {
                assert(active_tags(v.tags, order.take(k + 1)) == a);
            }
            k += 1;
        }
        assert(order.take(7) =~= order);
        let ghost active = v.active();
        let total = data.len();

        // Phase 2: SEFH directory (little-endian fields)
        let mut dir: Vec<u8> = str_bytes(SEFH_MAGIC);
        push_le32(&mut dir, SAMSUNG_SEFH_VERSION);
        push_le32(&mut dir, records.len() as u32);
        let ghost head = dir@;
        let mut j: usize = 0;
        while j < records.len()
            invariant
                v == self@,
                active == v.active(),
                active.len() == 2,
                total == tag_data(active).len(),
                records@.len() == active.len(),
                j <= records@.len(),
                forall|i: int|
                    #![trigger records@[i]]
                    0 <= i < records@.len() ==> {
                        &&& records@[i].0 == active[i].0
                        &&& records@[i].1 == tag_data(active.take(i)).len()
                        &&& records@[i].2 == tag_entry(active[i].0, active[i].1).len()
                    },
                dir@ == head + directory(active.take(j as int), total as int),
                dir@.len() == 12 + 12 * j,
                tag_data(active.take(j as int)).len() <= total,
            decreases records.len() - j,
        {
            let (tag, start, len) = records[j];
            assert(active.take(j + 1).drop_last() =~= active.take(j as int));
            assert(active.take(j + 1).last() == active[j as int]);
            assert(records@[j as int].1 == tag_data(active.take(j as int)).len());
            proof {
                lemma_tag_data_prefix_len(active, j as int);
                lemma_fixed_lengths();
            }
            append_slice(&mut dir, &tag.id());
            push_le32(&mut dir, (total - start) as u32);
            push_le32(&mut dir, len as u32);
            assert(dir@ =~= head + directory(active.take(j + 1), total as int));
            j += 1;
        }
        assert(active.take(2) =~= active);
        let sefh_len = dir.len();
        push_le32(&mut dir, sefh_len as u32);
        append_slice(&mut dir, SEFT_MAGIC.as_bytes());
        assert(dir@ =~= sefh(active));

        // Phase 3: assemble
        match self.image_type {
            ImageType::Heic => {
                let mut inner = copy_range(&self.video_bytes, 0, self.video_bytes.len());
                // sefd box: big-endian size, "sefd", tag data, directory
                let sefd_size = data.len() + dir.len() + SEFD_BOX_SIZE;
                push_be32(&mut inner, sefd_size as u32);
                append_slice(&mut inner, SEFD_BOX_NAME.as_bytes());
                append_slice(&mut inner, &data);
                append_slice(&mut inner, &dir);
                assert(inner@ =~= v.mpvd_payload());
                // wrapped in the mpvd box
                let mpvd_size = inner.len() + MPVD_BOX_SIZE;
                let mut result: Vec<u8> = Vec::new();
                push_be32(&mut result, mpvd_size as u32);
                append_slice(&mut result, MPVD_BOX_NAME.as_bytes());
                append_slice(&mut result, &inner);
                assert(result@ =~= v.footer());
                result
            },
            ImageType::Jpg => {
                let mut result = copy_range(&data, 0, data.len());
                append_slice(&mut result, &dir);
                assert(result@ =~= v.footer());
                result
            },
        }
    }

    /// Value of the first stored entry for `name`.
    fn find_tag(&self, name: SefTag) -> (r: Option<&[u8]>)
        ensures
            match r {
                Some(s) => find_tag_value(self@.tags, name) == Some(s@),
                None => find_tag_value(self@.tags, name) is None,
            },
    {
        let ghost tags = self@.tags;
        let mut i: usize = 0;
        assert(tags.skip(0) =~= tags);
        while i < self.tags.len()
            invariant
                tags == self@.tags,
                i <= self.tags@.len(),
                find_tag_value(tags, name) == find_tag_value(tags.skip(i as int), name),
            decreases self.tags@.len() - i,
        {
            assert(tags.skip(i as int)[0] == tags[i as int]);
            assert(tags.skip(i as int).drop_first() =~= tags.skip(i + 1));
            if self.tags[i].0 == name {
                return Some(self.tags[i].1.as_slice());
            }
            i += 1;
        }
        None
    }

    /// Replaces the value of the first stored entry for `name`; no entry, no change.
    fn set_tag(&mut self, name: SefTag, value: Vec<u8>)
        ensures
            final(self)@ == (SamsungTagsView {
                tags: set_tag_value(old(self)@.tags, name, value@),
                ..old(self)@
            }),
            final(self).video_size == old(self).video_size,
    {
        let ghost tags = self@.tags;
        let mut i: usize = 0;
        while i < self.tags.len()
            invariant
                tags == old(self)@.tags,
                self@ == old(self)@,
                self.video_size == old(self).video_size,
                i <= self.tags@.len(),
                forall|j: int| 0 <= j < i ==> tags[j].0 != name,
            decreases self.tags@.len() - i,
        {
            if self.tags[i].0 == name {
                self.tags.set(i, (name, value));
                proof {
                    lemma_set_tag_value_at(tags, name, value@, i as int);
                }
                assert(self@.tags =~= set_tag_value(tags, name, value@));
                return;
            }
            i += 1;
        }
        proof {
            lemma_set_tag_value_absent(tags, name, value@);
        }
    }
}

/// Appends the little-endian bytes of `x`.
pub fn push_le32(out: &mut Vec<u8>, x: u32)
    ensures
        final(out)@ == old(out)@ + le32(x),
{
    let ghost start = out@;
    out.push((x & 0xff) as u8);
    out.push(((x >> 8) & 0xff) as u8);
    out.push(((x >> 16) & 0xff) as u8);
    out.push(((x >> 24) & 0xff) as u8);
    assert(out@ =~= start + le32(x));
}

/// Appends the big-endian bytes of `x`.
pub fn push_be32(out: &mut Vec<u8>, x: u32)
    ensures
        final(out)@ == old(out)@ + be32(x),
{
    let ghost start = out@;
    out.push(((x >> 24) & 0xff) as u8);
    out.push(((x >> 16) & 0xff) as u8);
    out.push(((x >> 8) & 0xff) as u8);
    out.push((x & 0xff) as u8);
    assert(out@ =~= start + be32(x));
}

/// The UTF-8 bytes of `s`.
pub fn str_bytes(s: &str) -> (r: Vec<u8>)
    ensures
        r@ == s.spec_bytes(),
{
    vstd::slice::slice_to_vec(s.as_bytes())
}

} // verus!

verus! {

/// A big-endian 32-bit field reads back as the value written.
pub proof fn lemma_read_be32(x: u32)
    ensures
        read_be32(be32(x)) == x as int,
{
    let b0 = ((x >> 24) & 0xff) as u8;
    let b1 = ((x >> 16) & 0xff) as u8;
    let b2 = ((x >> 8) & 0xff) as u8;
    let b3 = (x & 0xff) as u8;
    assert(b0 as u32 * 0x1000000 + b1 as u32 * 0x10000 + b2 as u32 * 0x100 + b3 as u32 == x)
        by (bit_vector)
        requires
            b0 == ((x >> 24) & 0xff) as u8,
            b1 == ((x >> 16) & 0xff) as u8,
            b2 == ((x >> 8) & 0xff) as u8,
            b3 == (x & 0xff) as u8,
    ;
}

/// A little-endian 32-bit field reads back as the value written.
pub proof fn lemma_read_le32(x: u32)
    ensures
        read_le32(le32(x)) == x as int,
{
    let b0 = (x & 0xff) as u8;
    let b1 = ((x >> 8) & 0xff) as u8;
    let b2 = ((x >> 16) & 0xff) as u8;
    let b3 = ((x >> 24) & 0xff) as u8;
    assert(b3 as u32 * 0x1000000 + b2 as u32 * 0x10000 + b1 as u32 * 0x100 + b0 as u32 == x)
        by (bit_vector)
        requires
            b0 == (x & 0xff) as u8,
            b1 == ((x >> 8) & 0xff) as u8,
            b2 == ((x >> 16) & 0xff) as u8,
            b3 == ((x >> 24) & 0xff) as u8,
    ;
}

/// The video sits in the trailer exactly at the image padding, for HEIC and for JPG:
/// the bytes of the trailer from `image_padding` on are the video.
pub proof fn law_video_at_padding(v: SamsungTagsView)
    requires
        v.well_formed(),
    ensures
        v.image_padding() + v.video.len() <= v.footer().len(),
        v.footer().subrange(
            v.image_padding() as int,
            (v.image_padding() + v.video.len()) as int,
        ) == v.video,
{
    lemma_data_entry_lengths(v);
    lemma_jpg_padding(v);
    lemma_fixed_lengths();
    let f = v.footer();
    let n = v.video.len() as int;
    match v.image_type {
        ImageType::Heic => {
            assert(f.subrange(8, 8 + n) =~= v.video);
        },
        ImageType::Jpg => {
            let d = v.tags[1].1;
            assert(tag_entry(SefTag::MotionPhotoData, d).subrange(24, 24 + n) =~= v.video);
            assert(f.subrange(24, 24 + n) =~= v.video);
        },
    }
}

/// A reader that takes `file_size - Item:Length` as the start of the video finds the video:
/// with the trailer appended to any image, and `Item:Length` being the trailer length minus
/// the image padding (what `get_video_size` returns), the bytes at that position are the video.
pub proof fn law_item_length_locates_video(v: SamsungTagsView, image: Seq<u8>)
    requires
        v.well_formed(),
    ensures
        ({
            let file = image + v.footer();
            let item_length = v.footer().len() - v.image_padding();
            let start = file.len() - item_length;
            &&& start == image.len() + v.image_padding()
            &&& file.subrange(start, start + v.video.len()) == v.video
        }),
{
    law_video_at_padding(v);
    let file = image + v.footer();
    let start = (image.len() + v.image_padding()) as int;
    assert(file.subrange(start, start + v.video.len()) =~= v.footer().subrange(
        v.image_padding() as int,
        (v.image_padding() + v.video.len()) as int,
    ));
}

/// Every trailer ends with the `SEFT` magic.
pub proof fn law_footer_ends_with_seft(v: SamsungTagsView)
    requires
        v.well_formed(),
    ensures
        crate::text::ends_with(v.footer(), SEFT_MAGIC.spec_bytes()),
{
    lemma_data_entry_lengths(v);
    lemma_fixed_lengths();
    let f = v.footer();
    assert(f.subrange(f.len() - 4, f.len() as int) =~= SEFT_MAGIC.spec_bytes());
}

/// A reader finds the SEFH directory from the end of every trailer: the little-endian
/// length field before the closing `SEFT` gives the directory's length, and the directory
/// found that far back opens with the `SEFH` magic, the format version as a little-endian
/// 32-bit number, and the number of tags.
pub proof fn law_sefh_found_from_end(v: SamsungTagsView)
    requires
        v.well_formed(),
    ensures
        ({
            let f = v.footer();
            let n = read_le32(f.subrange(f.len() - 8, f.len() - 4));
            let start = f.len() - 8 - n;
            &&& 0 <= start
            &&& f.subrange(start, start + 4) == SEFH_MAGIC.spec_bytes()
            &&& read_le32(f.subrange(start + 4, start + 8)) == SAMSUNG_SEFH_VERSION
            &&& read_le32(f.subrange(start + 8, start + 12)) == 2
        }),
{
    lemma_data_entry_lengths(v);
    lemma_fixed_lengths();
    lemma_active_prefixes(v);
    let f = v.footer();
    let sefh = v.sefh();
    let body = sefh_body(v.active());
    assert(body.len() == 36);
    assert(f.subrange(f.len() - 44, f.len() as int) =~= sefh);
    assert(f.subrange(f.len() - 8, f.len() - 4) =~= le32(field32(36)));
    lemma_read_le32(field32(36));
    assert(field32(36) == 36) by (bit_vector);
    let start = f.len() - 44;
    assert(f.subrange(start, start + 4) =~= SEFH_MAGIC.spec_bytes());
    assert(f.subrange(start + 4, start + 8) =~= le32(SAMSUNG_SEFH_VERSION));
    lemma_read_le32(SAMSUNG_SEFH_VERSION);
    assert(v.active().len() == 2);
    assert(f.subrange(start + 8, start + 12) =~= le32(field32(2)));
    assert(field32(2) == 2) by (bit_vector);
    lemma_read_le32(field32(2));
}

/// Slot `j` of the SEFH directory starting at `s` in `f` locates the entry of tag `t`
/// holding `value`: the slot (12 bytes, after the magic, version and count) holds the
/// tag's id, the distance back from `s` to the entry and the entry's length, and the bytes
/// found there are the entry: id, name length, name and value.
pub open spec fn slot_locates_entry(f: Seq<u8>, s: int, j: int, t: SefTag, value: Seq<u8>) -> bool {
    let slot = s + 12 + 12 * j;
    let back = read_le32(f.subrange(slot + 4, slot + 8));
    let len = read_le32(f.subrange(slot + 8, slot + 12));
    &&& 0 <= s - back
    &&& s - back + len <= f.len()
    &&& f.subrange(slot, slot + 4) == t.id_bytes()
    &&& f.subrange(s - back, s - back + len) == tag_entry(t, value)
}

/// The SEFH directory of a well-formed trailer: the data tag's slot, then the version's,
/// each its id, its distance from the end of the tag data, and its entry's length.
proof fn lemma_directory_layout(v: SamsungTagsView)
    requires
        v.well_formed(),
    ensures
        ({
            let dv = v.tags[1].1;
            let e0 = tag_entry(SefTag::MotionPhotoData, dv);
            let e1 = tag_entry(SefTag::MotionPhotoVersion, v.tags[0].1);
            let total = 55 + dv.len();
            directory(v.active(), total as int) == SefTag::MotionPhotoData.id_bytes() + le32(
                field32(total as int),
            ) + le32(field32(e0.len() as int)) + SefTag::MotionPhotoVersion.id_bytes() + le32(
                field32(total - e0.len()),
            ) + le32(field32(e1.len() as int))
        }),
{
    lemma_data_entry_lengths(v);
    lemma_active_prefixes(v);
    let a = v.active();
    let dv = v.tags[1].1;
    let total = (55 + dv.len()) as int;
    let d0 = (SefTag::MotionPhotoData, dv);
    let empty = Seq::<(SefTag, Seq<u8>)>::empty();
    assert(a.drop_last() =~= seq![d0]);
    assert(seq![d0].drop_last() =~= empty);
    assert(a.last() == (SefTag::MotionPhotoVersion, v.tags[0].1));
    assert(seq![d0].last() == d0);
    assert(directory(empty, total) == Seq::<u8>::empty());
    assert(tag_data(empty).len() == 0);
    assert(directory(seq![d0], total) =~= SefTag::MotionPhotoData.id_bytes() + le32(field32(total))
        + le32(field32(tag_entry(SefTag::MotionPhotoData, dv).len() as int)));
}

/// Each slot of the SEFH directory locates its own tag's entry, the slots coming in the
/// layout order (the motion-photo data, then the version), for data values short enough
/// that the distances fit the 32-bit fields.
#[verifier::rlimit(100)]
#[verifier::spinoff_prover]
pub proof fn law_sefh_slots_locate_entries(v: SamsungTagsView)
    requires
        v.well_formed(),
        v.tags[1].1.len() + 55 <= u32::MAX,
    ensures
        ({
            let f = v.footer();
            let s = f.len() - 44;
            &&& read_le32(f.subrange(s + 8, s + 12)) == 2
            &&& slot_locates_entry(f, s, 0, SefTag::MotionPhotoData, v.tags[1].1)
            &&& slot_locates_entry(f, s, 1, SefTag::MotionPhotoVersion, v.tags[0].1)
        }),
{
    law_sefh_found_from_end(v);
    lemma_data_entry_lengths(v);
    lemma_fixed_lengths();
    lemma_active_prefixes(v);
    let f = v.footer();
    let a = v.active();
    let dv = v.tags[1].1;
    let e0 = tag_entry(SefTag::MotionPhotoData, dv);
    let e1 = tag_entry(SefTag::MotionPhotoVersion, v.tags[0].1);
    let total = 55 + dv.len();
    let s = f.len() - 44;
    let d0 = (SefTag::MotionPhotoData, dv);
    assert(a.drop_last() =~= seq![d0]);
    assert(seq![d0].drop_last() =~= Seq::<(SefTag, Seq<u8>)>::empty());
    assert(tag_data(Seq::<(SefTag, Seq<u8>)>::empty()).len() == 0);
    assert(tag_data(seq![d0]) == e0);
    // the footer ends with the tag data, then the SEFH block
    assert(f.subrange(s - total, s) =~= v.tag_data());
    assert(f.subrange(s, f.len() as int) =~= v.sefh());
    let dir = directory(a, total as int);
    lemma_directory_layout(v);
    let id0 = SefTag::MotionPhotoData.id_bytes();
    let id1 = SefTag::MotionPhotoVersion.id_bytes();
    assert(f.subrange(s + 12, s + 36) =~= dir);
    let x0 = field32(total as int);
    let l0 = field32(e0.len() as int);
    let x1 = field32(total - e0.len());
    let l1 = field32(e1.len() as int);
    assert(x0 == total && l0 == e0.len() && x1 == 31 && l1 == 31);
    lemma_read_le32(x0);
    lemma_read_le32(l0);
    lemma_read_le32(x1);
    lemma_read_le32(l1);
    assert(f.subrange(s + 12, s + 16) =~= id0);
    assert(f.subrange(s + 16, s + 20) =~= le32(x0));
    assert(f.subrange(s + 20, s + 24) =~= le32(l0));
    assert(f.subrange(s + 24, s + 28) =~= id1);
    assert(f.subrange(s + 28, s + 32) =~= le32(x1));
    assert(f.subrange(s + 32, s + 36) =~= le32(l1));
    assert(f.subrange(s - total, s - total + e0.len()) =~= e0);
    assert(f.subrange(s - 31, s) =~= e1);
    assert(f.subrange(s + 8, s + 12) =~= le32(field32(2)));
    assert(field32(2) == 2);
    lemma_read_le32(field32(2));
    assert(slot_locates_entry(f, s, 0, SefTag::MotionPhotoData, dv));
    assert(slot_locates_entry(f, s, 1, SefTag::MotionPhotoVersion, v.tags[0].1));
}

/// The SEFH block depends on the data value's length only: two well-formed trailers
/// whose data values have one length have one SEFH block.
proof fn lemma_sefh_by_data_length(v: SamsungTagsView, w: SamsungTagsView)
    requires
        v.well_formed(),
        w.well_formed(),
        v.tags[1].1.len() == w.tags[1].1.len(),
    ensures
        v.sefh() == w.sefh(),
        v.tag_data().len() == w.tag_data().len(),
{
    lemma_data_entry_lengths(v);
    lemma_data_entry_lengths(w);
    lemma_active_prefixes(v);
    lemma_active_prefixes(w);
    lemma_directory_layout(v);
    lemma_directory_layout(w);
    lemma_fixed_lengths();
    assert(tag_entry(SefTag::MotionPhotoData, v.tags[1].1).len() == tag_entry(
        SefTag::MotionPhotoData,
        w.tags[1].1,
    ).len());
    assert(v.tags[0] == w.tags[0]);
    assert(directory(v.active(), v.tag_data().len() as int) == directory(
        w.active(),
        w.tag_data().len() as int,
    ));
    assert(sefh_body(v.active()) == sefh_body(w.active()));
}

/// Setting the image size touches only the motion-photo data value. For JPG the trailer
/// stays as it was. For HEIC it keeps its length and every byte but the 12 of the data
/// value (which begins 40 bytes past the video's length), and those become the `mpv2`
/// marker, the video's offset and the video's length. The item length and the padding the
/// XMP records stay too.
pub proof fn law_image_size_changes_only_data(v: SamsungTagsView, image_size: nat)
    requires
        v.well_formed(),
    ensures
        ({
            let w = v.with_image_size(image_size);
            let f0 = v.footer();
            let f1 = w.footer();
            let at = v.video.len() + 40int;
            &&& w.well_formed()
            &&& f1.len() == f0.len()
            &&& w.image_padding() == v.image_padding()
            &&& v.image_type == ImageType::Jpg ==> f1 == f0
            &&& v.image_type == ImageType::Heic ==> {
                &&& f1.subrange(at, at + 12) == v.heic_motion_data(image_size)
                &&& forall|i: int|
                    0 <= i < f0.len() && !(at <= i < at + 12) ==> #[trigger] f1[i] == f0[i]
            }
        }),
{
    lemma_fixed_lengths();
    let w = v.with_image_size(image_size);
    if v.image_type == ImageType::Jpg {
        assert(w.tags == v.tags);
        assert(w.footer() == v.footer());
        lemma_jpg_padding(v);
        lemma_jpg_padding(w);
    } else {
        let data = v.heic_motion_data(image_size);
        lemma_set_tag_value_at(v.tags, SefTag::MotionPhotoData, data, 1);
        assert(w.tags == v.tags.update(1, (SefTag::MotionPhotoData, data)));
        assert(w.well_formed());
        lemma_sefh_by_data_length(v, w);
        lemma_data_entry_lengths(v);
        lemma_data_entry_lengths(w);
        let n = v.video.len() as int;
        let id0 = SefTag::MotionPhotoData.id_bytes();
        let name0 = SefTag::MotionPhotoData.name_bytes();
        let e1 = tag_entry(SefTag::MotionPhotoVersion, v.tags[0].1);
        assert(w.tags[0] == v.tags[0]);
        let head = be32(field32(v.mpvd_payload().len() + MPVD_BOX_SIZE)) + MPVD_BOX_NAME.spec_bytes()
            + v.video + be32(field32(v.tag_data().len() + v.sefh().len() + SEFD_BOX_SIZE))
            + SEFD_BOX_NAME.spec_bytes() + id0 + le32(field32(name0.len() as int)) + name0;
        let tail = e1 + v.sefh();
        assert(v.mpvd_payload().len() == w.mpvd_payload().len());
        assert(v.footer() =~= head + v.tags[1].1 + tail);
        assert(w.footer() =~= head + data + tail);
        assert(head.len() == n + 40);
        let f0 = v.footer();
        let f1 = w.footer();
        assert(f1.subrange(n + 40, n + 52) =~= data);
        assert forall|i: int| 0 <= i < f0.len() && !(n + 40 <= i < n + 52) implies #[trigger] f1[i]
            == f0[i] by {
            if i < n + 40 {
                assert(f0[i] == head[i] && f1[i] == head[i]);
            } else {
                assert(f0[i] == tail[i - n - 52] && f1[i] == tail[i - n - 52]);
            }
        }
    }
}

/// Inside a HEIC trailer's `mpvd` box, after the video, stands a well-formed `sefd` box:
/// its type is `sefd`, and its big-endian size field gives its length, which runs to the
/// end of the trailer.
pub proof fn law_heic_sefd_box(v: SamsungTagsView)
    requires
        v.well_formed(),
        v.image_type == ImageType::Heic,
    ensures
        ({
            let f = v.footer();
            let n = v.video.len() as int;
            &&& f.len() >= n + 16
            &&& f.subrange(n + 12, n + 16) == seq![0x73u8, 0x65, 0x66, 0x64]
            &&& read_be32(f.subrange(n + 8, n + 12)) == f.len() - 8 - n
        }),
{
    lemma_data_entry_lengths(v);
    lemma_fixed_lengths();
    reveal_strlit("sefd");
    vstd::string::is_ascii_spec_bytes("sefd");
    assert(SEFD_BOX_NAME.spec_bytes() =~= seq![0x73u8, 0x65, 0x66, 0x64]);
    let f = v.footer();
    let n = v.video.len() as int;
    let size = field32(v.tag_data().len() + v.sefh().len() + SEFD_BOX_SIZE);
    assert(v.tag_data().len() + v.sefh().len() + SEFD_BOX_SIZE == 119);
    assert(size == 119) by (bit_vector)
        requires
            size == 119int as u32,
    ;
    assert(f.subrange(n + 8, n + 12) =~= be32(size));
    assert(f.subrange(n + 12, n + 16) =~= SEFD_BOX_NAME.spec_bytes());
    lemma_read_be32(size);
}

/// A HEIC trailer is one `mpvd` box: its type is `mpvd` and its big-endian size field is
/// the trailer's length (for trailers shorter than 4 GiB, the range of the field).
pub proof fn law_heic_footer_is_mpvd_box(v: SamsungTagsView)
    requires
        v.well_formed(),
        v.image_type == ImageType::Heic,
        v.footer().len() <= u32::MAX,
    ensures
        v.footer().subrange(4, 8) == MPVD_BOX_NAME.spec_bytes(),
        read_be32(v.footer().subrange(0, 4)) == v.footer().len(),
{
    lemma_data_entry_lengths(v);
    lemma_fixed_lengths();
    let f = v.footer();
    let size = field32(v.mpvd_payload().len() + MPVD_BOX_SIZE);
    assert(f.subrange(4, 8) =~= MPVD_BOX_NAME.spec_bytes());
    assert(f.subrange(0, 4) =~= be32(size));
    lemma_read_be32(size);
}

/// For HEIC, once the image size is set, `MotionPhoto_Data` holds the `mpv2` marker, the
/// offset at which the video starts in image-plus-trailer, and the video's length
/// (for offsets and lengths below 4 GiB, the range of the fields).
pub proof fn law_heic_motion_data_locates_video(v: SamsungTagsView, image: Seq<u8>)
    requires
        v.well_formed(),
        v.image_type == ImageType::Heic,
        v.tags[1].1 == v.heic_motion_data(image.len()),
        image.len() + MPVD_BOX_SIZE <= u32::MAX,
        v.video.len() <= u32::MAX,
    ensures
        ({
            let data = v.tags[1].1;
            let file = image + v.footer();
            let offset = read_be32(data.subrange(4, 8));
            &&& data.subrange(0, 4) == MOTION_PHOTO_DATA_MARKER.spec_bytes()
            &&& read_be32(data.subrange(8, 12)) == v.video.len()
            &&& offset == image.len() + v.image_padding()
            &&& file.subrange(offset, offset + v.video.len()) == v.video
        }),
{
    lemma_fixed_lengths();
    law_item_length_locates_video(v, image);
    let data = v.tags[1].1;
    let off = field32(image.len() + MPVD_BOX_SIZE);
    let len = field32(v.video.len() as int);
    assert(data.subrange(0, 4) =~= MOTION_PHOTO_DATA_MARKER.spec_bytes());
    assert(data.subrange(4, 8) =~= be32(off));
    assert(data.subrange(8, 12) =~= be32(len));
    lemma_read_be32(off);
    lemma_read_be32(len);
}

} // verus!
