//! Whether a video must be remuxed to MP4 before it is embedded, and how ffmpeg is asked
//! to do it.

use vstd::prelude::*;
use vstd::string::StringSliceAdditionalSpecFns;

use crate::text::{bytes_match_at, owned, strings_view};

verus! {

/// Known MP4-compatible `ftyp` major brands.
pub open spec fn mp4_brand_names() -> Seq<&'static str> {
    seq![
        "isom", "iso2", "mp41", "mp42", "mp71", "avc1", "mmp4", "msnv", "ndas", "ndsc", "ndsh",
        "ndsm", "ndsp", "ndss", "ndxc", "ndxh", "ndxm", "ndxp", "ndxs", "M4V ", "M4A ",
    ]
}

/// `brand` is a known MP4-compatible brand.
pub open spec fn is_mp4_brand(brand: Seq<u8>) -> bool {
    exists|i: int| 0 <= i < mp4_brand_names().len() && #[trigger] mp4_brand_names()[i].spec_bytes() == brand
}

/// The first 12 bytes of a video say it needs remuxing: an `ftyp` box whose major brand
/// is QuickTime-only (not MP4-compatible). A header shorter than 12 bytes does not.
pub open spec fn header_needs_remux(header: Seq<u8>) -> bool {
    &&& header.len() >= 12
    &&& header.subrange(4, 8) == "ftyp".spec_bytes()
    &&& !is_mp4_brand(header.subrange(8, 12))
}

/// Decides from the first bytes of a video (at least the 12 that were read, or all there
/// are) whether it needs remuxing to MP4.
pub fn needs_remux(header: &[u8]) -> (b: bool)
    ensures
        b == header_needs_remux(header@),
{
    if header.len() < 12 {
        return false;
    }
    proof {
        reveal_strlit("ftyp");
        vstd::string::is_ascii_spec_bytes("ftyp");
    }
    // ftyp box: bytes 4..8 are "ftyp", bytes 8..12 the major brand
    let is_ftyp = bytes_match_at(header, 4, "ftyp".as_bytes());
    assert(is_ftyp == (header@.subrange(4, 8) == "ftyp".spec_bytes())) by {
        assert(header@.subrange(4, 4 + "ftyp".spec_bytes().len() as int) == header@.subrange(4, 8));
    }
    if !is_ftyp {
        return false;
    }
    let brands: [&'static str; 21] = [
        "isom", "iso2", "mp41", "mp42", "mp71", "avc1", "mmp4", "msnv", "ndas", "ndsc", "ndsh",
        "ndsm", "ndsp", "ndss", "ndxc", "ndxh", "ndxm", "ndxp", "ndxs", "M4V ", "M4A ",
    ];
    let brand = vstd::slice::slice_subrange(header, 8, 12);
    assert(brands@ =~= mp4_brand_names());
    let mut i: usize = 0;
    while i < brands.len()
        invariant
            i <= brands@.len(),
            brands@ == mp4_brand_names(),
            brand@ == header@.subrange(8, 12),
            brand@.len() == 4,
            forall|j: int| 0 <= j < i ==> (#[trigger] brands@[j]).spec_bytes() != brand@,
        decreases brands@.len() - i,
    {
        let b = brands[i].as_bytes();
        if b.len() == 4 && bytes_match_at(brand, 0, b) {
            assert(brand@.subrange(0, 4) =~= brand@);
            assert(mp4_brand_names()[i as int].spec_bytes() == header@.subrange(8, 12));
            return false;
        }
        assert(brands@[i as int].spec_bytes() != brand@) by {
            if brands@[i as int].spec_bytes() == brand@ {
                assert(brand@.subrange(0, 4) =~= brand@);
            }
        }
        i += 1;
    }
    assert(brands@ =~= mp4_brand_names());
    true
}

/// Arguments of the remux to MP4: overwrite the output, copy the first video stream and
/// the first audio stream if there is one (no re-encoding, auxiliary tracks dropped), and
/// put the index at the front.
pub fn remux_args(input: &str, output: &str) -> (r: Vec<String>)
    ensures
        strings_view(r@) == seq![
            "-y"@,
            "-i"@,
            input@,
            "-c"@,
            "copy"@,
            "-map"@,
            "0:v:0"@,
            "-map"@,
            "0:a:0?"@,
            "-movflags"@,
            "+faststart"@,
            output@,
        ],
{
    let r = vec![
        owned("-y"),
        owned("-i"),
        owned(input),
        owned("-c"),
        owned("copy"),
        owned("-map"),
        owned("0:v:0"),
        owned("-map"),
        owned("0:a:0?"),
        owned("-movflags"),
        owned("+faststart"),
        owned(output),
    ];
    assert(strings_view(r@) =~= seq![
        "-y"@,
        "-i"@,
        input@,
        "-c"@,
        "copy"@,
        "-map"@,
        "0:v:0"@,
        "-map"@,
        "0:a:0?"@,
        "-movflags"@,
        "+faststart"@,
        output@,
    ]);
    r
}

/// Four ASCII characters as bytes.
pub open spec fn ascii4(a: char, b: char, c: char, d: char) -> Seq<u8> {
    seq![a as u8, b as u8, c as u8, d as u8]
}

/// The bytes of each known brand name.
proof fn lemma_brand_bytes()
    ensures
        mp4_brand_names()[0].spec_bytes() == ascii4('i', 's', 'o', 'm'),
        mp4_brand_names()[1].spec_bytes() == ascii4('i', 's', 'o', '2'),
        mp4_brand_names()[2].spec_bytes() == ascii4('m', 'p', '4', '1'),
        mp4_brand_names()[3].spec_bytes() == ascii4('m', 'p', '4', '2'),
        mp4_brand_names()[4].spec_bytes() == ascii4('m', 'p', '7', '1'),
        mp4_brand_names()[5].spec_bytes() == ascii4('a', 'v', 'c', '1'),
        mp4_brand_names()[6].spec_bytes() == ascii4('m', 'm', 'p', '4'),
        mp4_brand_names()[7].spec_bytes() == ascii4('m', 's', 'n', 'v'),
        mp4_brand_names()[8].spec_bytes() == ascii4('n', 'd', 'a', 's'),
        mp4_brand_names()[9].spec_bytes() == ascii4('n', 'd', 's', 'c'),
        mp4_brand_names()[10].spec_bytes() == ascii4('n', 'd', 's', 'h'),
        mp4_brand_names()[11].spec_bytes() == ascii4('n', 'd', 's', 'm'),
        mp4_brand_names()[12].spec_bytes() == ascii4('n', 'd', 's', 'p'),
        mp4_brand_names()[13].spec_bytes() == ascii4('n', 'd', 's', 's'),
        mp4_brand_names()[14].spec_bytes() == ascii4('n', 'd', 'x', 'c'),
        mp4_brand_names()[15].spec_bytes() == ascii4('n', 'd', 'x', 'h'),
        mp4_brand_names()[16].spec_bytes() == ascii4('n', 'd', 'x', 'm'),
        mp4_brand_names()[17].spec_bytes() == ascii4('n', 'd', 'x', 'p'),
        mp4_brand_names()[18].spec_bytes() == ascii4('n', 'd', 'x', 's'),
        mp4_brand_names()[19].spec_bytes() == ascii4('M', '4', 'V', ' '),
        mp4_brand_names()[20].spec_bytes() == ascii4('M', '4', 'A', ' '),
{
    reveal_strlit("isom");
    vstd::string::is_ascii_spec_bytes("isom");
    reveal_strlit("iso2");
    vstd::string::is_ascii_spec_bytes("iso2");
    reveal_strlit("mp41");
    vstd::string::is_ascii_spec_bytes("mp41");
    reveal_strlit("mp42");
    vstd::string::is_ascii_spec_bytes("mp42");
    reveal_strlit("mp71");
    vstd::string::is_ascii_spec_bytes("mp71");
    reveal_strlit("avc1");
    vstd::string::is_ascii_spec_bytes("avc1");
    reveal_strlit("mmp4");
    vstd::string::is_ascii_spec_bytes("mmp4");
    reveal_strlit("msnv");
    vstd::string::is_ascii_spec_bytes("msnv");
    reveal_strlit("ndas");
    vstd::string::is_ascii_spec_bytes("ndas");
    reveal_strlit("ndsc");
    vstd::string::is_ascii_spec_bytes("ndsc");
    reveal_strlit("ndsh");
    vstd::string::is_ascii_spec_bytes("ndsh");
    reveal_strlit("ndsm");
    vstd::string::is_ascii_spec_bytes("ndsm");
    reveal_strlit("ndsp");
    vstd::string::is_ascii_spec_bytes("ndsp");
    reveal_strlit("ndss");
    vstd::string::is_ascii_spec_bytes("ndss");
    reveal_strlit("ndxc");
    vstd::string::is_ascii_spec_bytes("ndxc");
    reveal_strlit("ndxh");
    vstd::string::is_ascii_spec_bytes("ndxh");
    reveal_strlit("ndxm");
    vstd::string::is_ascii_spec_bytes("ndxm");
    reveal_strlit("ndxp");
    vstd::string::is_ascii_spec_bytes("ndxp");
    reveal_strlit("ndxs");
    vstd::string::is_ascii_spec_bytes("ndxs");
    reveal_strlit("M4V ");
    vstd::string::is_ascii_spec_bytes("M4V ");
    reveal_strlit("M4A ");
    vstd::string::is_ascii_spec_bytes("M4A ");
    assert(mp4_brand_names().len() == 21);
    assert(mp4_brand_names()[0].spec_bytes() =~= ascii4('i', 's', 'o', 'm'));
    assert(mp4_brand_names()[1].spec_bytes() =~= ascii4('i', 's', 'o', '2'));
    assert(mp4_brand_names()[2].spec_bytes() =~= ascii4('m', 'p', '4', '1'));
    assert(mp4_brand_names()[3].spec_bytes() =~= ascii4('m', 'p', '4', '2'));
    assert(mp4_brand_names()[4].spec_bytes() =~= ascii4('m', 'p', '7', '1'));
    assert(mp4_brand_names()[5].spec_bytes() =~= ascii4('a', 'v', 'c', '1'));
    assert(mp4_brand_names()[6].spec_bytes() =~= ascii4('m', 'm', 'p', '4'));
    assert(mp4_brand_names()[7].spec_bytes() =~= ascii4('m', 's', 'n', 'v'));
    assert(mp4_brand_names()[8].spec_bytes() =~= ascii4('n', 'd', 'a', 's'));
    assert(mp4_brand_names()[9].spec_bytes() =~= ascii4('n', 'd', 's', 'c'));
    assert(mp4_brand_names()[10].spec_bytes() =~= ascii4('n', 'd', 's', 'h'));
    assert(mp4_brand_names()[11].spec_bytes() =~= ascii4('n', 'd', 's', 'm'));
    assert(mp4_brand_names()[12].spec_bytes() =~= ascii4('n', 'd', 's', 'p'));
    assert(mp4_brand_names()[13].spec_bytes() =~= ascii4('n', 'd', 's', 's'));
    assert(mp4_brand_names()[14].spec_bytes() =~= ascii4('n', 'd', 'x', 'c'));
    assert(mp4_brand_names()[15].spec_bytes() =~= ascii4('n', 'd', 'x', 'h'));
    assert(mp4_brand_names()[16].spec_bytes() =~= ascii4('n', 'd', 'x', 'm'));
    assert(mp4_brand_names()[17].spec_bytes() =~= ascii4('n', 'd', 'x', 'p'));
    assert(mp4_brand_names()[18].spec_bytes() =~= ascii4('n', 'd', 'x', 's'));
    assert(mp4_brand_names()[19].spec_bytes() =~= ascii4('M', '4', 'V', ' '));
    assert(mp4_brand_names()[20].spec_bytes() =~= ascii4('M', '4', 'A', ' '));
}

/// A video whose `ftyp` major brand is one of the MP4-compatible brands (isom, iso2,
/// mp41, mp42, mp71, avc1, mmp4, msnv, the nd.. family, `M4V `, `M4A `) needs no remux.
pub proof fn law_mp4_brands_need_no_remux(header: Seq<u8>)
    requires
        header.len() >= 12,
        header.subrange(4, 8) == ascii4('f', 't', 'y', 'p'),
        ({
            let brand = header.subrange(8, 12);
            brand == ascii4('i', 's', 'o', 'm')
            || brand == ascii4('i', 's', 'o', '2')
            || brand == ascii4('m', 'p', '4', '1')
            || brand == ascii4('m', 'p', '4', '2')
            || brand == ascii4('m', 'p', '7', '1')
            || brand == ascii4('a', 'v', 'c', '1')
            || brand == ascii4('m', 'm', 'p', '4')
            || brand == ascii4('m', 's', 'n', 'v')
            || brand == ascii4('n', 'd', 'a', 's')
            || brand == ascii4('n', 'd', 's', 'c')
            || brand == ascii4('n', 'd', 's', 'h')
            || brand == ascii4('n', 'd', 's', 'm')
            || brand == ascii4('n', 'd', 's', 'p')
            || brand == ascii4('n', 'd', 's', 's')
            || brand == ascii4('n', 'd', 'x', 'c')
            || brand == ascii4('n', 'd', 'x', 'h')
            || brand == ascii4('n', 'd', 'x', 'm')
            || brand == ascii4('n', 'd', 'x', 'p')
            || brand == ascii4('n', 'd', 'x', 's')
            || brand == ascii4('M', '4', 'V', ' ')
            || brand == ascii4('M', '4', 'A', ' ')
        }),
    ensures
        !header_needs_remux(header),
{
    lemma_brand_bytes();
    let brand = header.subrange(8, 12);
    assert(is_mp4_brand(brand));
}

/// A video whose `ftyp` major brand is QuickTime's `qt  ` needs a remux.
pub proof fn law_quicktime_needs_remux(header: Seq<u8>)
    requires
        header.len() >= 12,
        header.subrange(4, 8) == ascii4('f', 't', 'y', 'p'),
        header.subrange(8, 12) == ascii4('q', 't', ' ', ' '),
    ensures
        header_needs_remux(header),
{
    lemma_brand_bytes();
    reveal_strlit("ftyp");
    vstd::string::is_ascii_spec_bytes("ftyp");
    assert("ftyp".spec_bytes() =~= ascii4('f', 't', 'y', 'p'));
    let brand = header.subrange(8, 12);
    assert forall|i: int| 0 <= i < mp4_brand_names().len() implies #[trigger] mp4_brand_names()[i].spec_bytes() != brand by {
        assert(mp4_brand_names()[i].spec_bytes()[0] != brand[0] || mp4_brand_names()[i].spec_bytes()[1] != brand[1]);
    }
}

} // verus!
