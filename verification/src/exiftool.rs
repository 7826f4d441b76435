//! What is decided around the persistent ExifTool process (`-stay_open` protocol): where a
//! response ends in the process's output, and what is asked of it.

use vstd::prelude::*;
use vstd::string::StringSliceAdditionalSpecFns;

use crate::text::{
    append_slice, chars_of, decimal, find, find_bytes, opt_int, owned, string_from_chars,
    strings_view, u64_decimal, usize_decimal,
};

verus! {

/// First position at which `needle` occurs in `haystack`.
pub fn find_subsequence(haystack: &[u8], needle: &[u8]) -> (r: Option<usize>)
    requires
        needle@.len() > 0,
    ensures
        opt_int(r) == find(haystack@, needle@),
{
    find_bytes(haystack, needle)
}

/// The ASCII bytes of the decimal digits of `n`.
pub open spec fn decimal_bytes(n: nat) -> Seq<u8> {
    decimal(n).map_values(|c: char| c as u8)
}

/// `{ready<seq>}`: the line ExifTool prints when it has answered request number `seq`.
pub open spec fn ready_sentinel(seq: u32) -> Seq<u8> {
    "{ready".spec_bytes() + decimal_bytes(seq as nat) + "}".spec_bytes()
}

/// `s` without its trailing newlines and carriage returns.
pub open spec fn strip_line_ends(s: Seq<u8>) -> Seq<u8>
    decreases s.len(),
{
    if s.len() > 0 && (s.last() == 10 || s.last() == 13) {
        strip_line_ends(s.drop_last())
    } else {
        s
    }
}

/// The bytes of `{ready<seq>}`.
pub fn ready_sentinel_bytes(seq: u32) -> (r: Vec<u8>)
    ensures
        r@ == ready_sentinel(seq),
        r@.len() > 0,
{
    let digits = u64_decimal(seq as u64);
    let mut out: Vec<u8> = Vec::new();
    append_slice(&mut out, "{ready".as_bytes());
    let ghost start = out@;
    let mut i: usize = 0;
    while i < digits.len()
        invariant
            i <= digits@.len(),
            digits@ == decimal(seq as nat),
            out@ == start + digits@.take(i as int).map_values(|c: char| c as u8),
        decreases digits@.len() - i,
    {
        out.push(digits[i] as u8);
        i += 1;
        assert(digits@.take(i as int).map_values(|c: char| c as u8) =~= digits@.take(
            i - 1,
        ).map_values(|c: char| c as u8).push(digits@[i - 1] as u8));
    }
    assert(digits@.take(digits@.len() as int) =~= digits@);
    append_slice(&mut out, "}".as_bytes());
    proof {
        reveal_strlit("}");
        vstd::string::is_ascii_spec_bytes("}");
    }
    out
}

/// The response to request number `seq` once the output read so far holds its sentinel:
/// everything before the sentinel, without trailing line ends. None while the sentinel
/// has not arrived.
pub fn response_before_sentinel(output: &[u8], seq: u32) -> (r: Option<Vec<u8>>)
    ensures
        match r {
            Some(v) => find(output@, ready_sentinel(seq)) matches Some(p) && v@ == strip_line_ends(
                output@.take(p),
            ),
            None => find(output@, ready_sentinel(seq)) is None,
        },
{
    let sentinel = ready_sentinel_bytes(seq);
    let pos = match find_subsequence(output, &sentinel) {
        Some(p) => p,
        None => return None,
    };
    proof {
        crate::text::lemma_find_props(output@, sentinel@);
    }
    let mut end = pos;
    assert(strip_line_ends(output@.take(pos as int)) == strip_line_ends(output@.take(end as int)));
    while end > 0 && (output[end - 1] == 10u8 || output[end - 1] == 13u8)
        invariant
            end <= pos <= output@.len(),
            strip_line_ends(output@.take(pos as int)) == strip_line_ends(output@.take(end as int)),
        decreases end,
    {
        assert(output@.take(end as int).drop_last() =~= output@.take(end - 1));
        end -= 1;
    }
    Some(crate::text::copy_range(output, 0, end))
}

/// What ExifTool reads for one request: each argument on a line of its own, then
/// `-execute<seq>`.
pub open spec fn request_text(args: Seq<Seq<char>>, seq: nat) -> Seq<char>
    decreases args.len(),
{
    if args.len() == 0 {
        "-execute"@ + decimal(seq) + "\n"@
    } else {
        args[0] + "\n"@ + request_text(args.drop_first(), seq)
    }
}

/// The text of request number `seq` with these arguments.
pub fn request(args: &Vec<String>, seq: u32) -> (r: String)
    ensures
        r@ == request_text(strings_view(args@), seq as nat),
{
    let ghost view = strings_view(args@);
    let newline = chars_of("\n");
    let mut out: Vec<char> = Vec::new();
    let mut i: usize = 0;
    assert(view.skip(0) =~= view);
    while i < args.len()
        invariant
            i <= args@.len(),
            view == strings_view(args@),
            newline@ == "\n"@,
            out@ + request_text(view.skip(i as int), seq as nat) == request_text(view, seq as nat),
        decreases args@.len() - i,
    {
        assert(view.skip(i as int).drop_first() =~= view.skip(i + 1));
        let ghost before = out@;
        append_slice(&mut out, &chars_of(args[i].as_str()));
        append_slice(&mut out, &newline);
        assert(out@ + request_text(view.skip(i + 1), seq as nat) =~= before + request_text(
            view.skip(i as int),
            seq as nat,
        ));
        i += 1;
    }
    let ghost before = out@;
    append_slice(&mut out, &chars_of("-execute"));
    append_slice(&mut out, &usize_decimal(seq as usize));
    append_slice(&mut out, &newline);
    assert(view.skip(args@.len() as int).len() == 0);
    assert(out@ =~= before + request_text(view.skip(args@.len() as int), seq as nat));
    string_from_chars(&out)
}

/// How the ExifTool process is started: the bundled script run by `perl` when there is
/// one, else the `exiftool` on the path; either way kept open, reading arguments from
/// standard input.
pub fn exiftool_command(bundled_script: Option<String>) -> (r: (String, Vec<String>))
    ensures
        ({
            let stay_open = seq!["-stay_open"@, "True"@, "-@"@, "-"@];
            match bundled_script {
                Some(script) => r.0@ == "perl"@ && strings_view(r.1@) == seq![script@] + stay_open,
                None => r.0@ == "exiftool"@ && strings_view(r.1@) == stay_open,
            }
        }),
{
    let (program, mut args) = match bundled_script {
        Some(script) => (owned("perl"), vec![script]),
        None => (owned("exiftool"), Vec::new()),
    };
    let ghost before = args@;
    args.push(owned("-stay_open"));
    args.push(owned("True"));
    args.push(owned("-@"));
    args.push(owned("-"));
    assert(strings_view(args@) =~= strings_view(before) + seq!["-stay_open"@, "True"@, "-@"@, "-"@]);
    (program, args)
}

/// Arguments of a metadata query: JSON output with numeric values, for these files.
pub fn metadata_args(paths: &Vec<String>) -> (r: Vec<String>)
    ensures
        strings_view(r@) == seq!["-j"@, "-n"@] + strings_view(paths@),
{
    let mut args = vec![owned("-j"), owned("-n")];
    let mut i: usize = 0;
    while i < paths.len()
        invariant
            i <= paths@.len(),
            strings_view(args@) == seq!["-j"@, "-n"@] + strings_view(paths@).take(i as int),
        decreases paths@.len() - i,
    {
        let ghost before = args@;
        let p = paths[i].clone();
        args.push(p);
        assert(strings_view(args@) =~= strings_view(before).push(paths@[i as int]@));
        assert(strings_view(paths@).take(i + 1) =~= strings_view(paths@).take(i as int).push(
            paths@[i as int]@,
        ));
        assert(strings_view(args@) =~= seq!["-j"@, "-n"@] + strings_view(paths@).take(i + 1));
        i += 1;
    }
    assert(strings_view(paths@).take(paths@.len() as int) =~= strings_view(paths@));
    args
}

/// Arguments that read the image's XMP block as it is.
pub fn read_xmp_args(path: &str) -> (r: Vec<String>)
    ensures
        strings_view(r@) == seq!["-XMP"@, "-b"@, path@],
{
    let r = vec![owned("-XMP"), owned("-b"), owned(path)];
    assert(strings_view(r@) =~= seq!["-XMP"@, "-b"@, path@]);
    r
}

/// Arguments that copy the sidecar's XMP into the image, in place.
pub fn embed_xmp_args(sidecar: &str, image: &str) -> (r: Vec<String>)
    ensures
        strings_view(r@) == seq!["-overwrite_original"@, "-tagsfromfile"@, sidecar@, "-xmp"@, image@],
{
    let r = vec![
        owned("-overwrite_original"),
        owned("-tagsfromfile"),
        owned(sidecar),
        owned("-xmp"),
        owned(image),
    ];
    assert(strings_view(r@) =~= seq![
        "-overwrite_original"@,
        "-tagsfromfile"@,
        sidecar@,
        "-xmp"@,
        image@,
    ]);
    r
}

/// Arguments that list the video's QuickTime tracks (XML, embedded data included, numeric
/// values) with their still-image time and duration.
pub fn quicktime_tracks_args(path: &str) -> (r: Vec<String>)
    ensures
        strings_view(r@) == seq![
            "-X"@,
            "-ee"@,
            "-n"@,
            "-QuickTime:StillImageTime"@,
            "-QuickTime:TrackDuration"@,
            path@,
        ],
{
    let r = vec![
        owned("-X"),
        owned("-ee"),
        owned("-n"),
        owned("-QuickTime:StillImageTime"),
        owned("-QuickTime:TrackDuration"),
        owned(path),
    ];
    assert(strings_view(r@) =~= seq![
        "-X"@,
        "-ee"@,
        "-n"@,
        "-QuickTime:StillImageTime"@,
        "-QuickTime:TrackDuration"@,
        path@,
    ]);
    r
}

/// Arguments that strip the image's MakerNotes (where Apple keeps its Live Photo index),
/// in place.
pub fn remove_apple_livephoto_args(image: &str) -> (r: Vec<String>)
    ensures
        strings_view(r@) == seq!["-overwrite_original"@, "-MakerNotes:all="@, image@],
{
    let r = vec![owned("-overwrite_original"), owned("-MakerNotes:all="), owned(image)];
    assert(strings_view(r@) =~= seq!["-overwrite_original"@, "-MakerNotes:all="@, image@]);
    r
}

/// Arguments that extract the video embedded in a motion photo: under Google's tag, or
/// under Samsung's.
pub fn embedded_video_args(path: &str, samsung: bool) -> (r: Vec<String>)
    ensures
        strings_view(r@) == seq![
            "-b"@,
            if samsung {
                "-EmbeddedVideoFile"@
            } else {
                "-MotionPhotoVideo"@
            },
            path@,
        ],
{
    let tag = if samsung {
        "-EmbeddedVideoFile"
    } else {
        "-MotionPhotoVideo"
    };
    let r = vec![owned("-b"), owned(tag), owned(path)];
    assert(strings_view(r@) =~= seq!["-b"@, tag@, path@]);
    r
}

} // verus!
