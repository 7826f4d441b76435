//! Small decisions of the muxing pipeline: file naming, video detection, and what is read
//! out of ExifTool's output.

use vstd::prelude::*;
use vstd::string::StringSliceAdditionalSpecFns;

use crate::path::{
    opt_text, path_extension, path_file_stem, path_with_file_name, spec_extension, spec_file_stem,
    spec_with_file_name, text_or_empty,
};
use crate::error::LiveMuxError;
use crate::text::{
    append_slice, chars_equal, chars_of, contains, find_bytes, string_from_chars, trim, trim_chars,
};

verus! {

/// The name `enrich_fname` gives a file: the label inserted before the extension.
pub open spec fn enriched_name(stem: Seq<char>, label: Seq<char>, ext: Seq<char>) -> Seq<char> {
    if ext.len() == 0 {
        stem + "."@ + label
    } else {
        stem + "."@ + label + "."@ + ext
    }
}

/// `path` with `label` inserted before its extension.
pub open spec fn enriched_path(path: Seq<char>, label: Seq<char>) -> Seq<char> {
    spec_with_file_name(
        path,
        enriched_name(
            text_or_empty(spec_file_stem(path)),
            label,
            text_or_empty(spec_extension(path)),
        ),
    )
}

/// The file name with `label` inserted: the stem, the label, then the extension when
/// there is one, joined by dots.
pub fn enriched_file_name(stem: &str, label: &str, ext: &str) -> (r: String)
    ensures
        r@ == enriched_name(stem@, label@, ext@),
{
    let dot = chars_of(".");
    let mut new_name = chars_of(stem);
    append_slice(&mut new_name, &dot);
    append_slice(&mut new_name, &chars_of(label));
    let ext = chars_of(ext);
    if ext.len() > 0 {
        append_slice(&mut new_name, &dot);
        append_slice(&mut new_name, &ext);
    }
    string_from_chars(&new_name)
}

/// Inserts a label before the file extension: `IMG.HEIC` becomes `IMG.LIVE.HEIC`.
pub fn enrich_fname(path: &str, label: &str) -> (r: String)
    ensures
        r@ == enriched_path(path@, label@),
{
    let stem = match path_file_stem(path) {
        Some(s) => s,
        None => String::new(),
    };
    let ext = match path_extension(path) {
        Some(e) => e,
        None => String::new(),
    };
    let name = enriched_file_name(stem.as_str(), label, ext.as_str());
    path_with_file_name(path, name.as_str())
}

/// Length of the header searched for video signatures.
pub const VIDEO_HEADER_LEN: usize = 15;

/// Signatures one of which a video's header carries.
pub open spec fn video_signatures() -> Seq<Seq<u8>> {
    seq!["ftyp".spec_bytes(), "wide".spec_bytes()]
}

/// Signatures of containers that carry `ftyp` but are not videos.
pub open spec fn non_video_signatures() -> Seq<Seq<u8>> {
    seq!["ftypheic".spec_bytes(), "ftypM4A".spec_bytes(), "ftypavif".spec_bytes()]
}

/// Some signature of `sigs` occurs in `header`.
pub open spec fn has_any_signature(header: Seq<u8>, sigs: Seq<Seq<u8>>) -> bool {
    exists|i: int| 0 <= i < sigs.len() && contains(header, #[trigger] sigs[i])
}

/// `data` looks like a video: its first 15 bytes carry a video signature and no
/// non-video one.
pub open spec fn looks_like_video(data: Seq<u8>) -> bool {
    &&& data.len() >= VIDEO_HEADER_LEN
    &&& has_any_signature(data.take(VIDEO_HEADER_LEN as int), video_signatures())
    &&& !has_any_signature(data.take(VIDEO_HEADER_LEN as int), non_video_signatures())
}

/// Does `header` contain the bytes of `sig`?
fn header_has(header: &[u8], sig: &str) -> (b: bool)
    ensures
        b == contains(header@, sig.spec_bytes()),
{
    let bytes = sig.as_bytes();
    find_bytes(header, bytes).is_some()
}

/// Checks whether bytes look like a video file (searching the first 15 bytes for
/// `ftyp`/`wide` signatures, and rejecting image and audio brands).
pub fn verify_video_in_image(data: &[u8]) -> (b: bool)
    ensures
        b == looks_like_video(data@),
{
    if data.len() < VIDEO_HEADER_LEN {
        return false;
    }
    let header = vstd::slice::slice_subrange(data, 0, VIDEO_HEADER_LEN);
    assert(header@ =~= data@.take(VIDEO_HEADER_LEN as int));
    let ftyp = header_has(header, "ftyp");
    let wide = header_has(header, "wide");
    let has_video_sig = ftyp || wide;
    assert(has_video_sig == has_any_signature(header@, video_signatures())) by {
        let sigs = video_signatures();
        if has_video_sig {
            if ftyp {
                assert(contains(header@, sigs[0]));
            } else {
                assert(contains(header@, sigs[1]));
            }
        }
        if has_any_signature(header@, sigs) {
            let i = choose|i: int| 0 <= i < sigs.len() && contains(header@, #[trigger] sigs[i]);
            assert(i == 0 || i == 1);
        }
    }
    if !has_video_sig {
        return false;
    }
    // disqualified when it carries a non-video signature
    let heic = header_has(header, "ftypheic");
    let m4a = header_has(header, "ftypM4A");
    let avif = header_has(header, "ftypavif");
    let is_not_video = heic || m4a || avif;
    assert(is_not_video == has_any_signature(header@, non_video_signatures())) by {
        let sigs = non_video_signatures();
        if is_not_video {
            if heic {
                assert(contains(header@, sigs[0]));
            } else if m4a {
                assert(contains(header@, sigs[1]));
            } else {
                assert(contains(header@, sigs[2]));
            }
        }
        if has_any_signature(header@, sigs) {
            let i = choose|i: int| 0 <= i < sigs.len() && contains(header@, #[trigger] sigs[i]);
            assert(i == 0 || i == 1 || i == 2);
        }
    }
    !is_not_video
}

// ---------------------------------------------------------------------------------------
// ExifTool output

/// Pattern of the QuickTime track whose still-image time is `-1` (the Live Photo keyframe).
pub const STILL_IMAGE_TRACK_PATTERN: &'static str = "\\s*<Track(\\d+):StillImageTime>-1<";

/// Group 1 of the leftmost match of the regular expression `pattern` in `haystack`
/// (none when the pattern does not compile or does not match).
pub uninterp spec fn regex_capture(pattern: Seq<char>, haystack: Seq<char>) -> Option<Seq<char>>;

/// `regex::Regex::new(pattern)` and `Regex::captures(haystack)`: the text of capture group 1
/// of the leftmost match. Claims only that the answer is the fixed function
/// `regex_capture` of the pattern and the haystack.
#[verifier::external_body]
fn regex_first_capture(pattern: &str, haystack: &str) -> (r: Option<String>)
    ensures
        opt_text(r) == regex_capture(pattern@, haystack@),
{
    let re = regex::Regex::new(pattern).ok()?;
    re.captures(haystack)?.get(1).map(|m| m.as_str().to_string())
}

/// Extracts the number of the track whose `StillImageTime` is `-1` from ExifTool's XML output.
pub fn extract_track_number(metadata: &str) -> (r: Option<String>)
    ensures
        opt_text(r) == regex_capture(STILL_IMAGE_TRACK_PATTERN@, metadata@),
{
    regex_first_capture(STILL_IMAGE_TRACK_PATTERN, metadata)
}

/// Pattern of the duration of track `track` in ExifTool's XML output, in seconds.
pub open spec fn track_duration_pattern(track: Seq<char>) -> Seq<char> {
    "\\s*<Track"@ + track + ":TrackDuration>(\\d+\\.?\\d*)<"@
}

/// The duration of track `track_number`, in seconds, as ExifTool's XML output writes it.
pub fn track_duration_text(track_number: &str, metadata: &str) -> (r: Option<String>)
    ensures
        opt_text(r) == regex_capture(track_duration_pattern(track_number@), metadata@),
{
    let pattern = crate::text::concat_chars(
        &crate::text::concat_chars(&chars_of("\\s*<Track"), &chars_of(track_number)),
        &chars_of(":TrackDuration>(\\d+\\.?\\d*)<"),
    );
    regex_first_capture(string_from_chars(&pattern).as_str(), metadata)
}

/// The string-valued fields of one file's ExifTool JSON record (`exiftool -j -n`),
/// in the record's order.
pub struct FileMetadata {
    pub string_fields: Vec<(String, String)>,
}

/// Value of the first field named `key`.
pub open spec fn lookup_field(fields: Seq<(Seq<char>, Seq<char>)>, key: Seq<char>) -> Option<
    Seq<char>,
>
    decreases fields.len(),
{
    if fields.len() == 0 {
        None
    } else if fields[0].0 == key {
        Some(fields[0].1)
    } else {
        lookup_field(fields.drop_first(), key)
    }
}

impl FileMetadata {
    pub open spec fn fields(&self) -> Seq<(Seq<char>, Seq<char>)> {
        Seq::new(
            self.string_fields@.len(),
            |i: int| (self.string_fields@[i].0@, self.string_fields@[i].1@),
        )
    }

    /// A record without string fields (what a missing record reads as).
    pub fn empty() -> (r: Self)
        ensures
            r.fields() == Seq::<(Seq<char>, Seq<char>)>::empty(),
    {
        let r = FileMetadata { string_fields: Vec::new() };
        assert(r.fields() =~= Seq::<(Seq<char>, Seq<char>)>::empty());
        r
    }

    /// The string value of the field `key`, if the record has one.
    pub fn get_str(&self, key: &str) -> (r: Option<String>)
        ensures
            opt_text(r) == lookup_field(self.fields(), key@),
    {
        let ghost fields = self.fields();
        let key_chars = chars_of(key);
        let mut i: usize = 0;
        assert(fields.skip(0) =~= fields);
        while i < self.string_fields.len()
            invariant
                fields == self.fields(),
                key_chars@ == key@,
                i <= self.string_fields@.len(),
                lookup_field(fields, key@) == lookup_field(fields.skip(i as int), key@),
            decreases self.string_fields@.len() - i,
        {
            assert(fields.skip(i as int)[0] == fields[i as int]);
            assert(fields.skip(i as int).drop_first() =~= fields.skip(i + 1));
            let name = chars_of(self.string_fields[i].0.as_str());
            if chars_equal(&name, &key_chars) {
                return Some(self.string_fields[i].1.clone());
            }
            i += 1;
        }
        None
    }
}

/// The records of a JSON array of objects, each as its fields in the order `serde_json`
/// walks them: the name, and the value when it is a string. A record that is no object
/// has no fields. None when the text is no JSON array.
pub uninterp spec fn spec_json_fields(raw: Seq<char>) -> Option<Seq<Seq<(Seq<char>, Option<Seq<char>>)>>>;

/// One JSON record's fields as character sequences.
pub open spec fn record_view(r: Seq<(String, Option<String>)>) -> Seq<(Seq<char>, Option<Seq<char>>)> {
    Seq::new(r.len(), |i: int| (r[i].0@, opt_text(r[i].1)))
}

/// JSON records as character sequences.
pub open spec fn records_view(v: Seq<Vec<(String, Option<String>)>>) -> Seq<Seq<(Seq<char>, Option<Seq<char>>)>> {
    Seq::new(v.len(), |i: int| record_view(v[i]@))
}

/// Pairs of strings as pairs of character sequences.
pub open spec fn text_pairs(v: Seq<(String, String)>) -> Seq<(Seq<char>, Seq<char>)> {
    Seq::new(v.len(), |i: int| (v[i].0@, v[i].1@))
}

/// The string-valued fields of a record, in order.
pub open spec fn string_fields_of(rec: Seq<(Seq<char>, Option<Seq<char>>)>) -> Seq<(Seq<char>, Seq<char>)>
    decreases rec.len(),
{
    if rec.len() == 0 {
        Seq::empty()
    } else {
        let rest = string_fields_of(rec.drop_last());
        match rec.last().1 {
            Some(v) => rest.push((rec.last().0, v)),
            None => rest,
        }
    }
}

/// `serde_json::from_str::<Vec<Value>>`, each record read as its fields (the name, and
/// the value when it is a string). Claims only that the records are the fixed function
/// `spec_json_fields` of the text, and that a parse error is an error here.
#[verifier::external_body]
fn json_fields(raw: &str) -> (r: Result<Vec<Vec<(String, Option<String>)>>, String>)
    ensures
        match r {
            Ok(v) => spec_json_fields(raw@) == Some(records_view(v@)),
            Err(_) => spec_json_fields(raw@) is None,
        },
{
    let values: Vec<serde_json::Value> = serde_json::from_str(raw).map_err(|e| e.to_string())?;
    Ok(values.iter().map(|v| match v.as_object() {
        Some(m) => m.iter().map(|(k, x)| (k.clone(), x.as_str().map(|s| s.to_string()))).collect(),
        None => Vec::new(),
    }).collect())
}

/// The metadata records in ExifTool's JSON answer (`exiftool -j`), surrounding
/// whitespace ignored: each record's string-valued fields. A `Json` error when the
/// answer is no JSON array.
pub fn parse_metadata(raw: &str) -> (r: Result<Vec<FileMetadata>, LiveMuxError>)
    ensures
        match spec_json_fields(trim(raw@)) {
            None => r matches Err(LiveMuxError::Json(_)),
            Some(recs) => r matches Ok(ms) && ms@.len() == recs.len() && forall|i: int|
                0 <= i < recs.len() ==> (#[trigger] ms@[i]).fields() == string_fields_of(recs[i]),
        },
{
    let trimmed = string_from_chars(&trim_chars(&chars_of(raw)));
    let records = match json_fields(trimmed.as_str()) {
        Ok(v) => v,
        Err(m) => return Err(LiveMuxError::Json(m)),
    };
    let ghost recs = records_view(records@);
    let mut out: Vec<FileMetadata> = Vec::new();
    let mut i: usize = 0;
    while i < records.len()
        invariant
            i <= records@.len(),
            recs == records_view(records@),
            out@.len() == i,
            forall|k: int| 0 <= k < i ==> (#[trigger] out@[k]).fields() == string_fields_of(recs[k]),
        decreases records@.len() - i,
    {
        let rec = &records[i];
        let ghost rv = record_view(rec@);
        let mut fields: Vec<(String, String)> = Vec::new();
        let mut j: usize = 0;
        assert(text_pairs(fields@) =~= string_fields_of(rv.take(0)));
        while j < rec.len()
            invariant
                j <= rec@.len(),
                rv == record_view(rec@),
                text_pairs(fields@) == string_fields_of(rv.take(j as int)),
            decreases rec@.len() - j,
        {
            assert(rv.take(j + 1).drop_last() =~= rv.take(j as int));
            assert(rv.take(j + 1).last() == rv[j as int]);
            let ghost before = fields@;
            if let Some(v) = &rec[j].1 {
                fields.push((rec[j].0.clone(), v.clone()));
                assert(text_pairs(fields@) =~= text_pairs(before).push((rec@[j as int].0@, v@)));
            }
            j += 1;
        }
        assert(rv.take(rec@.len() as int) =~= rv);
        let m = FileMetadata { string_fields: fields };
        assert(m.fields() =~= text_pairs(m.string_fields@));
        out.push(m);
        i += 1;
    }
    Ok(out)
}

/// Extracts a content identifier (or any string field) from a file's metadata record.
pub fn get_content_id(metadata: &FileMetadata, key: &str) -> (r: Option<String>)
    ensures
        opt_text(r) == lookup_field(metadata.fields(), key@),
{
    metadata.get_str(key)
}

} // verus!
