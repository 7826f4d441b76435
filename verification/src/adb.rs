//! What the desktop app reads from and says to `adb`: escaping a shell argument, the device
//! list, the directory listing, and the media-scanner URI of a pushed file.

use vstd::prelude::*;

use crate::text::{
    append_slice, char_is_whitespace, chars_of, contains, contains_chars, copy_range, ends_with,
    ends_with_chars, find, find_char, is_whitespace_char, replace_all, replace_all_chars,
    starts_with, starts_with_chars, string_from_chars, trim, trim_chars,
};

verus! {

/// Shared state of the desktop app: the directory of the bundled ExifTool, when there is one.
pub struct AppState {
    pub exiftool_dir: Option<String>,
}

/// Which bundled ExifTool the desktop app uses: the Windows executable's directory when
/// it is there, else the Perl script's directory when that is there, else none (the
/// system's `exiftool` is used).
pub fn bundled_exiftool_dir(
    windows_dir: String,
    script_dir: String,
    windows_found: bool,
    script_found: bool,
) -> (r: Option<String>)
    ensures
        r == (if windows_found {
            Some(windows_dir)
        } else if script_found {
            Some(script_dir)
        } else {
            None
        }),
{
    if windows_found {
        Some(windows_dir)
    } else if script_found {
        Some(script_dir)
    } else {
        None
    }
}

/// A device that `adb devices -l` reports as ready.
pub struct AdbDevice {
    pub serial: String,
    pub model: String,
}

/// A directory on a device.
pub struct DeviceDir {
    pub name: String,
    pub has_children: bool,
}

/// `s` quoted for a POSIX shell: in single quotes, each single quote written as `'\''`.
pub open spec fn shell_quoted(s: Seq<char>) -> Seq<char> {
    "'"@ + replace_all(s, "'"@, "'\\''"@) + "'"@
}

/// Minimal shell escaping for `adb shell` arguments.
pub fn shell_escape(s: &str) -> (r: String)
    ensures
        r@ == shell_quoted(s@),
{
    let quote = chars_of("'");
    proof {
        reveal_strlit("'");
    }
    let escaped = replace_all_chars(&chars_of(s), &quote, &chars_of("'\\''"));
    let mut out = chars_of("'");
    append_slice(&mut out, &escaped);
    append_slice(&mut out, &quote);
    string_from_chars(&out)
}

/// A line without the carriage return that ended it.
pub open spec fn strip_cr(line: Seq<char>) -> Seq<char> {
    if line.len() > 0 && line.last() == '\r' {
        line.drop_last()
    } else {
        line
    }
}

/// The lines of `s` (what `str::lines` yields): split after each `\n`, the `\n` and a
/// `\r` before it removed; a final line ending adds no empty line.
pub open spec fn lines(s: Seq<char>) -> Seq<Seq<char>>
    decreases s.len(),
{
    if s.len() == 0 {
        Seq::empty()
    } else {
        match find(s, seq!['\n']) {
            None => seq![s],
            Some(i) => if 0 <= i < s.len() {
                seq![strip_cr(s.take(i))] + lines(s.skip(i + 1))
            } else {
                seq![s]
            },
        }
    }
}

/// The whitespace-separated words of `s` (what `str::split_whitespace` yields).
pub open spec fn words(s: Seq<char>) -> Seq<Seq<char>>
    decreases s.len(),
{
    if s.len() == 0 {
        Seq::empty()
    } else if is_whitespace_char(s[0]) {
        words(s.drop_first())
    } else {
        let n = word_len(s, 0);
        if 0 < n <= s.len() {
            seq![s.take(n)] + words(s.skip(n))
        } else {
            seq![s]
        }
    }
}

/// Length of the run of non-whitespace characters of `s` starting at `i`.
pub open spec fn word_len(s: Seq<char>, i: nat) -> int
    decreases s.len() - i,
{
    if i >= s.len() || is_whitespace_char(s[i as int]) {
        i as int
    } else {
        word_len(s, i + 1)
    }
}

/// `s` without all trailing occurrences of `c` (what `str::trim_end_matches(c)` gives).
pub open spec fn trim_end_char(s: Seq<char>, c: char) -> Seq<char>
    decreases s.len(),
{
    if s.len() > 0 && s.last() == c {
        trim_end_char(s.drop_last(), c)
    } else {
        s
    }
}

/// `adb devices -l` lists this line as a ready device.
pub open spec fn is_device_line(line: Seq<char>) -> bool {
    contains(line, " device "@) || ends_with(line, "\tdevice"@)
}

/// The first word with the `model:` prefix, without the prefix.
pub open spec fn model_of(ws: Seq<Seq<char>>) -> Option<Seq<char>>
    decreases ws.len(),
{
    if ws.len() == 0 {
        None
    } else if starts_with(ws[0], "model:"@) {
        Some(ws[0].skip("model:"@.len() as int))
    } else {
        model_of(ws.drop_first())
    }
}

/// The device a listing line describes: its first word as serial, its `model:` value as
/// model (the serial when there is none).
pub open spec fn device_of_line(line: Seq<char>) -> (Seq<char>, Seq<char>) {
    let ws = words(line);
    let serial = if ws.len() > 0 {
        ws[0]
    } else {
        Seq::empty()
    };
    let model = match model_of(ws) {
        Some(m) => m,
        None => serial,
    };
    (serial, model)
}

/// The devices of the given listing lines, in order.
pub open spec fn devices_of(ls: Seq<Seq<char>>) -> Seq<(Seq<char>, Seq<char>)>
    decreases ls.len(),
{
    if ls.len() == 0 {
        Seq::empty()
    } else {
        let rest = devices_of(ls.drop_last());
        if is_device_line(ls.last()) {
            rest.push(device_of_line(ls.last()))
        } else {
            rest
        }
    }
}

/// The devices of `adb devices -l` output: every line after the header that reports a
/// ready device.
pub open spec fn adb_devices(stdout: Seq<char>) -> Seq<(Seq<char>, Seq<char>)> {
    if lines(stdout).len() == 0 {
        Seq::empty()
    } else {
        devices_of(lines(stdout).skip(1))
    }
}

/// The directories of an `ls -1p` listing: lines ending in `/`, without trailing slashes.
pub open spec fn dirs_of(ls: Seq<Seq<char>>) -> Seq<Seq<char>>
    decreases ls.len(),
{
    if ls.len() == 0 {
        Seq::empty()
    } else {
        let rest = dirs_of(ls.drop_last());
        if ends_with(ls.last(), "/"@) {
            rest.push(trim_end_char(ls.last(), '/'))
        } else {
            rest
        }
    }
}

proof fn lemma_find_char_range(s: Seq<char>, c: char)
    ensures
        find(s, seq![c]) matches Some(i) ==> 0 <= i < s.len(),
{
    crate::text::lemma_find_props(s, seq![c]);
}

/// The lines of `s`.
fn split_lines(s: &[char]) -> (r: Vec<Vec<char>>)
    ensures
        r@.map_values(|l: Vec<char>| l@) == lines(s@),
{
    let mut out: Vec<Vec<char>> = Vec::new();
    let mut rest = copy_range(s, 0, s.len());
    assert(rest@ =~= s@);
    assert(out@.map_values(|l: Vec<char>| l@) =~= Seq::<Seq<char>>::empty());
    while rest.len() > 0
        invariant
            lines(s@) == out@.map_values(|l: Vec<char>| l@) + lines(rest@),
        decreases rest@.len(),
    {
        proof {
            lemma_find_char_range(rest@, '\n');
        }
        let ghost old_out = out@;
        match find_char(&rest, '\n') {
            None => {
                assert(lines(rest@) == seq![rest@]);
                let whole = copy_range(&rest, 0, rest.len());
                assert(whole@ =~= rest@);
                out.push(whole);
                assert(out@.map_values(|l: Vec<char>| l@) =~= old_out.map_values(
                    |l: Vec<char>| l@,
                ) + lines(rest@));
                return out;
            },
            Some(i) => {
                let mut line = copy_range(&rest, 0, i);
                if line.len() > 0 && line[line.len() - 1] == '\r' {
                    line.pop();
                }
                assert(line@ =~= strip_cr(rest@.take(i as int)));
                out.push(line);
                let next = copy_range(&rest, i + 1, rest.len());
                assert(next@ =~= rest@.skip(i + 1));
                assert(out@.map_values(|l: Vec<char>| l@) =~= old_out.map_values(
                    |l: Vec<char>| l@,
                ).push(strip_cr(rest@.take(i as int))));
                rest = next;
            },
        }
    }
    assert(lines(rest@) =~= Seq::<Seq<char>>::empty());
    out
}

/// The whitespace-separated words of `s`.
fn split_words(s: &[char]) -> (r: Vec<Vec<char>>)
    ensures
        r@.map_values(|w: Vec<char>| w@) == words(s@),
{
    let mut out: Vec<Vec<char>> = Vec::new();
    let mut i: usize = 0;
    assert(s@.skip(0) =~= s@);
    assert(out@.map_values(|w: Vec<char>| w@) =~= Seq::<Seq<char>>::empty());
    while i < s.len()
        invariant
            i <= s@.len(),
            words(s@) == out@.map_values(|w: Vec<char>| w@) + words(s@.skip(i as int)),
        decreases s@.len() - i,
    {
        let ghost rest = s@.skip(i as int);
        if char_is_whitespace(s[i]) {
            assert(rest.drop_first() =~= s@.skip(i + 1));
            i += 1;
        } else {
            let mut j: usize = i;
            while j < s.len() && !char_is_whitespace(s[j])
                invariant
                    i <= j <= s@.len(),
                    rest == s@.skip(i as int),
                    word_len(rest, 0) == word_len(rest, (j - i) as nat),
                decreases s@.len() - j,
            {
                j += 1;
            }
            assert(word_len(rest, (j - i) as nat) == j - i);
            let ghost old_out = out@;
            out.push(copy_range(s, i, j));
            assert(rest.take(j - i) =~= s@.subrange(i as int, j as int));
            assert(rest.skip(j - i) =~= s@.skip(j as int));
            assert(out@.map_values(|w: Vec<char>| w@) =~= old_out.map_values(|w: Vec<char>| w@)
                + seq![rest.take(j - i)]);
            i = j;
        }
    }
    assert(words(s@.skip(i as int)) =~= Seq::<Seq<char>>::empty());
    out
}

/// `s` without all trailing occurrences of `c`.
fn trim_end_char_chars(s: &[char], c: char) -> (r: Vec<char>)
    ensures
        r@ == trim_end_char(s@, c),
{
    let mut end: usize = s.len();
    assert(s@.take(end as int) =~= s@);
    while end > 0 && s[end - 1] == c
        invariant
            end <= s@.len(),
            trim_end_char(s@, c) == trim_end_char(s@.take(end as int), c),
        decreases end,
    {
        assert(s@.take(end as int).drop_last() =~= s@.take(end - 1));
        end -= 1;
    }
    copy_range(s, 0, end)
}

/// The device a listing line describes.
fn parse_device_line(line: &[char]) -> (r: AdbDevice)
    ensures
        (r.serial@, r.model@) == device_of_line(line@),
{
    let ws = split_words(line);
    let ghost wv = ws@.map_values(|w: Vec<char>| w@);
    let serial: Vec<char> = if ws.len() > 0 {
        copy_range(&ws[0], 0, ws[0].len())
    } else {
        Vec::new()
    };
    assert(ws.len() > 0 ==> serial@ =~= wv[0]);
    assert(ws.len() == 0 ==> serial@ =~= Seq::<char>::empty());
    let prefix = chars_of("model:");
    let mut model: Option<Vec<char>> = None;
    let mut k: usize = 0;
    assert(wv.skip(0) =~= wv);
    while k < ws.len()
        invariant
            k <= ws@.len(),
            wv == ws@.map_values(|w: Vec<char>| w@),
            wv == words(line@),
            prefix@ == "model:"@,
            model is None,
            serial@ == (if wv.len() > 0 {
                wv[0]
            } else {
                Seq::<char>::empty()
            }),
            model_of(wv) == model_of(wv.skip(k as int)),
        decreases ws@.len() - k,
    {
        assert(wv.skip(k as int)[0] == ws@[k as int]@);
        assert(wv.skip(k as int).drop_first() =~= wv.skip(k + 1));
        if starts_with_chars(&ws[k], &prefix) {
            let m = copy_range(&ws[k], prefix.len(), ws[k].len());
            assert(m@ =~= ws@[k as int]@.skip("model:"@.len() as int));
            return AdbDevice {
                serial: string_from_chars(&serial),
                model: string_from_chars(&m),
            };
        }
        k += 1;
    }
    assert(model_of(wv.skip(k as int)) is None);
    let s = string_from_chars(&serial);
    let m = string_from_chars(&serial);
    AdbDevice { serial: s, model: m }
}

/// Reads the devices that `adb devices -l` reports as ready.
pub fn parse_adb_devices(stdout: &str) -> (r: Vec<AdbDevice>)
    ensures
        r@.map_values(|d: AdbDevice| (d.serial@, d.model@)) == adb_devices(stdout@),
{
    let all = split_lines(&chars_of(stdout));
    let ghost lv = all@.map_values(|l: Vec<char>| l@);
    let device = chars_of(" device ");
    let tab_device = chars_of("\tdevice");
    let mut out: Vec<AdbDevice> = Vec::new();
    if all.len() == 0 {
        assert(out@.map_values(|d: AdbDevice| (d.serial@, d.model@)) =~= Seq::<
            (Seq<char>, Seq<char>),
        >::empty());
        return out;
    }
    let ghost body = lv.skip(1);
    let mut i: usize = 1;
    assert(body.take(0) =~= Seq::<Seq<char>>::empty());
    assert(out@.map_values(|d: AdbDevice| (d.serial@, d.model@)) =~= Seq::<
        (Seq<char>, Seq<char>),
    >::empty());
    while i < all.len()
        invariant
            1 <= i <= all@.len(),
            lv == all@.map_values(|l: Vec<char>| l@),
            body == lv.skip(1),
            device@ == " device "@,
            tab_device@ == "\tdevice"@,
            out@.map_values(|d: AdbDevice| (d.serial@, d.model@)) == devices_of(
                body.take(i - 1),
            ),
        decreases all@.len() - i,
    {
        assert(body.take(i as int).drop_last() =~= body.take(i - 1));
        assert(body.take(i as int).last() == all@[i as int]@);
        let line = &all[i];
        if contains_chars(line, &device) || ends_with_chars(line, &tab_device) {
            let ghost before = out@;
            let d = parse_device_line(line);
            out.push(d);
            assert(out@.map_values(|d: AdbDevice| (d.serial@, d.model@)) =~= before.map_values(
                |d: AdbDevice| (d.serial@, d.model@),
            ).push(device_of_line(line@)));
        }
        i += 1;
    }
    assert(body.take(all@.len() - 1) =~= body);
    out
}

/// Reads the directories of an `ls -1p` listing.
pub fn parse_device_dirs(stdout: &str) -> (r: Vec<DeviceDir>)
    ensures
        r@.map_values(|d: DeviceDir| d.name@) == dirs_of(lines(stdout@)),
        forall|i: int| 0 <= i < r@.len() ==> (#[trigger] r@[i]).has_children,
{
    let all = split_lines(&chars_of(stdout));
    let ghost lv = all@.map_values(|l: Vec<char>| l@);
    let slash = chars_of("/");
    let mut out: Vec<DeviceDir> = Vec::new();
    let mut i: usize = 0;
    assert(lv.take(0) =~= Seq::<Seq<char>>::empty());
    assert(out@.map_values(|d: DeviceDir| d.name@) =~= Seq::<Seq<char>>::empty());
    while i < all.len()
        invariant
            i <= all@.len(),
            lv == all@.map_values(|l: Vec<char>| l@),
            slash@ == "/"@,
            out@.map_values(|d: DeviceDir| d.name@) == dirs_of(lv.take(i as int)),
            forall|j: int| 0 <= j < out@.len() ==> (#[trigger] out@[j]).has_children,
        decreases all@.len() - i,
    {
        assert(lv.take(i + 1).drop_last() =~= lv.take(i as int));
        assert(lv.take(i + 1).last() == all@[i as int]@);
        if ends_with_chars(&all[i], &slash) {
            let ghost before = out@;
            let name = trim_end_char_chars(&all[i], '/');
            out.push(DeviceDir { name: string_from_chars(&name), has_children: true });
            assert(out@.map_values(|d: DeviceDir| d.name@) =~= before.map_values(
                |d: DeviceDir| d.name@,
            ).push(trim_end_char(all@[i as int]@, '/')));
        }
        i += 1;
    }
    assert(lv.take(all@.len() as int) =~= lv);
    out
}

/// A dot-file, which is not pushed.
pub fn is_hidden_file_name(name: &str) -> (b: bool)
    ensures
        b == starts_with(name@, "."@),
{
    starts_with_chars(&chars_of(name), &chars_of("."))
}

/// The URI handed to the media scanner for a file pushed into `target_dir`, naming the
/// pushed file on the device: `file://`, the directory without trailing slashes, one `/`,
/// then the file name.
pub open spec fn media_scan_uri_of(target_dir: Seq<char>, file_name: Seq<char>) -> Seq<char> {
    "file://"@ + trim_end_char(target_dir, '/') + "/"@ + file_name
}

/// The media-scanner URI of a file pushed into `target_dir`.
pub fn media_scan_uri(target_dir: &str, file_name: &str) -> (r: String)
    ensures
        r@ == media_scan_uri_of(target_dir@, file_name@),
{
    let dir = chars_of(target_dir);
    let mut out = chars_of("file://");
    append_slice(&mut out, &trim_end_char_chars(&dir, '/'));
    append_slice(&mut out, &chars_of("/"));
    append_slice(&mut out, &chars_of(file_name));
    assert(out@ =~= media_scan_uri_of(target_dir@, file_name@));
    string_from_chars(&out)
}

/// Progress of pushing one file to a device.
pub struct AdbPushProgress {
    pub current: usize,
    pub total: usize,
    pub file: String,
    /// `pushing`, `done` or `error`.
    pub status: String,
    pub error: Option<String>,
}

/// Where the push of one file stands.
pub enum PushOutcome {
    /// The transfer is starting.
    Pushing,
    /// `adb push` succeeded.
    Done,
    /// `adb push` failed with this standard error output.
    Failed(String),
    /// `adb` could not be run; the reason.
    NotRun(String),
}

/// The progress report of file number `current` of `total`: while pushing, `pushing`; on
/// success, `done`; on a failed push, `error` with its standard error output trimmed; when
/// `adb` could not be run, `error` with the reason.
pub fn push_progress(current: usize, total: usize, file: &str, outcome: PushOutcome) -> (r:
    AdbPushProgress)
    ensures
        r.current == current,
        r.total == total,
        r.file@ == file@,
        match outcome {
            PushOutcome::Pushing => r.status@ == "pushing"@ && r.error is None,
            PushOutcome::Done => r.status@ == "done"@ && r.error is None,
            PushOutcome::Failed(stderr) => r.status@ == "error"@ && (r.error matches Some(e)
                && e@ == trim(stderr@)),
            PushOutcome::NotRun(reason) => r.status@ == "error"@ && (r.error matches Some(e)
                && e@ == reason@),
        },
{
    let (status, error) = match outcome {
        PushOutcome::Pushing => ("pushing", None),
        PushOutcome::Done => ("done", None),
        PushOutcome::Failed(stderr) => (
            "error",
            Some(string_from_chars(&trim_chars(&chars_of(stderr.as_str())))),
        ),
        PushOutcome::NotRun(reason) => ("error", Some(reason)),
    };
    AdbPushProgress {
        current,
        total,
        file: string_from_chars(&chars_of(file)),
        status: string_from_chars(&chars_of(status)),
        error,
    }
}

/// The error when the target directory cannot be created on the device.
pub fn mkdir_failure(stderr: &str) -> (r: String)
    ensures
        r@ == "Failed to create directory on device: "@ + stderr@,
{
    string_from_chars(
        &crate::text::concat_chars(&chars_of("Failed to create directory on device: "), &chars_of(stderr)),
    )
}

} // verus!
