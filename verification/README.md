# livemux-core

Builds Google/Samsung motion photos from a still image (HEIC or JPG) and a video: the
image, then a Samsung SEF trailer that carries the video, with an XMP packet telling
readers where the video starts.

The library in `src/` is written in Verus and verified:

- `samsung_tags` — the SEF trailer (tag data, SEFH directory, HEIC `mpvd` box) and the
  laws that locate the video in it.
- `xmp` — the XMP document: item attributes, the keyframe timestamp, merging the
  source image's own XMP.
- `muxer`, `mux_run` — muxing one pair: output paths, type checks, and the run as a
  sequence of steps, each naming the outside work (ExifTool, ffmpeg, files) it needs.
- `batch` — muxing a directory: classifying files, pairing them by name or by content
  identifier, and the batch run.
- `exiftool`, `ffmpeg`, `adb`, `cli`, `utils`, `path`, `text` — command lines and
  protocol framing, parsing of tool output, and shared text primitives.

`app/` is the `livemux` command line: it runs ExifTool, ffmpeg and adb, touches the
file system, and performs the actions the library's runs ask for.
