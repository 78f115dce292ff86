//! The bundled FFmpeg tools: where they live, the command lines the player
//! runs them with, and how their results are judged.
use crate::engine::Platform;
use crate::metadata::MusicMetadata;
use crate::paths::{file_name_of, parent_of, same_path};
use crate::text::{decimal, decimal_of};
use std::path::Path;
use vstd::prelude::*;
use vstd::string::*;

verus! {

/// Name for what std's `Path::join` gives for two paths given as text,
/// converted back to text.
pub uninterp spec fn joined(base: Seq<char>, part: Seq<char>) -> Seq<char>;

/// Name for what std's `Path::file_stem` followed by `OsStr::to_str` gives
/// for a path given as text: its file name without the extension.
pub uninterp spec fn file_stem_of(path: Seq<char>) -> Option<Seq<char>>;

/// A path made of one plain component: not empty, without a separator or a
/// drive colon, and neither `.` nor `..`.
pub open spec fn single_component(part: Seq<char>) -> bool {
    &&& part.len() > 0
    &&& forall|i: int| 0 <= i < part.len() ==> #[trigger] part[i] != '/' && part[i] != '\\' && part[i] != ':'
    &&& !(part.len() <= 2 && forall|i: int| 0 <= i < part.len() ==> #[trigger] part[i] == '.')
}

/// `base` joined with `part` by std's `Path::join`.
/// Trusted: the result is `joined(base, part)`; when `part` is one plain
/// component, it is the last component of the result, and the result without
/// it is, component by component, `base` (`Path::join` extends `base` with
/// `part`; `Path::file_name` gives the final component and `Path::parent`
/// the path without it, as the text that comes before that component). So
/// joining `base` with any other plain component has the same parent text.
/// What that text is, beyond being `base` as a path, is left unsaid.
#[verifier::external_body]
fn path_join(base: &str, part: &str) -> (r: String)
    ensures
        r@ == joined(base@, part@),
        single_component(part@) ==> file_name_of(r@) == Some(part@),
        single_component(part@) ==> parent_of(r@) is Some && same_path(parent_of(r@).unwrap(), base@),
        forall|other: Seq<char>|
            single_component(part@) && single_component(other) ==> parent_of(r@) == parent_of(
                #[trigger] joined(base@, other),
            ),
{
    Path::new(base).join(part).to_string_lossy().into_owned()
}

/// The file name of `path` without its extension (std's `Path::file_stem`).
/// Trusted: the result is `file_stem_of(path)`.
#[verifier::external_body]
fn path_file_stem(path: &str) -> (r: Option<String>)
    ensures
        match r {
            Some(s) => file_stem_of(path@) == Some(s@),
            None => file_stem_of(path@) is None,
        },
{
    match Path::new(path).file_stem().and_then(|s| s.to_str()) {
        Some(s) => Some(s.to_string()),
        None => None,
    }
}

/// The owned copies of some texts, in order.
fn owned_all(parts: &[&str]) -> (r: Vec<String>)
    ensures
        r@.map_values(|s: String| s@) == parts@.map_values(|p: &str| p@),
{
    let mut out: Vec<String> = Vec::new();
    let mut i: usize = 0;
    while i < parts.len()
        invariant
            i <= parts.len(),
            out@.map_values(|s: String| s@) == parts@.take(i as int).map_values(|p: &str| p@),
        decreases parts.len() - i,
    {
        out.push(String::from_str(parts[i]));
        assert(parts@.take(i + 1).map_values(|p: &str| p@) =~= parts@.take(i as int).map_values(
            |p: &str| p@,
        ).push(parts@[i as int]@));
        assert(out@.map_values(|s: String| s@) =~= parts@.take(i + 1).map_values(|p: &str| p@));
        i = i + 1;
    }
    assert(parts@.take(parts.len() as int) =~= parts@);
    out
}

/// The locations of the two tools.
pub struct ToolPaths {
    pub ffmpeg: String,
    pub ffprobe: String,
}

/// The directory that holds the tools, under the application's data
/// directory on Linux (where they are copied to be made executable) and
/// under its resource directory elsewhere.
pub open spec fn tools_dir(base: Seq<char>, platform: Platform) -> Seq<char> {
    if platform == Platform::Linux {
        joined(base, "bin"@)
    } else {
        joined(base, "libs/ffmpeg/bin"@)
    }
}

impl MusicMetadata {
    /// Where the tools are, for the given base directory (the application's
    /// data directory on Linux, its resource directory elsewhere).
    pub fn tool_paths(base: &str, platform: Platform) -> (r: ToolPaths)
        ensures
            r.ffmpeg@ == joined(tools_dir(base@, platform), "ffmpeg"@),
            r.ffprobe@ == joined(tools_dir(base@, platform), "ffprobe"@),
            file_name_of(r.ffmpeg@) == Some("ffmpeg"@),
            file_name_of(r.ffprobe@) == Some("ffprobe"@),
            // Both tools sit in the tools directory.
            parent_of(r.ffmpeg@) matches Some(a) && same_path(a, tools_dir(base@, platform)),
            parent_of(r.ffprobe@) matches Some(b) && same_path(b, tools_dir(base@, platform)),
            parent_of(r.ffmpeg@) == parent_of(r.ffprobe@),
    {
        let dir = if platform == Platform::Linux {
            path_join(base, "bin")
        } else {
            path_join(base, "libs/ffmpeg/bin")
        };
        proof {
            reveal_strlit("ffmpeg");
            reveal_strlit("ffprobe");
            assert("ffmpeg"@.len() == 6);
            assert("ffprobe"@.len() == 7);
        }
        ToolPaths { ffmpeg: path_join(dir.as_str(), "ffmpeg"), ffprobe: path_join(dir.as_str(), "ffprobe") }
    }

    /// The location of `ffmpeg`.
    pub fn ffmpeg_path(tools: &ToolPaths) -> (r: &str)
        ensures
            r@ == tools.ffmpeg@,
    {
        tools.ffmpeg.as_str()
    }

    /// The location of `ffprobe`.
    pub fn ffprobe_path(tools: &ToolPaths) -> (r: &str)
        ensures
            r@ == tools.ffprobe@,
    {
        tools.ffprobe.as_str()
    }
}

/// The arguments of `ffprobe` that report a file's tags and streams as JSON.
pub open spec fn probe_args_of(path: Seq<char>) -> Seq<Seq<char>> {
    seq![
        "-v"@,
        "quiet"@,
        "-print_format"@,
        "json"@,
        "-show_format"@,
        "-show_streams"@,
        path,
    ]
}

/// The arguments of `ffprobe` for the metadata of `path`.
pub fn probe_args(path: &str) -> (r: Vec<String>)
    ensures
        r@.map_values(|s: String| s@) == probe_args_of(path@),
{
    let parts: [&str; 7] = ["-v", "quiet", "-print_format", "json", "-show_format", "-show_streams", path];
    owned_all(&parts)
}

/// The arguments of `ffmpeg` that convert `source` to 16-bit stereo PCM WAV
/// at 44.1 kHz in `output`, overwriting it.
pub open spec fn pcm_wav_args_of(source: Seq<char>, output: Seq<char>) -> Seq<Seq<char>> {
    seq![
        "-y"@,
        "-i"@,
        source,
        "-vn"@,
        "-acodec"@,
        "pcm_s16le"@,
        "-ar"@,
        "44100"@,
        "-ac"@,
        "2"@,
        "-f"@,
        "wav"@,
        output,
    ]
}

/// The arguments of the WAV conversion of `source` into `output`.
pub fn pcm_wav_args(source: &str, output: &str) -> (r: Vec<String>)
    ensures
        r@.map_values(|s: String| s@) == pcm_wav_args_of(source@, output@),
{
    let parts: [&str; 13] = [
        "-y",
        "-i",
        source,
        "-vn",
        "-acodec",
        "pcm_s16le",
        "-ar",
        "44100",
        "-ac",
        "2",
        "-f",
        "wav",
        output,
    ];
    owned_all(&parts)
}

/// The file name of the WAV conversion of `source`: its stem (or `audio`)
/// followed by `_converted.wav`.
pub open spec fn converted_wav_name_of(source: Seq<char>) -> Seq<char> {
    match file_stem_of(source) {
        Some(stem) => stem + "_converted.wav"@,
        None => "audio"@ + "_converted.wav"@,
    }
}

/// The file name of the WAV conversion of `source`.
pub fn converted_wav_name(source: &str) -> (r: String)
    ensures
        r@ == converted_wav_name_of(source@),
{
    let mut name = match path_file_stem(source) {
        Some(stem) => stem,
        None => String::from_str("audio"),
    };
    name.append("_converted.wav");
    name
}

/// The arguments of `ffmpeg` that turn `input` into a mono 44.1 kHz MP3 in
/// `output` for the visualizer; on Android the input is quoted and the
/// output is not forced over an existing file.
pub open spec fn visualizer_args_of(input: Seq<char>, output: Seq<char>, platform: Platform) -> Seq<
    Seq<char>,
> {
    let rest = seq![
        "-ac"@,
        "1"@,
        "-ar"@,
        "44100"@,
        "-b:a"@,
        "192k"@,
        "-q:a"@,
        "5"@,
        "-map"@,
        "0:a"@,
        output,
    ];
    if platform == Platform::Android {
        seq!["-i"@, "\""@ + input + "\""@] + rest
    } else {
        seq!["-y"@, "-i"@, input] + rest
    }
}

/// The arguments of the visualizer's conversion.
pub fn visualizer_args(input: &str, output: &str, platform: Platform) -> (r: Vec<String>)
    ensures
        r@.map_values(|s: String| s@) == visualizer_args_of(input@, output@, platform),
{
    let rest: [&str; 11] = ["-ac", "1", "-ar", "44100", "-b:a", "192k", "-q:a", "5", "-map", "0:a", output];
    let mut out: Vec<String> = Vec::new();
    if platform == Platform::Android {
        out.push(String::from_str("-i"));
        let mut quoted = String::from_str("\"");
        quoted.append(input);
        quoted.append("\"");
        out.push(quoted);
    } else {
        out.push(String::from_str("-y"));
        out.push(String::from_str("-i"));
        out.push(String::from_str(input));
    }
    let ghost head = out@.map_values(|s: String| s@);
    let mut tail = owned_all(&rest);
    out.append(&mut tail);
    proof {
        assert(rest@.map_values(|p: &str| p@) =~= seq![
            "-ac"@,
            "1"@,
            "-ar"@,
            "44100"@,
            "-b:a"@,
            "192k"@,
            "-q:a"@,
            "5"@,
            "-map"@,
            "0:a"@,
            output@,
        ]);
    }
    assert(out@.map_values(|s: String| s@) =~= visualizer_args_of(input@, output@, platform));
    out
}

/// The name of the visualizer's temporary file: `converted_` and a number
/// that tells conversions apart (the time in milliseconds), then `.mp3`.
pub fn visualizer_file_name(unique: u64) -> (r: String)
    ensures
        r@ == "converted_"@ + decimal_of(unique as nat) + ".mp3"@,
{
    let mut name = String::from_str("converted_");
    let n = decimal(unique);
    name.append(n.as_str());
    name.append(".mp3");
    name
}

/// The arguments of `ffprobe` that tell whether `path` holds a picture stream.
pub open spec fn cover_probe_args_of(path: Seq<char>) -> Seq<Seq<char>> {
    seq![
        "-v"@,
        "quiet"@,
        "-select_streams"@,
        "v:0"@,
        "-show_entries"@,
        "stream=codec_type"@,
        "-of"@,
        "default=noprint_wrappers=1:nokey=1"@,
        path,
    ]
}

/// The probe for a cover picture.
pub fn cover_probe_args(path: &str) -> (r: Vec<String>)
    ensures
        r@.map_values(|s: String| s@) == cover_probe_args_of(path@),
{
    let parts: [&str; 9] = [
        "-v",
        "quiet",
        "-select_streams",
        "v:0",
        "-show_entries",
        "stream=codec_type",
        "-of",
        "default=noprint_wrappers=1:nokey=1",
        path,
    ];
    owned_all(&parts)
}

/// The arguments of `ffmpeg` that write the first frame of `path`'s picture
/// stream to standard output, copied as it is or encoded with `codec`.
pub open spec fn cover_extract_args_of(path: Seq<char>, codec: Seq<char>) -> Seq<Seq<char>> {
    seq!["-i"@, path, "-an"@, "-c:v"@, codec, "-vframes"@, "1"@, "-f"@, "image2pipe"@, "-"@]
}

/// The extraction of a cover picture: first with `copy`, then with `bmp`.
pub fn cover_extract_args(path: &str, reencode: bool) -> (r: Vec<String>)
    ensures
        r@.map_values(|s: String| s@) == cover_extract_args_of(
            path@,
            if reencode {
                "bmp"@
            } else {
                "copy"@
            },
        ),
{
    let codec = if reencode {
        "bmp"
    } else {
        "copy"
    };
    let parts: [&str; 10] = ["-i", path, "-an", "-c:v", codec, "-vframes", "1", "-f", "image2pipe", "-"];
    owned_all(&parts)
}

/// What the probe tells: a file whose probe failed or wrote nothing holds
/// no picture stream, so it has no cover.
pub fn cover_probe_verdict(path: &str, succeeded: bool, printed: bool) -> (r: Result<(), String>)
    ensures
        r is Ok <==> succeeded && printed,
        r matches Err(e) ==> e@ == "No cover art in file "@ + path@,
{
    if !printed || !succeeded {
        let mut e = String::from_str("No cover art in file ");
        e.append(path);
        return Err(e);
    }
    Ok(())
}

/// Whether the copied picture can be used: the copy succeeded and wrote something.
pub fn cover_copy_usable(succeeded: bool, printed: bool) -> (r: bool)
    ensures
        r == (succeeded && printed),
{
    succeeded && printed
}

/// The verdict on the re-encoded picture: a failure reports `ffmpeg`'s
/// error output, an empty output means there is no cover.
pub fn cover_reencode_verdict(path: &str, succeeded: bool, printed: bool, errors: &str) -> (r: Result<
    (),
    String,
>)
    ensures
        r is Ok <==> succeeded && printed,
        !succeeded ==> (r matches Err(e) && e@ == "Failed to extract cover art "@ + path@ + " : "@
            + errors@),
        succeeded && !printed ==> (r matches Err(e) && e@ == "No cover art in file: "@ + path@),
{
    if !succeeded {
        let mut e = String::from_str("Failed to extract cover art ");
        e.append(path);
        e.append(" : ");
        e.append(errors);
        return Err(e);
    }
    if !printed {
        let mut e = String::from_str("No cover art in file: ");
        e.append(path);
        return Err(e);
    }
    Ok(())
}

} // verus!
