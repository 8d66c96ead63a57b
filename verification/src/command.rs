//! Construction of the external encoder's argument vectors. The encoder
//! is always invoked with a fixed argument vector, never through a shell,
//! so the only string that needs escaping is the filter-graph expression.
use vstd::prelude::*;
use crate::escape::{escape_spec, ffmpeg_filtergraph_escaping};
use crate::strutil::str_views;

verus! {

/// The filter-graph argument burning a subtitle file into the video:
/// `subtitles=<path>`, escaped as a whole.
pub open spec fn subtitle_filter_spec(sub_path: Seq<char>) -> Seq<char> {
    escape_spec("subtitles="@ + sub_path)
}

/// The argument vector of the transcode process: an optional seek, the
/// source file, an optional subtitle burn-in filter, the requested
/// bitrate, fixed low-latency options, and a fixed container written to
/// standard output.
pub open spec fn transcode_args_spec(
    src: Seq<char>,
    start_time: Seq<char>,
    bitrate: Seq<char>,
    sub_path: Option<Seq<char>>,
) -> Seq<Seq<char>> {
    let head = seq!["-ss"@, start_time, "-i"@, src];
    let filter = match sub_path {
        Option::None => Seq::<Seq<char>>::empty(),
        Option::Some(p) => seq!["-vf"@, subtitle_filter_spec(p)],
    };
    let tail = seq![
        "-b:v"@,
        bitrate,
        "-cpu-used"@,
        "-8"@,
        "-deadline"@,
        "realtime"@,
        "-vcodec"@,
        "libx264"@,
        "-acodec"@,
        "aac"@,
        "-framerate"@,
        "15"@,
        "-f"@,
        "flv"@,
        "-"@,
    ];
    head + filter + tail
}

/// The argument vector of the subtitle conversion process: seek into the
/// subtitle source and write the converted file into the workspace.
pub open spec fn subtitle_convert_args_spec(
    start_time: Seq<char>,
    sub_input: Seq<char>,
    output: Seq<char>,
) -> Seq<Seq<char>> {
    seq!["-ss"@, start_time, "-i"@, sub_input, output]
}

/// Build the subtitle burn-in filter argument for a converted subtitle
/// file at the given path.
pub fn subtitle_filter(sub_path: &str) -> (r: String)
    ensures
        r@ == subtitle_filter_spec(sub_path@),
{
    let mut expr: String = "subtitles=".to_owned();
    expr.append(sub_path);
    ffmpeg_filtergraph_escaping(expr.as_str())
}

/// Build the transcode argument vector. `sub_path`, when present, is the
/// path of the converted subtitle file to burn in.
pub fn build_transcode_args(
    source_path: &str,
    start_time: &str,
    bitrate: &str,
    sub_path: &Option<String>,
) -> (r: Vec<String>)
    ensures
        str_views(r@) == transcode_args_spec(
            source_path@,
            start_time@,
            bitrate@,
            crate::params::opt_view(*sub_path),
        ),
{
    let mut r: Vec<String> = Vec::new();
    r.push("-ss".to_owned());
    r.push(start_time.to_owned());
    r.push("-i".to_owned());
    r.push(source_path.to_owned());
    if let Some(p) = sub_path {
        r.push("-vf".to_owned());
        r.push(subtitle_filter(p.as_str()));
    }
    r.push("-b:v".to_owned());
    r.push(bitrate.to_owned());
    r.push("-cpu-used".to_owned());
    r.push("-8".to_owned());
    r.push("-deadline".to_owned());
    r.push("realtime".to_owned());
    r.push("-vcodec".to_owned());
    r.push("libx264".to_owned());
    r.push("-acodec".to_owned());
    r.push("aac".to_owned());
    r.push("-framerate".to_owned());
    r.push("15".to_owned());
    r.push("-f".to_owned());
    r.push("flv".to_owned());
    r.push("-".to_owned());
    proof {
        assert(str_views(r@) =~= transcode_args_spec(
            source_path@,
            start_time@,
            bitrate@,
            crate::params::opt_view(*sub_path),
        ));
    }
    r
}

/// Build the argument vector converting a subtitle source into a
/// normalized subtitle file inside the workspace.
pub fn build_subtitle_convert_args(start_time: &str, sub_input: &str, output: &str) -> (r: Vec<
    String,
>)
    ensures
        str_views(r@) == subtitle_convert_args_spec(start_time@, sub_input@, output@),
{
    let mut r: Vec<String> = Vec::new();
    r.push("-ss".to_owned());
    r.push(start_time.to_owned());
    r.push("-i".to_owned());
    r.push(sub_input.to_owned());
    r.push(output.to_owned());
    proof {
        assert(str_views(r@) =~= subtitle_convert_args_spec(start_time@, sub_input@, output@));
    }
    r
}

/// The path of a file inside the request's workspace directory.
pub fn workspace_file(workspace: &str, name: &str) -> (r: String)
    ensures
        r@ == workspace@ + seq!['/'] + name@,
{
    let mut r: String = workspace.to_owned();
    r.append("/");
    r.append(name);
    proof {
        reveal_strlit("/");
        assert("/"@ =~= seq!['/']);
        assert(r@ =~= workspace@ + seq!['/'] + name@);
    }
    r
}

} // verus!
