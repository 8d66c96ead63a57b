//! Validation of transcode parameters: the bitrate token, the start-time
//! offset, and the subtitle mode, including decoding of an uploaded
//! subtitle payload.
use vstd::prelude::*;
use crate::ErrorKind;
use crate::strutil::str_views;
use crate::timecode::{
    hms_sum, hms_value, seconds_to_start_time, start_time_to_seconds, sum_start_times, valid_hms,
    SECONDS_PER_DAY,
};

verus! {

/// What base64 decoding with the standard alphabet makes of a string;
/// absent exactly when the string is not well-formed base64.
pub uninterp spec fn base64_decode_spec(s: Seq<char>) -> Option<Seq<u8>>;

/// The base64 encoding of a byte string, standard alphabet with padding.
pub uninterp spec fn base64_encode_spec(b: Seq<u8>) -> Seq<char>;

/// Relies on base64's `Engine::decode` with the standard engine: returns
/// the decoded bytes for well-formed input and an error otherwise.
#[verifier::external_body]
fn base64_decode(s: &str) -> (r: Option<Vec<u8>>)
    ensures
        r is Some <==> base64_decode_spec(s@) is Some,
        r matches Some(b) ==> Some(b@) == base64_decode_spec(s@),
{
    match base64::Engine::decode(&base64::engine::general_purpose::STANDARD, s) {
        Ok(bytes) => Some(bytes),
        Err(_) => None,
    }
}

/// Relies on base64's `Engine::encode` with the standard engine: the
/// encoding depends on the bytes alone, and decoding it gives the bytes
/// back.
#[verifier::external_body]
pub fn base64_encode(b: &Vec<u8>) -> (r: String)
    ensures
        r@ == base64_encode_spec(b@),
        base64_decode_spec(r@) == Some(b@),
{
    base64::Engine::encode(&base64::engine::general_purpose::STANDARD, b.as_slice())
}

/// A character that a bitrate token may not contain: whitespace or a
/// control character.
pub open spec fn forbidden_bitrate_char(c: char) -> bool {
    c == ' ' || (c as int) < 32 || (c as int) == 127
}

/// A bitrate token is forwarded to the encoder verbatim; it only has to be
/// non-empty and free of whitespace and control characters.
pub open spec fn valid_bitrate(s: Seq<char>) -> bool {
    s.len() > 0 && (forall|i: int| 0 <= i < s.len() ==> !forbidden_bitrate_char(#[trigger] s[i]))
}

fn check_bitrate(s: &str) -> (r: bool)
    ensures
        r == valid_bitrate(s@),
{
    let n = s.unicode_len();
    if n == 0 {
        return false;
    }
    let mut i: usize = 0;
    while i < n
        invariant
            n == s@.len(),
            i <= n,
            forall|j: int| 0 <= j < i ==> !forbidden_bitrate_char(#[trigger] s@[j]),
        decreases n - i,
    {
        let c = s.get_char(i);
        let u = c as u32;
        if c == ' ' || u < 32 || u == 127 {
            return false;
        }
        i = i + 1;
    }
    true
}

/// Where the subtitles burnt into the output come from. The three cases
/// are mutually exclusive by construction: none, the source file's own
/// track, or an uploaded payload that decoded to non-empty bytes.
#[derive(Clone, Debug, PartialEq, Eq)]
pub enum SubtitleSource {
    NoSubtitle,
    SelfEmbedded,
    Uploaded(Vec<u8>),
}

/// Validated transcode parameters, ready for argument construction.
#[derive(Clone, Debug, PartialEq, Eq)]
pub struct TranscodeParams {
    pub bitrate: String,
    pub start_seconds: u32,
    pub subtitle: SubtitleSource,
}

impl TranscodeParams {
    /// The invariant validation establishes: a well-formed bitrate, a
    /// start offset within one day, and a non-empty payload if one was
    /// uploaded.
    pub open spec fn wf(self) -> bool {
        &&& valid_bitrate(self.bitrate@)
        &&& self.start_seconds < SECONDS_PER_DAY
        &&& (self.subtitle matches SubtitleSource::Uploaded(b) ==> b@.len() > 0)
    }
}

/// The view of an optional string.
pub open spec fn opt_view(o: Option<String>) -> Option<Seq<char>> {
    match o {
        Option::None => Option::None,
        Option::Some(s) => Option::Some(s@),
    }
}

/// The subtitle token is acceptable: absent, or exactly `self`.
pub open spec fn subtitle_token_ok(sub: Option<Seq<char>>) -> bool {
    sub matches Some(t) ==> t == "self"@
}

/// The uploaded payload is acceptable: absent, or base64 that decodes to
/// non-empty bytes.
pub open spec fn upload_ok(up: Option<Seq<char>>) -> bool {
    up matches Some(u) ==> (base64_decode_spec(u) matches Some(b) && b.len() > 0)
}

/// The start-time token is acceptable: absent, or a well-formed `HH:MM:SS`.
pub open spec fn start_time_ok(st: Option<Seq<char>>) -> bool {
    st matches Some(t) ==> valid_hms(t)
}

/// The start offset the request denotes: zero when absent.
pub open spec fn start_seconds_of(st: Option<Seq<char>>) -> int {
    match st {
        Option::None => 0,
        Option::Some(t) => hms_value(t),
    }
}

/// The subtitle source the request denotes: an upload wins over the
/// `self` token, which wins over nothing.
pub open spec fn subtitle_source_ok(
    sub: Option<Seq<char>>,
    up: Option<Seq<char>>,
    chosen: SubtitleSource,
) -> bool {
    match up {
        Option::Some(u) => chosen matches SubtitleSource::Uploaded(b) && Some(b@)
            == base64_decode_spec(u),
        Option::None => match sub {
            Option::Some(_) => chosen == SubtitleSource::SelfEmbedded,
            Option::None => chosen == SubtitleSource::NoSubtitle,
        },
    }
}

/// Parse and validate the parameters of a transcode request. Every way a
/// request can be malformed — a subtitle token other than `self`, a
/// payload that is not base64 or decodes to nothing, a bad start time, a
/// bad bitrate — is rejected as `InvalidParameter`.
pub fn validate_params(
    bitrate: &String,
    start_time: &Option<String>,
    subtitle: &Option<String>,
    upload_subtitle: &Option<String>,
) -> (r: Result<TranscodeParams, ErrorKind>)
    ensures
        r is Ok <==> subtitle_token_ok(opt_view(*subtitle)) && upload_ok(
            opt_view(*upload_subtitle),
        ) && start_time_ok(opt_view(*start_time)) && valid_bitrate(bitrate@),
        r matches Ok(p) ==> {
            &&& p.wf()
            &&& p.bitrate@ == bitrate@
            &&& p.start_seconds == start_seconds_of(opt_view(*start_time))
            &&& subtitle_source_ok(opt_view(*subtitle), opt_view(*upload_subtitle), p.subtitle)
        },
        r matches Err(e) ==> e == ErrorKind::InvalidParameter,
{
    if let Some(token) = subtitle {
        let self_token: String = "self".to_owned();
        if !(*token == self_token) {
            return Err(ErrorKind::InvalidParameter);
        }
    }
    let chosen: SubtitleSource = match upload_subtitle {
        Some(payload) => {
            match base64_decode(payload.as_str()) {
                Some(bytes) => {
                    if bytes.len() == 0 {
                        return Err(ErrorKind::InvalidParameter);
                    }
                    SubtitleSource::Uploaded(bytes)
                },
                Option::None => {
                    return Err(ErrorKind::InvalidParameter);
                },
            }
        },
        Option::None => match subtitle {
            Some(_) => SubtitleSource::SelfEmbedded,
            Option::None => SubtitleSource::NoSubtitle,
        },
    };
    let start_seconds: u32 = match start_time {
        Some(t) => {
            match start_time_to_seconds(t.as_str()) {
                Ok(v) => v,
                Err(_) => {
                    return Err(ErrorKind::InvalidParameter);
                },
            }
        },
        Option::None => 0,
    };
    if !check_bitrate(bitrate.as_str()) {
        return Err(ErrorKind::InvalidParameter);
    }
    Ok(TranscodeParams { bitrate: bitrate.clone(), start_seconds, subtitle: chosen })
}

impl TranscodeParams {
    /// Whether this request needs the subtitle preprocessing step — and
    /// with it a workspace — before the transcoder may start.
    pub fn needs_subtitle(&self) -> (r: bool)
        ensures
            r == !(self.subtitle matches SubtitleSource::NoSubtitle),
    {
        match self.subtitle {
            SubtitleSource::NoSubtitle => false,
            _ => true,
        }
    }
}

/// The body of a transcode request as the command-line client sends it:
/// the subtitle token and bitrate as given, the summed start times
/// formatted back into one token, and the local subtitle file encoded as
/// base64.
#[derive(Clone, Debug, PartialEq, Eq)]
pub struct PostParams {
    pub subtitle: Option<String>,
    pub bitrate: String,
    pub start_time: Option<String>,
    pub upload_subtitle_file: Option<String>,
}

/// Build the request body the command-line client posts. The start times
/// are summed (wrapping around one day) and formatted back into a single
/// token; the subtitle file's bytes, when given, are base64-encoded.
pub fn build_post_params(
    subtitle: Option<String>,
    bitrate: String,
    start_times: &Vec<String>,
    sub_file: &Option<Vec<u8>>,
) -> (r: Result<PostParams, ErrorKind>)
    ensures
        r is Ok <==> (forall|i: int| 0 <= i < start_times@.len() ==> valid_hms(start_times@[i]@)),
        r matches Err(e) ==> e == ErrorKind::InvalidParameter,
        r matches Ok(p) ==> {
            &&& p.subtitle == subtitle
            &&& p.bitrate == bitrate
            &&& (p.start_time matches Some(t) && valid_hms(t@) && hms_value(t@) == hms_sum(
                str_views(start_times@),
            ) % (SECONDS_PER_DAY as int))
            &&& (match *sub_file {
                Option::Some(bytes) => p.upload_subtitle_file matches Some(enc) && enc@
                    == base64_encode_spec(bytes@),
                Option::None => p.upload_subtitle_file is None,
            })
        },
{
    let total = match sum_start_times(start_times) {
        Ok(v) => v,
        Err(_) => {
            return Err(ErrorKind::InvalidParameter);
        },
    };
    let formatted = seconds_to_start_time(total);
    let upload = match sub_file {
        Some(bytes) => Some(base64_encode(bytes)),
        Option::None => Option::None,
    };
    Ok(
        PostParams {
            subtitle,
            bitrate,
            start_time: Some(formatted),
            upload_subtitle_file: upload,
        },
    )
}

} // verus!
