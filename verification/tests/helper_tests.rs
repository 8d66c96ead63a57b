use nozomi_video_streamer::escape::ffmpeg_filtergraph_escaping;
use nozomi_video_streamer::timecode::{seconds_to_start_time, start_time_to_seconds, sum_start_times};
use nozomi_video_streamer::ErrorKind;

#[test]
fn test_start_time_to_seconds() {
    assert_eq!(start_time_to_seconds("00:01:20"), Ok(80));
}

#[test]
fn test_ffmpeg_filtergraph_escaping() {
    assert_eq!(
        ffmpeg_filtergraph_escaping("this is a 'string': may contain one, or more, special characters"),
        r#"this is a \\\'string\\\'\\: may contain one\, or more\, special characters"#.to_string()
    );
}

#[test]
fn escaping_leaves_plain_text_alone() {
    assert_eq!(ffmpeg_filtergraph_escaping("plain-path.mp4"), "plain-path.mp4");
    assert_eq!(ffmpeg_filtergraph_escaping(""), "");
}

#[test]
fn escaping_handles_each_special_character() {
    assert_eq!(ffmpeg_filtergraph_escaping("'"), r#"\\\'"#);
    assert_eq!(ffmpeg_filtergraph_escaping(":"), r#"\\:"#);
    assert_eq!(ffmpeg_filtergraph_escaping("\\"), r#"\\"#);
    assert_eq!(ffmpeg_filtergraph_escaping("["), r#"\["#);
    assert_eq!(ffmpeg_filtergraph_escaping("]"), r#"\]"#);
    assert_eq!(ffmpeg_filtergraph_escaping(","), r#"\,"#);
    assert_eq!(ffmpeg_filtergraph_escaping(";"), r#"\;"#);
}

#[test]
fn start_time_parses_exact_values() {
    assert_eq!(start_time_to_seconds("00:00:00"), Ok(0));
    assert_eq!(start_time_to_seconds("23:59:59"), Ok(86399));
    assert_eq!(start_time_to_seconds("01:02:03"), Ok(3723));
}

#[test]
fn start_time_rejects_malformed_tokens() {
    assert_eq!(start_time_to_seconds(""), Err(ErrorKind::InvalidParameter));
    assert_eq!(start_time_to_seconds("1:2:3"), Err(ErrorKind::InvalidParameter));
    assert_eq!(start_time_to_seconds("00-01-20"), Err(ErrorKind::InvalidParameter));
    assert_eq!(start_time_to_seconds("24:00:00"), Err(ErrorKind::InvalidParameter));
    assert_eq!(start_time_to_seconds("00:60:00"), Err(ErrorKind::InvalidParameter));
    assert_eq!(start_time_to_seconds("00:00:60"), Err(ErrorKind::InvalidParameter));
    assert_eq!(start_time_to_seconds("0a:00:00"), Err(ErrorKind::InvalidParameter));
    assert_eq!(start_time_to_seconds("00:01:200"), Err(ErrorKind::InvalidParameter));
}

#[test]
fn start_times_sum_up() {
    let times = vec!["00:00:10".to_string(), "00:00:05".to_string()];
    assert_eq!(sum_start_times(&times), Ok(15));
}

#[test]
fn start_time_sum_of_nothing_is_zero() {
    let times: Vec<String> = Vec::new();
    assert_eq!(sum_start_times(&times), Ok(0));
}

#[test]
fn start_time_sum_wraps_around_one_day() {
    let times = vec!["23:59:59".to_string(), "00:00:02".to_string()];
    assert_eq!(sum_start_times(&times), Ok(1));
}

#[test]
fn start_time_sum_rejects_one_bad_token() {
    let times = vec!["00:00:10".to_string(), "nope".to_string()];
    assert_eq!(sum_start_times(&times), Err(ErrorKind::InvalidParameter));
}

#[test]
fn error_descriptions_are_stable() {
    assert_eq!(ErrorKind::InvalidPath.describe(), "invalid path");
    assert_eq!(ErrorKind::NotFound.describe(), "not found");
    assert_eq!(ErrorKind::SubtitleConversionFailed.describe(), "subtitle conversion failed");
    assert_eq!(ErrorKind::ClientDisconnected.describe(), "client disconnected");
}

#[test]
fn formatting_round_trips() {
    assert_eq!(seconds_to_start_time(80), "00:01:20");
    assert_eq!(seconds_to_start_time(0), "00:00:00");
    assert_eq!(seconds_to_start_time(86399), "23:59:59");
    assert_eq!(start_time_to_seconds(&seconds_to_start_time(3723)), Ok(3723));
}
