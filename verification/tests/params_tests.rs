use nozomi_video_streamer::params::{
    build_post_params, validate_params, PostParams, SubtitleSource,
};
use nozomi_video_streamer::command::{
    build_subtitle_convert_args, build_transcode_args, subtitle_filter, workspace_file,
};
use nozomi_video_streamer::ErrorKind;

fn s(x: &str) -> String {
    x.to_string()
}

#[test]
fn plain_request_validates() {
    let p = validate_params(&s("1M"), &None, &None, &None).unwrap();
    assert_eq!(p.bitrate, "1M");
    assert_eq!(p.start_seconds, 0);
    assert_eq!(p.subtitle, SubtitleSource::NoSubtitle);
}

#[test]
fn self_subtitle_and_start_time_validate() {
    let p = validate_params(&s("500k"), &Some(s("00:01:20")), &Some(s("self")), &None).unwrap();
    assert_eq!(p.start_seconds, 80);
    assert_eq!(p.subtitle, SubtitleSource::SelfEmbedded);
}

#[test]
fn unknown_subtitle_token_is_rejected() {
    assert_eq!(
        validate_params(&s("1M"), &None, &Some(s("sidecar")), &None),
        Err(ErrorKind::InvalidParameter)
    );
}

#[test]
fn uploaded_subtitle_payload_is_decoded() {
    // "aGVsbG8=" is the base64 encoding of "hello"
    let p = validate_params(&s("1M"), &None, &None, &Some(s("aGVsbG8="))).unwrap();
    assert_eq!(p.subtitle, SubtitleSource::Uploaded(b"hello".to_vec()));
}

#[test]
fn upload_wins_over_self_token() {
    let p = validate_params(&s("1M"), &None, &Some(s("self")), &Some(s("aGVsbG8="))).unwrap();
    assert_eq!(p.subtitle, SubtitleSource::Uploaded(b"hello".to_vec()));
}

#[test]
fn malformed_base64_is_rejected() {
    assert_eq!(
        validate_params(&s("1M"), &None, &None, &Some(s("!!not-base64!!"))),
        Err(ErrorKind::InvalidParameter)
    );
}

#[test]
fn empty_payload_is_rejected() {
    assert_eq!(
        validate_params(&s("1M"), &None, &None, &Some(s(""))),
        Err(ErrorKind::InvalidParameter)
    );
}

#[test]
fn bad_start_time_is_rejected() {
    assert_eq!(
        validate_params(&s("1M"), &Some(s("later")), &None, &None),
        Err(ErrorKind::InvalidParameter)
    );
}

#[test]
fn bad_bitrates_are_rejected() {
    assert_eq!(validate_params(&s(""), &None, &None, &None), Err(ErrorKind::InvalidParameter));
    assert_eq!(validate_params(&s("1 M"), &None, &None, &None), Err(ErrorKind::InvalidParameter));
    assert_eq!(validate_params(&s("1\tM"), &None, &None, &None), Err(ErrorKind::InvalidParameter));
    assert_eq!(validate_params(&s("1\nM"), &None, &None, &None), Err(ErrorKind::InvalidParameter));
}

#[test]
fn transcode_args_without_subtitles() {
    let args = build_transcode_args("/srv/a.mkv", "00:00:00", "1M", &None);
    assert_eq!(
        args,
        vec![
            "-ss", "00:00:00", "-i", "/srv/a.mkv", "-b:v", "1M", "-cpu-used", "-8", "-deadline",
            "realtime", "-vcodec", "libx264", "-acodec", "aac", "-framerate", "15", "-f", "flv",
            "-",
        ]
        .into_iter()
        .map(|x| x.to_string())
        .collect::<Vec<String>>()
    );
}

#[test]
fn transcode_args_with_subtitles_escape_the_filter() {
    let args = build_transcode_args("/srv/a.mkv", "00:01:20", "1M", &Some(s("/tmp/work/out.ass")));
    assert_eq!(args[0..4], ["-ss", "00:01:20", "-i", "/srv/a.mkv"].map(|x| x.to_string()));
    assert_eq!(args[4], "-vf");
    assert_eq!(args[5], "subtitles=/tmp/work/out.ass");
    assert_eq!(args[6], "-b:v");
    assert_eq!(args.len(), 21);
}

#[test]
fn subtitle_filter_escapes_the_path() {
    assert_eq!(subtitle_filter("/a/b's.ass"), r#"subtitles=/a/b\\\'s.ass"#);
}

#[test]
fn subtitle_convert_args_are_exact() {
    let args = build_subtitle_convert_args("00:00:05", "/srv/a.mkv", "/tmp/w/out.ass");
    assert_eq!(
        args,
        vec!["-ss", "00:00:05", "-i", "/srv/a.mkv", "/tmp/w/out.ass"]
            .into_iter()
            .map(|x| x.to_string())
            .collect::<Vec<String>>()
    );
}

#[test]
fn workspace_files_live_inside_the_workspace() {
    assert_eq!(workspace_file("/tmp/w", "upload.ass"), "/tmp/w/upload.ass");
}

#[test]
fn post_params_sum_format_and_encode() {
    let times = vec![s("00:00:10"), s("00:00:05")];
    let body = build_post_params(
        Some(s("self")),
        s("1M"),
        &times,
        &Some(b"hello".to_vec()),
    )
    .unwrap();
    assert_eq!(
        body,
        PostParams {
            subtitle: Some(s("self")),
            bitrate: s("1M"),
            start_time: Some(s("00:00:15")),
            upload_subtitle_file: Some(s("aGVsbG8=")),
        }
    );
}

#[test]
fn post_params_reject_a_bad_start_time() {
    let times = vec![s("bad")];
    assert_eq!(
        build_post_params(None, s("1M"), &times, &None),
        Err(ErrorKind::InvalidParameter)
    );
}
