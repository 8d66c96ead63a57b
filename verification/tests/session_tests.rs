use nozomi_video_streamer::session::{Action, Event, Phase, Session};
use nozomi_video_streamer::ErrorKind;

#[test]
fn plain_request_runs_to_done() {
    let mut s = Session::new(false);
    assert_eq!(s.phase, Phase::Validating);
    assert_eq!(s.step(Event::ParamsAccepted), Vec::<Action>::new());
    assert_eq!(s.phase, Phase::ResolvingPath);
    assert_eq!(s.step(Event::PathAccepted), vec![Action::SpawnTranscoder]);
    assert_eq!(s.phase, Phase::Transcoding);
    assert_eq!(s.step(Event::TranscoderSpawned), Vec::<Action>::new());
    assert_eq!(s.phase, Phase::Streaming);
    assert_eq!(s.step(Event::ChunkProduced), vec![Action::ForwardChunk]);
    assert_eq!(s.step(Event::ChunkProduced), vec![Action::ForwardChunk]);
    assert_eq!(s.step(Event::EncoderExited(true)), Vec::<Action>::new());
    assert_eq!(s.phase, Phase::Done);
    assert!(!s.encoder_running);
    assert!(!s.workspace_active);
}

#[test]
fn subtitle_request_converts_before_transcoding() {
    let mut s = Session::new(true);
    s.step(Event::ParamsAccepted);
    assert_eq!(
        s.step(Event::PathAccepted),
        vec![Action::CreateWorkspace, Action::RunSubtitleConversion]
    );
    assert_eq!(s.phase, Phase::PreprocessingSubtitle);
    assert!(s.workspace_active);
    assert_eq!(s.step(Event::SubtitleConverted), vec![Action::SpawnTranscoder]);
    assert_eq!(s.phase, Phase::Transcoding);
    s.step(Event::TranscoderSpawned);
    assert_eq!(
        s.step(Event::EncoderExited(true)),
        vec![Action::RemoveWorkspace]
    );
    assert_eq!(s.phase, Phase::Done);
    assert!(!s.workspace_active);
}

#[test]
fn subtitle_failure_short_circuits() {
    let mut s = Session::new(true);
    s.step(Event::ParamsAccepted);
    s.step(Event::PathAccepted);
    let acts = s.step(Event::SubtitleFailed);
    assert_eq!(
        acts,
        vec![
            Action::RemoveWorkspace,
            Action::ReportError(ErrorKind::SubtitleConversionFailed),
        ]
    );
    assert_eq!(s.phase, Phase::Failed(ErrorKind::SubtitleConversionFailed));
    // the transcoder was never asked for and nothing was sent
    assert!(!s.spawn_requested);
    assert!(!s.response_started);
    assert!(!s.workspace_active);
    // and nothing later changes that: the failure is absorbing
    assert_eq!(s.step(Event::SubtitleConverted), Vec::<Action>::new());
    assert_eq!(s.step(Event::TranscoderSpawned), Vec::<Action>::new());
    assert_eq!(s.step(Event::ChunkProduced), Vec::<Action>::new());
    assert!(!s.spawn_requested);
    assert_eq!(s.phase, Phase::Failed(ErrorKind::SubtitleConversionFailed));
}

#[test]
fn cleanup_on_disconnect() {
    let mut s = Session::new(true);
    s.step(Event::ParamsAccepted);
    s.step(Event::PathAccepted);
    s.step(Event::SubtitleConverted);
    s.step(Event::TranscoderSpawned);
    s.step(Event::ChunkProduced);
    assert!(s.encoder_running && s.workspace_active);
    let acts = s.step(Event::ConsumerGone);
    assert_eq!(acts, vec![Action::KillTranscoder, Action::RemoveWorkspace]);
    assert_eq!(s.phase, Phase::Failed(ErrorKind::ClientDisconnected));
    assert!(!s.encoder_running);
    assert!(!s.workspace_active);
    // nothing is held or asked for afterwards
    assert_eq!(s.step(Event::ChunkProduced), Vec::<Action>::new());
    assert_eq!(s.step(Event::EncoderExited(false)), Vec::<Action>::new());
    assert!(!s.encoder_running && !s.workspace_active);
}

#[test]
fn disconnect_without_workspace_only_kills_the_encoder() {
    let mut s = Session::new(false);
    s.step(Event::ParamsAccepted);
    s.step(Event::PathAccepted);
    s.step(Event::TranscoderSpawned);
    let acts = s.step(Event::ConsumerGone);
    assert_eq!(acts, vec![Action::KillTranscoder]);
    assert!(!s.encoder_running && !s.workspace_active);
}

#[test]
fn validation_failure_reports_cleanly() {
    let mut s = Session::new(false);
    let acts = s.step(Event::ParamsRejected(ErrorKind::InvalidParameter));
    assert_eq!(acts, vec![Action::ReportError(ErrorKind::InvalidParameter)]);
    assert_eq!(s.phase, Phase::Failed(ErrorKind::InvalidParameter));
}

#[test]
fn path_failure_reports_cleanly() {
    let mut s = Session::new(false);
    s.step(Event::ParamsAccepted);
    let acts = s.step(Event::PathRejected(ErrorKind::NotFound));
    assert_eq!(acts, vec![Action::ReportError(ErrorKind::NotFound)]);
    assert_eq!(s.phase, Phase::Failed(ErrorKind::NotFound));
}

#[test]
fn spawn_failure_cleans_up_the_workspace() {
    let mut s = Session::new(true);
    s.step(Event::ParamsAccepted);
    s.step(Event::PathAccepted);
    s.step(Event::SubtitleConverted);
    let acts = s.step(Event::TranscoderSpawnFailed);
    assert_eq!(
        acts,
        vec![
            Action::RemoveWorkspace,
            Action::ReportError(ErrorKind::ProcessSpawnFailed),
        ]
    );
    assert_eq!(s.phase, Phase::Failed(ErrorKind::ProcessSpawnFailed));
    assert!(!s.workspace_active);
}

#[test]
fn runtime_failure_mid_stream_is_logged_not_reported() {
    let mut s = Session::new(false);
    s.step(Event::ParamsAccepted);
    s.step(Event::PathAccepted);
    s.step(Event::TranscoderSpawned);
    s.step(Event::ChunkProduced);
    let acts = s.step(Event::EncoderExited(false));
    assert_eq!(acts, vec![Action::LogRuntimeFailure]);
    assert_eq!(s.phase, Phase::Failed(ErrorKind::ProcessRuntimeFailed));
    assert!(!s.encoder_running);
}
