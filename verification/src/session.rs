//! The per-request orchestration state machine.
//!
//! One session runs `Validating → ResolvingPath → (PreprocessingSubtitle)?
//! → Transcoding → Streaming → Done`, with `Failed(kind)` reachable from
//! every non-terminal phase. The machine only decides; the surrounding
//! I/O layer performs each emitted action and reports the outcome back as
//! the next event. The session tracks which resources — the workspace
//! directory and the encoder subprocess — are currently held, and the
//! invariant guarantees that a terminal session holds none.
use vstd::prelude::*;
use crate::ErrorKind;

verus! {

/// The phases of one transcode request, in the order they are entered.
#[derive(Clone, Copy, Debug, PartialEq, Eq, Structural)]
pub enum Phase {
    Validating,
    ResolvingPath,
    PreprocessingSubtitle,
    Transcoding,
    Streaming,
    Done,
    Failed(ErrorKind),
}

/// What the I/O layer reports back to the machine.
#[derive(Clone, Copy, Debug, PartialEq, Eq, Structural)]
pub enum Event {
    ParamsAccepted,
    ParamsRejected(ErrorKind),
    PathAccepted,
    PathRejected(ErrorKind),
    SubtitleConverted,
    SubtitleFailed,
    TranscoderSpawned,
    TranscoderSpawnFailed,
    ChunkProduced,
    EncoderExited(bool),
    ConsumerGone,
}

/// What the machine tells the I/O layer to do, in order.
#[derive(Clone, Copy, Debug, PartialEq, Eq, Structural)]
pub enum Action {
    CreateWorkspace,
    RunSubtitleConversion,
    SpawnTranscoder,
    ForwardChunk,
    ReportError(ErrorKind),
    KillTranscoder,
    RemoveWorkspace,
    LogRuntimeFailure,
}

/// The state of one in-flight request.
#[derive(Clone, Copy, Debug, PartialEq, Eq, Structural)]
pub struct Session {
    pub phase: Phase,
    /// The request asked for subtitles, so a workspace and a conversion
    /// step are needed before the transcoder may start.
    pub needs_subtitle: bool,
    /// The workspace directory exists and must eventually be removed.
    pub workspace_active: bool,
    /// The encoder subprocess is running and must eventually be reaped.
    pub encoder_running: bool,
    /// A transcoder spawn has been requested at some point.
    pub spawn_requested: bool,
    /// The subtitle conversion step finished successfully.
    pub subtitle_ready: bool,
    /// At least one response chunk has been forwarded.
    pub response_started: bool,
}

/// A phase the session can never leave.
pub open spec fn is_terminal(p: Phase) -> bool {
    p == Phase::Done || p matches Phase::Failed(_)
}

/// The session invariant. Beyond tying each phase to the resources it may
/// hold, it carries the two safety guarantees: a terminal session holds no
/// resource, and the transcoder is only ever requested once the subtitle
/// step — when one is needed — has succeeded.
pub open spec fn inv(s: Session) -> bool {
    &&& (is_terminal(s.phase) ==> !s.workspace_active && !s.encoder_running)
    &&& (s.spawn_requested ==> (s.needs_subtitle ==> s.subtitle_ready))
    &&& (s.encoder_running ==> s.spawn_requested)
    &&& (s.response_started ==> s.spawn_requested)
    &&& (s.phase == Phase::Validating ==> !s.workspace_active && !s.encoder_running
        && !s.spawn_requested && !s.subtitle_ready && !s.response_started)
    &&& (s.phase == Phase::ResolvingPath ==> !s.workspace_active && !s.encoder_running
        && !s.spawn_requested && !s.response_started)
    &&& (s.phase == Phase::PreprocessingSubtitle ==> s.needs_subtitle && s.workspace_active
        && !s.encoder_running && !s.spawn_requested && !s.response_started)
    &&& (s.phase == Phase::Transcoding ==> s.spawn_requested && !s.encoder_running
        && !s.response_started)
    &&& (s.phase == Phase::Streaming ==> s.spawn_requested && s.encoder_running)
    &&& (s.phase == Phase::Failed(ErrorKind::SubtitleConversionFailed) ==> !s.spawn_requested
        && !s.response_started)
}

/// The session a request starts in.
pub open spec fn initial_spec(needs_subtitle: bool) -> Session {
    Session {
        phase: Phase::Validating,
        needs_subtitle,
        workspace_active: false,
        encoder_running: false,
        spawn_requested: false,
        subtitle_ready: false,
        response_started: false,
    }
}

/// The state after one event. An event that does not belong to the
/// current phase changes nothing.
pub open spec fn next_spec(s: Session, e: Event) -> Session {
    match s.phase {
        Phase::Validating => match e {
            Event::ParamsAccepted => Session { phase: Phase::ResolvingPath, ..s },
            Event::ParamsRejected(k) => Session { phase: Phase::Failed(k), ..s },
            _ => s,
        },
        Phase::ResolvingPath => match e {
            Event::PathAccepted => if s.needs_subtitle {
                Session { phase: Phase::PreprocessingSubtitle, workspace_active: true, ..s }
            } else {
                Session { phase: Phase::Transcoding, spawn_requested: true, ..s }
            },
            Event::PathRejected(k) => Session { phase: Phase::Failed(k), ..s },
            _ => s,
        },
        Phase::PreprocessingSubtitle => match e {
            Event::SubtitleConverted => Session {
                phase: Phase::Transcoding,
                subtitle_ready: true,
                spawn_requested: true,
                ..s
            },
            Event::SubtitleFailed => Session {
                phase: Phase::Failed(ErrorKind::SubtitleConversionFailed),
                workspace_active: false,
                ..s
            },
            _ => s,
        },
        Phase::Transcoding => match e {
            Event::TranscoderSpawned => Session { phase: Phase::Streaming, encoder_running: true, ..s },
            Event::TranscoderSpawnFailed => Session {
                phase: Phase::Failed(ErrorKind::ProcessSpawnFailed),
                workspace_active: false,
                ..s
            },
            _ => s,
        },
        Phase::Streaming => match e {
            Event::ChunkProduced => Session { response_started: true, ..s },
            Event::EncoderExited(clean) => Session {
                phase: if clean {
                    Phase::Done
                } else {
                    Phase::Failed(ErrorKind::ProcessRuntimeFailed)
                },
                encoder_running: false,
                workspace_active: false,
                ..s
            },
            Event::ConsumerGone => Session {
                phase: Phase::Failed(ErrorKind::ClientDisconnected),
                encoder_running: false,
                workspace_active: false,
                ..s
            },
            _ => s,
        },
        _ => s,
    }
}

/// The actions one event provokes, in the order they must run.
pub open spec fn emitted_spec(s: Session, e: Event) -> Seq<Action> {
    match s.phase {
        Phase::Validating => match e {
            Event::ParamsRejected(k) => seq![Action::ReportError(k)],
            _ => Seq::<Action>::empty(),
        },
        Phase::ResolvingPath => match e {
            Event::PathAccepted => if s.needs_subtitle {
                seq![Action::CreateWorkspace, Action::RunSubtitleConversion]
            } else {
                seq![Action::SpawnTranscoder]
            },
            Event::PathRejected(k) => seq![Action::ReportError(k)],
            _ => Seq::<Action>::empty(),
        },
        Phase::PreprocessingSubtitle => match e {
            Event::SubtitleConverted => seq![Action::SpawnTranscoder],
            Event::SubtitleFailed => seq![
                Action::RemoveWorkspace,
                Action::ReportError(ErrorKind::SubtitleConversionFailed),
            ],
            _ => Seq::<Action>::empty(),
        },
        Phase::Transcoding => match e {
            Event::TranscoderSpawnFailed => if s.workspace_active {
                seq![Action::RemoveWorkspace, Action::ReportError(ErrorKind::ProcessSpawnFailed)]
            } else {
                seq![Action::ReportError(ErrorKind::ProcessSpawnFailed)]
            },
            _ => Seq::<Action>::empty(),
        },
        Phase::Streaming => match e {
            Event::ChunkProduced => seq![Action::ForwardChunk],
            Event::EncoderExited(clean) => {
                let head = if clean {
                    Seq::<Action>::empty()
                } else {
                    seq![Action::LogRuntimeFailure]
                };
                if s.workspace_active {
                    head + seq![Action::RemoveWorkspace]
                } else {
                    head
                }
            },
            Event::ConsumerGone => if s.workspace_active {
                seq![Action::KillTranscoder, Action::RemoveWorkspace]
            } else {
                seq![Action::KillTranscoder]
            },
            _ => Seq::<Action>::empty(),
        },
        _ => Seq::<Action>::empty(),
    }
}

impl Session {
    /// Start a session for a request; `needs_subtitle` says whether any
    /// subtitle source was selected.
    pub fn new(needs_subtitle: bool) -> (s: Session)
        ensures
            s == initial_spec(needs_subtitle),
            inv(s),
    {
        Session {
            phase: Phase::Validating,
            needs_subtitle,
            workspace_active: false,
            encoder_running: false,
            spawn_requested: false,
            subtitle_ready: false,
            response_started: false,
        }
    }

    /// Feed one event to the machine; returns the actions the I/O layer
    /// must perform, in order, before the next event is fed.
    pub fn step(&mut self, event: Event) -> (acts: Vec<Action>)
        ensures
            *final(self) == next_spec(*old(self), event),
            acts@ == emitted_spec(*old(self), event),
            inv(*old(self)) ==> inv(*final(self)),
    {
        let s = *self;
        let mut acts: Vec<Action> = Vec::new();
        match s.phase {
            Phase::Validating => match event {
                Event::ParamsAccepted => {
                    self.phase = Phase::ResolvingPath;
                },
                Event::ParamsRejected(k) => {
                    self.phase = Phase::Failed(k);
                    acts.push(Action::ReportError(k));
                },
                _ => {},
            },
            Phase::ResolvingPath => match event {
                Event::PathAccepted => {
                    if s.needs_subtitle {
                        self.phase = Phase::PreprocessingSubtitle;
                        self.workspace_active = true;
                        acts.push(Action::CreateWorkspace);
                        acts.push(Action::RunSubtitleConversion);
                    } else {
                        self.phase = Phase::Transcoding;
                        self.spawn_requested = true;
                        acts.push(Action::SpawnTranscoder);
                    }
                },
                Event::PathRejected(k) => {
                    self.phase = Phase::Failed(k);
                    acts.push(Action::ReportError(k));
                },
                _ => {},
            },
            Phase::PreprocessingSubtitle => match event {
                Event::SubtitleConverted => {
                    self.phase = Phase::Transcoding;
                    self.subtitle_ready = true;
                    self.spawn_requested = true;
                    acts.push(Action::SpawnTranscoder);
                },
                Event::SubtitleFailed => {
                    self.phase = Phase::Failed(ErrorKind::SubtitleConversionFailed);
                    self.workspace_active = false;
                    acts.push(Action::RemoveWorkspace);
                    acts.push(Action::ReportError(ErrorKind::SubtitleConversionFailed));
                },
                _ => {},
            },
            Phase::Transcoding => match event {
                Event::TranscoderSpawned => {
                    self.phase = Phase::Streaming;
                    self.encoder_running = true;
                },
                Event::TranscoderSpawnFailed => {
                    self.phase = Phase::Failed(ErrorKind::ProcessSpawnFailed);
                    self.workspace_active = false;
                    if s.workspace_active {
                        acts.push(Action::RemoveWorkspace);
                    }
                    acts.push(Action::ReportError(ErrorKind::ProcessSpawnFailed));
                },
                _ => {},
            },
            Phase::Streaming => match event {
                Event::ChunkProduced => {
                    self.response_started = true;
                    acts.push(Action::ForwardChunk);
                },
                Event::EncoderExited(clean) => {
                    if clean {
                        self.phase = Phase::Done;
                    } else {
                        self.phase = Phase::Failed(ErrorKind::ProcessRuntimeFailed);
                        acts.push(Action::LogRuntimeFailure);
                    }
                    self.encoder_running = false;
                    self.workspace_active = false;
                    if s.workspace_active {
                        acts.push(Action::RemoveWorkspace);
                    }
                },
                Event::ConsumerGone => {
                    self.phase = Phase::Failed(ErrorKind::ClientDisconnected);
                    self.encoder_running = false;
                    self.workspace_active = false;
                    acts.push(Action::KillTranscoder);
                    if s.workspace_active {
                        acts.push(Action::RemoveWorkspace);
                    }
                },
                _ => {},
            },
            _ => {},
        }
        proof {
            assert(*self == next_spec(s, event));
            assert(acts@ =~= emitted_spec(s, event));
            if inv(s) {
                lemma_step_preserves_inv(s, event);
            }
        }
        acts
    }
}

/// The starting session satisfies the invariant.
pub proof fn lemma_initial_inv(needs_subtitle: bool)
    ensures
        inv(initial_spec(needs_subtitle)),
{
}

/// Every step preserves the session invariant.
pub proof fn lemma_step_preserves_inv(s: Session, e: Event)
    requires
        inv(s),
    ensures
        inv(next_spec(s, e)),
{
}

/// A terminal session absorbs every event: nothing changes and nothing
/// more is asked of the I/O layer.
pub proof fn lemma_terminal_absorbing(s: Session, e: Event)
    requires
        is_terminal(s.phase),
    ensures
        next_spec(s, e) == s,
        emitted_spec(s, e) == Seq::<Action>::empty(),
{
}

/// The state after a whole sequence of events.
pub open spec fn run(s: Session, events: Seq<Event>) -> Session
    decreases events.len(),
{
    if events.len() == 0 {
        s
    } else {
        run(next_spec(s, events[0]), events.drop_first())
    }
}

/// Every action emitted along a whole sequence of events, in order.
pub open spec fn actions_of(s: Session, events: Seq<Event>) -> Seq<Action>
    decreases events.len(),
{
    if events.len() == 0 {
        Seq::<Action>::empty()
    } else {
        emitted_spec(s, events[0]) + actions_of(next_spec(s, events[0]), events.drop_first())
    }
}

/// The invariant holds along any run.
pub proof fn lemma_run_preserves_inv(s: Session, events: Seq<Event>)
    requires
        inv(s),
    ensures
        inv(run(s, events)),
    decreases events.len(),
{
    if events.len() > 0 {
        lemma_step_preserves_inv(s, events[0]);
        lemma_run_preserves_inv(next_spec(s, events[0]), events.drop_first());
    }
}

/// A terminal session stays put for the rest of the run.
pub proof fn lemma_run_terminal(s: Session, events: Seq<Event>)
    requires
        is_terminal(s.phase),
    ensures
        run(s, events) == s,
        actions_of(s, events) == Seq::<Action>::empty(),
    decreases events.len(),
{
    if events.len() > 0 {
        lemma_terminal_absorbing(s, events[0]);
        lemma_run_terminal(s, events.drop_first());
        assert(actions_of(s, events) =~= Seq::<Action>::empty());
    }
}

/// Once a spawn was requested, that fact never goes away.
proof fn lemma_run_spawn_monotone(s: Session, events: Seq<Event>)
    requires
        s.spawn_requested,
    ensures
        run(s, events).spawn_requested,
    decreases events.len(),
{
    if events.len() > 0 {
        lemma_run_spawn_monotone(next_spec(s, events[0]), events.drop_first());
    }
}

/// A step asks for a spawn only if it records having asked for one.
proof fn lemma_spawn_action_recorded(s: Session, e: Event)
    ensures
        emitted_spec(s, e).contains(Action::SpawnTranscoder) ==> next_spec(s, e).spawn_requested,
{
}

/// Subtitle failure short-circuits: a run that ends with the subtitle
/// conversion having failed never asked for a transcoder subprocess and
/// never forwarded a response byte — the failure is reported before
/// anything was sent.
pub proof fn lemma_subtitle_failure_short_circuits(s: Session, events: Seq<Event>)
    requires
        inv(s),
        run(s, events).phase == Phase::Failed(ErrorKind::SubtitleConversionFailed),
    ensures
        !actions_of(s, events).contains(Action::SpawnTranscoder),
        !run(s, events).spawn_requested,
        !run(s, events).response_started,
    decreases events.len(),
{
    lemma_run_preserves_inv(s, events);
    if events.len() == 0 {
    } else {
        let s1 = next_spec(s, events[0]);
        lemma_step_preserves_inv(s, events[0]);
        lemma_subtitle_failure_short_circuits(s1, events.drop_first());
        lemma_spawn_action_recorded(s, events[0]);
        if s1.spawn_requested {
            lemma_run_spawn_monotone(s1, events.drop_first());
            assert(false);
        }
        assert(!emitted_spec(s, events[0]).contains(Action::SpawnTranscoder));
        assert forall|k: int|
            0 <= k < actions_of(s, events).len() implies actions_of(s, events)[k]
            != Action::SpawnTranscoder by {
            let head = emitted_spec(s, events[0]);
            let tail = actions_of(s1, events.drop_first());
            if k < head.len() {
                assert(head[k] != Action::SpawnTranscoder);
            } else {
                assert(tail[k - head.len()] != Action::SpawnTranscoder);
            }
        }
    }
}

/// Chunks are forwarded one at a time, in arrival order: while streaming,
/// each produced chunk is answered by exactly one forward order before the
/// next event is looked at, and the session stays in the streaming phase.
pub proof fn lemma_chunks_forwarded_in_order(s: Session)
    requires
        s.phase == Phase::Streaming,
    ensures
        emitted_spec(s, Event::ChunkProduced) == seq![Action::ForwardChunk],
        next_spec(s, Event::ChunkProduced).phase == Phase::Streaming,
{
    assert(emitted_spec(s, Event::ChunkProduced) =~= seq![Action::ForwardChunk]);
}

/// Cleanup on disconnect: when the consumer stops reading mid-stream, the
/// machine orders the encoder killed and the workspace removed, ends in a
/// terminal state holding no resource, and asks nothing further whatever
/// happens later.
pub proof fn lemma_cleanup_on_disconnect(s: Session, later: Seq<Event>)
    requires
        inv(s),
        s.phase == Phase::Streaming,
    ensures
        ({
            let t = next_spec(s, Event::ConsumerGone);
            &&& emitted_spec(s, Event::ConsumerGone).contains(Action::KillTranscoder)
            &&& (s.workspace_active ==> emitted_spec(s, Event::ConsumerGone).contains(
                Action::RemoveWorkspace,
            ))
            &&& !t.encoder_running
            &&& !t.workspace_active
            &&& is_terminal(t.phase)
            &&& run(t, later) == t
            &&& actions_of(t, later) == Seq::<Action>::empty()
        }),
{
    let t = next_spec(s, Event::ConsumerGone);
    let acts = emitted_spec(s, Event::ConsumerGone);
    assert(acts[0] == Action::KillTranscoder);
    if s.workspace_active {
        assert(acts[1] == Action::RemoveWorkspace);
    }
    lemma_run_terminal(t, later);
}

} // verus!
