//! The editor screen as a state machine: what it remembers, and what each
//! message does to it.
//!
//! The screen sends commands to the engine through a sink that may refuse
//! them, and what a message does depends on whether its sends went
//! through. Every transition is stated as a function of the state before,
//! the message, and the outcomes of the sends it makes.

use vstd::prelude::*;
use vstd::string::StringExecFns;
use crate::api::{
    Command, EngineErrorEvent, Event, ExportSettings, ProjectSnapshot,
    DEFAULT_PREVIEW_CACHE_BUCKET_TL,
};
use crate::preview::PreviewFrame;
use crate::text::{
    decimal, push_decimal, push_signed_decimal, push_text, signed_decimal, trim, trim_spec,
};
use crate::ui::{
    IDLE_WARM_MAX_ROUNDS, LoadedRanges, PendingEdit, PreviewImage, WarmState, blocking_edit,
    clamp_playhead, idle_warm_tick, idle_warm_tick_spec, is_cut_error, is_split_error,
    is_stale_playhead_event, loaded_bucket_for_tick, loaded_bucket_spec, merge_range,
    next_playback_tick, next_playback_tick_spec, screen_playhead, should_queue_idle_warm,
};

verus! {

/// What became of a command that the screen tried to send.
#[derive(Debug, Clone, Copy, PartialEq, Eq)]
pub enum SendOutcome {
    /// The command is on its way to the engine.
    Sent,
    /// The queue to the engine is full; the command was not taken.
    Full,
    /// Nobody reads the queue any more.
    Disconnected,
}

/// Where the screen sends its commands.
pub trait CommandSink {
    /// Tries to hand over one command without waiting.
    fn try_send(&self, command: Command) -> SendOutcome;
}

/// Messages emitted by the bridge to the engine.
#[derive(Debug, Clone)]
pub enum BridgeEvent<S> {
    Ready(S),
    Event(Event),
    Disconnected,
}

/// Messages handled by the screen.
#[derive(Debug, Clone)]
pub enum Message<S> {
    ImportPathChanged(String),
    ImportPressed,
    ExportPathChanged(String),
    ExportPressed,
    PlayPausePressed,
    PlaybackTick,
    SplitPressed,
    CutPressed,
    TimelineScrubbed(i64),
    TimelineSplitRequested(i64),
    TimelineCutRequested(i64),
    TimelineSegmentMoveRequested { segment_id: u64, new_start_tl: i64 },
    TimelineSegmentTrimStartRequested { segment_id: u64, new_start_tl: i64 },
    TimelineSegmentTrimEndRequested { segment_id: u64, new_end_tl: i64 },
    Bridge(BridgeEvent<S>),
}

/// State of the editor screen.
pub struct AppState<S> {
    pub engine_tx: Option<S>,
    pub project: Option<ProjectSnapshot>,
    pub preview_image: Option<PreviewImage>,
    pub import_path: String,
    pub export_path: String,
    pub playhead_tl: i64,
    pub pending_playhead_tl: Option<i64>,
    pub latest_requested_playhead_tl: Option<i64>,
    pub playhead_request_in_flight: bool,
    pub idle_warm_target_tl: Option<i64>,
    pub idle_warm_rounds: u16,
    pub loaded_preview_ranges_tl: LoadedRanges,
    pub pending_split_tl: Option<i64>,
    pub pending_cut_tl: Option<i64>,
    pub last_split_tl: Option<i64>,
    pub is_playing: bool,
    /// Set when the drawing of the timeline is out of date.
    pub timeline_dirty: bool,
    pub status: String,
}

/// What the screen remembers, with its texts as character sequences and
/// its sink as the fact that it has one.
pub struct ScreenView {
    pub connected: bool,
    pub project: Option<ProjectSnapshot>,
    pub preview_image: Option<PreviewImage>,
    pub import_path: Seq<char>,
    pub export_path: Seq<char>,
    pub playhead_tl: i64,
    pub pending_playhead_tl: Option<i64>,
    pub latest_requested_playhead_tl: Option<i64>,
    pub playhead_request_in_flight: bool,
    pub idle_warm_target_tl: Option<i64>,
    pub idle_warm_rounds: u16,
    pub loaded: Seq<(i64, i64)>,
    pub pending_split_tl: Option<i64>,
    pub pending_cut_tl: Option<i64>,
    pub last_split_tl: Option<i64>,
    pub is_playing: bool,
    pub timeline_dirty: bool,
    pub status: Seq<char>,
}

/// The state of a screen that was just opened.
pub open spec fn opened_screen() -> ScreenView {
    ScreenView {
        connected: false,
        project: None,
        preview_image: None,
        import_path: Seq::empty(),
        export_path: Seq::empty(),
        playhead_tl: 0,
        pending_playhead_tl: None,
        latest_requested_playhead_tl: None,
        playhead_request_in_flight: false,
        idle_warm_target_tl: None,
        idle_warm_rounds: 0,
        loaded: Seq::empty(),
        pending_split_tl: None,
        pending_cut_tl: None,
        last_split_tl: None,
        is_playing: false,
        timeline_dirty: false,
        status: "starting engine bridge"@,
    }
}

/// The state with another status line.
pub open spec fn with_status(v: ScreenView, status: Seq<char>) -> ScreenView {
    ScreenView { status, ..v }
}

/// The duration of the project on the screen, if there is one.
pub open spec fn screen_duration(v: ScreenView) -> Option<i64> {
    match v.project {
        Some(project) => Some(project.duration_tl),
        None => None,
    }
}

/// The bucket width that the screen goes by.
pub open spec fn screen_bucket_tl(v: ScreenView) -> i64 {
    match v.project {
        Some(project) => project.preview_bucket_tl,
        None => DEFAULT_PREVIEW_CACHE_BUCKET_TL,
    }
}

/// Where the screen puts a playhead asked to be at `t_tl`.
pub open spec fn clamped(v: ScreenView, t_tl: i64) -> i64 {
    screen_playhead(screen_duration(v), t_tl) as i64
}

/// Whether a send on this state goes through.
pub open spec fn send_succeeds(v: ScreenView, outcome: SendOutcome) -> bool {
    v.connected && outcome is Sent
}

/// The state after a command was tried to send: a refusal is shown in the
/// status line, and a sink that nobody reads is let go.
pub open spec fn after_send(v: ScreenView, outcome: SendOutcome) -> ScreenView {
    if !v.connected {
        with_status(v, "engine is not ready"@)
    } else {
        match outcome {
            SendOutcome::Sent => v,
            SendOutcome::Full => with_status(v, "engine command queue is full"@),
            SendOutcome::Disconnected => ScreenView {
                status: "engine command channel closed"@,
                connected: false,
                playhead_request_in_flight: false,
                ..v
            },
        }
    }
}

/// The state after the pending playhead request was sent, if one is
/// pending and none is under way: a request that went out is under way, a
/// request that a full queue refused stays pending.
pub open spec fn after_flush(v: ScreenView, outcome: SendOutcome) -> ScreenView {
    if v.playhead_request_in_flight || v.pending_playhead_tl is None {
        v
    } else if !v.connected {
        with_status(v, "engine is not ready"@)
    } else {
        match outcome {
            SendOutcome::Sent => ScreenView {
                pending_playhead_tl: None,
                playhead_request_in_flight: true,
                ..v
            },
            SendOutcome::Full => with_status(v, "engine command queue is full"@),
            SendOutcome::Disconnected => ScreenView {
                pending_playhead_tl: None,
                status: "engine command channel closed"@,
                connected: false,
                playhead_request_in_flight: false,
                ..v
            },
        }
    }
}

/// The state after a playhead request for `t_tl` was queued, in place of
/// any that was pending, and sent if none is under way.
pub open spec fn after_queue(v: ScreenView, t_tl: i64, by_user: bool, outcome: SendOutcome) -> ScreenView {
    after_flush(
        ScreenView {
            pending_playhead_tl: Some(t_tl),
            latest_requested_playhead_tl: if by_user {
                Some(t_tl)
            } else {
                v.latest_requested_playhead_tl
            },
            idle_warm_target_tl: if by_user {
                None
            } else {
                v.idle_warm_target_tl
            },
            idle_warm_rounds: if by_user {
                0
            } else {
                v.idle_warm_rounds
            },
            ..v
        },
        outcome,
    )
}

/// A status line that ends in a tick.
pub open spec fn text_at(prefix: Seq<char>, t_tl: i64) -> Seq<char> {
    prefix + signed_decimal(t_tl as int)
}

/// A status line about a segment and a tick.
pub open spec fn segment_text(segment_id: u64, middle: Seq<char>, t_tl: i64) -> Seq<char> {
    "segment "@ + decimal(segment_id as nat) + middle + signed_decimal(t_tl as int)
}

/// The state after a split at `at_tl` was asked for: one edit is asked for
/// at a time, and a split that was sent is pending.
pub open spec fn after_split_request(v: ScreenView, at_tl: i64, outcome: SendOutcome) -> ScreenView {
    if v.pending_split_tl is Some {
        with_status(v, "split request is already pending"@)
    } else if v.pending_cut_tl is Some {
        with_status(v, "cut request is already pending"@)
    } else if send_succeeds(v, outcome) {
        ScreenView {
            pending_split_tl: Some(at_tl),
            status: text_at("split requested at "@, at_tl),
            ..v
        }
    } else {
        after_send(v, outcome)
    }
}

/// The state after a cut at `at_tl` was asked for.
pub open spec fn after_cut_request(v: ScreenView, at_tl: i64, outcome: SendOutcome) -> ScreenView {
    if v.pending_cut_tl is Some {
        with_status(v, "cut request is already pending"@)
    } else if v.pending_split_tl is Some {
        with_status(v, "split request is already pending"@)
    } else if send_succeeds(v, outcome) {
        ScreenView { pending_cut_tl: Some(at_tl), status: text_at("cut requested at "@, at_tl), ..v }
    } else {
        after_send(v, outcome)
    }
}

/// The state after a command was sent whose success is shown as `status`.
pub open spec fn after_plain_request(v: ScreenView, status: Seq<char>, outcome: SendOutcome) -> ScreenView {
    if send_succeeds(v, outcome) {
        with_status(v, status)
    } else {
        after_send(v, outcome)
    }
}

/// The state after the bucket of tick `t_tl` was noted as loaded.
pub open spec fn after_loaded_tick(v: ScreenView, t_tl: i64) -> ScreenView {
    let bucket: i64 = if screen_bucket_tl(v) < 1 {
        1
    } else {
        screen_bucket_tl(v)
    };
    match loaded_bucket_spec(screen_duration(v), bucket, t_tl) {
        None => v,
        Some((start, end)) => {
            let loaded = merge_range(v.loaded, start as i64, end as i64);
            ScreenView { loaded, timeline_dirty: v.timeline_dirty || loaded != v.loaded, ..v }
        },
    }
}

/// The state after the playhead was put at `t_tl` by the user and its
/// preview asked for.
pub open spec fn after_scrub(v: ScreenView, t_tl: i64, outcome: SendOutcome) -> ScreenView {
    after_queue(ScreenView { playhead_tl: clamped(v, t_tl), ..v }, clamped(v, t_tl), true, outcome)
}

/// The state after the play button was pressed.
pub open spec fn after_toggle(v: ScreenView, outcome: SendOutcome) -> ScreenView {
    if v.is_playing {
        ScreenView { is_playing: false, status: "playback paused"@, ..v }
    } else if v.project is None || v.project->0.duration_tl <= 0 {
        with_status(v, "cannot start playback: project is empty"@)
    } else {
        let at = clamped(v, v.playhead_tl);
        after_queue(
            ScreenView {
                playhead_tl: at,
                is_playing: true,
                status: text_at("playback started at "@, at),
                ..v
            },
            at,
            true,
            outcome,
        )
    }
}

/// The state after the playback clock ticked.
pub open spec fn after_tick(v: ScreenView, outcome: SendOutcome) -> ScreenView {
    if !v.is_playing {
        v
    } else if v.project is None {
        ScreenView {
            is_playing: false,
            status: "playback stopped: project is not loaded"@,
            ..v
        }
    } else if v.project->0.duration_tl <= 0 {
        ScreenView { is_playing: false, status: "playback stopped: project is empty"@, ..v }
    } else {
        match next_playback_tick_spec(
            v.playhead_tl,
            v.project->0.duration_tl,
            v.project->0.preview_bucket_tl,
        ) {
            None => ScreenView {
                is_playing: false,
                status: "playback reached timeline end"@,
                ..v
            },
            Some(next) => after_queue(
                ScreenView { playhead_tl: next as i64, ..v },
                next as i64,
                true,
                outcome,
            ),
        }
    }
}

/// The state after the engine announced a project: what was pending is
/// over, and a pending split or cut is shown as applied.
pub open spec fn after_project_changed(v: ScreenView, snapshot: ProjectSnapshot) -> ScreenView {
    let loaded_project = ScreenView { project: Some(snapshot), ..v };
    ScreenView {
        connected: v.connected,
        project: Some(snapshot),
        preview_image: None,
        import_path: v.import_path,
        export_path: v.export_path,
        playhead_tl: clamped(loaded_project, v.playhead_tl),
        pending_playhead_tl: None,
        latest_requested_playhead_tl: None,
        playhead_request_in_flight: false,
        idle_warm_target_tl: None,
        idle_warm_rounds: 0,
        loaded: Seq::empty(),
        pending_split_tl: None,
        pending_cut_tl: None,
        last_split_tl: v.pending_split_tl,
        is_playing: false,
        timeline_dirty: true,
        status: if v.pending_split_tl is Some {
            text_at("split applied at "@, v.pending_split_tl->0)
        } else if v.pending_cut_tl is Some {
            text_at("cut applied at "@, v.pending_cut_tl->0)
        } else {
            "project loaded"@
        },
    }
}

/// The state after the engine reported a playhead position: an answer to
/// an overtaken request does not move the playhead, and the next request
/// goes out.
pub open spec fn after_playhead_changed(v: ScreenView, t_tl: i64, outcome: SendOutcome) -> ScreenView {
    let stale = v.latest_requested_playhead_tl is Some && v.latest_requested_playhead_tl->0
        != t_tl;
    after_flush(
        ScreenView {
            playhead_tl: if stale {
                v.playhead_tl
            } else {
                clamped(v, t_tl)
            },
            playhead_request_in_flight: false,
            ..v
        },
        outcome,
    )
}

/// The state after a fresh preview frame was taken in.
pub open spec fn with_frame_shown(v: ScreenView, t_tl: i64, frame: PreviewFrame) -> ScreenView {
    let at = clamped(v, t_tl);
    let image = PreviewImage::of_frame(frame);
    let noted = after_loaded_tick(ScreenView { playhead_tl: at, preview_image: image, ..v }, at);
    ScreenView {
        status: if image is Some {
            text_at("preview ready at "@, at)
        } else {
            "preview frame dropped: unsupported format or invalid frame data"@
        },
        ..noted
    }
}

/// Whether the screen asks for another round of warming around `t_tl`.
pub open spec fn warms(v: ScreenView, t_tl: i64) -> bool {
    &&& v.preview_image is Some
    &&& !v.is_playing
    &&& v.project is Some
    &&& v.latest_requested_playhead_tl == Some(t_tl)
    &&& v.pending_playhead_tl is None
    &&& !v.playhead_request_in_flight
    &&& (v.idle_warm_target_tl is None || v.idle_warm_target_tl == Some(t_tl))
    &&& v.idle_warm_rounds < IDLE_WARM_MAX_ROUNDS
}

/// The state after one more round of warming around `t_tl` was started.
pub open spec fn after_warm_round(v: ScreenView, t_tl: i64, outcome: SendOutcome) -> ScreenView {
    let rounds: u16 = if v.idle_warm_target_tl == Some(t_tl) {
        (v.idle_warm_rounds + 1) as u16
    } else {
        1
    };
    let counted = ScreenView { idle_warm_target_tl: Some(t_tl), idle_warm_rounds: rounds, ..v };
    after_queue(
        after_loaded_tick(counted, idle_warm_tick_spec(screen_bucket_tl(v), t_tl, rounds) as i64),
        t_tl,
        false,
        outcome,
    )
}

/// The state after the engine delivered a preview frame for `t_tl`.
pub open spec fn after_preview_frame(
    v: ScreenView,
    t_tl: i64,
    frame: PreviewFrame,
    first: SendOutcome,
    second: SendOutcome,
) -> ScreenView {
    let stale = v.latest_requested_playhead_tl is Some && v.latest_requested_playhead_tl->0
        != t_tl;
    let shown = if stale {
        v
    } else {
        with_frame_shown(v, t_tl, frame)
    };
    let flushed = after_flush(ScreenView { playhead_request_in_flight: false, ..shown }, first);
    if warms(flushed, t_tl) {
        after_warm_round(flushed, t_tl, second)
    } else {
        flushed
    }
}

/// The status line for an error of the engine.
pub open spec fn error_status(v: ScreenView, error: EngineErrorEvent) -> Seq<char> {
    let split_like = error.kind == crate::api::EngineErrorKind::SplitPointAtBoundary || error.kind
        == crate::api::EngineErrorKind::SegmentNotFound;
    if v.pending_split_tl is Some {
        (if split_like {
            "split skipped at "@
        } else {
            "split failed at "@
        }) + signed_decimal(v.pending_split_tl->0 as int) + ": "@ + error.message@
    } else if v.pending_cut_tl is Some {
        (if error.kind == crate::api::EngineErrorKind::SegmentNotFound {
            "cut skipped at "@
        } else {
            "cut failed at "@
        }) + signed_decimal(v.pending_cut_tl->0 as int) + ": "@ + error.message@
    } else {
        "error: "@ + error.message@
    }
}

/// The state after the engine reported an error: it answers the pending
/// split, else the pending cut, and the next playhead request goes out.
pub open spec fn after_error(v: ScreenView, error: EngineErrorEvent, outcome: SendOutcome) -> ScreenView {
    after_flush(
        ScreenView {
            status: error_status(v, error),
            last_split_tl: if v.pending_split_tl is Some {
                None
            } else {
                v.last_split_tl
            },
            pending_cut_tl: if v.pending_split_tl is Some {
                v.pending_cut_tl
            } else {
                None
            },
            pending_split_tl: None,
            playhead_request_in_flight: false,
            ..v
        },
        outcome,
    )
}

/// The state after an event of the engine.
pub open spec fn after_event(v: ScreenView, event: Event, first: SendOutcome, second: SendOutcome) -> ScreenView {
    match event {
        Event::ProjectChanged(snapshot) => after_project_changed(v, snapshot),
        Event::PlayheadChanged { t_tl } => after_playhead_changed(v, t_tl, first),
        Event::PreviewFrameReady { t_tl, frame } => after_preview_frame(
            v,
            t_tl,
            frame,
            first,
            second,
        ),
        Event::ExportProgress { done, total } => with_status(
            v,
            "exporting "@ + decimal(done as nat) + "/"@ + decimal(total as nat),
        ),
        Event::ExportFinished { path } => with_status(v, "export finished: "@ + path@),
        Event::Error(error) => after_error(v, error, first),
    }
}

/// The state after the connection to the engine was lost.
pub open spec fn after_disconnect(v: ScreenView) -> ScreenView {
    ScreenView {
        connected: false,
        project: v.project,
        preview_image: v.preview_image,
        import_path: v.import_path,
        export_path: v.export_path,
        playhead_tl: v.playhead_tl,
        pending_playhead_tl: None,
        latest_requested_playhead_tl: None,
        playhead_request_in_flight: false,
        idle_warm_target_tl: None,
        idle_warm_rounds: 0,
        loaded: Seq::empty(),
        pending_split_tl: None,
        pending_cut_tl: None,
        last_split_tl: None,
        is_playing: false,
        timeline_dirty: v.timeline_dirty,
        status: "engine event channel closed"@,
    }
}

/// The state after a press of the import button.
pub open spec fn after_import(v: ScreenView, outcome: SendOutcome) -> ScreenView {
    let path = trim_spec(v.import_path);
    if path.len() == 0 {
        with_status(v, "import path is empty"@)
    } else if send_succeeds(v, outcome) {
        ScreenView {
            pending_split_tl: None,
            pending_cut_tl: None,
            last_split_tl: None,
            status: "importing "@ + path,
            ..v
        }
    } else {
        after_send(v, outcome)
    }
}

/// The state after a press of the export button.
pub open spec fn after_export(v: ScreenView, outcome: SendOutcome) -> ScreenView {
    let path = trim_spec(v.export_path);
    if path.len() == 0 {
        with_status(v, "export path is empty"@)
    } else {
        after_plain_request(v, "export requested: "@ + path, outcome)
    }
}

/// The state after a split at `at_tl` was asked for on the screen: the
/// playhead goes there, the split is asked for, and the preview is asked
/// for again.
pub open spec fn after_split_at(v: ScreenView, at_tl: i64, first: SendOutcome, second: SendOutcome) -> ScreenView {
    let at = clamped(v, at_tl);
    after_queue(
        after_split_request(ScreenView { playhead_tl: at, ..v }, at, first),
        at,
        true,
        second,
    )
}

/// The state after a cut at `at_tl` was asked for on the screen.
pub open spec fn after_cut_at(v: ScreenView, at_tl: i64, first: SendOutcome, second: SendOutcome) -> ScreenView {
    let at = clamped(v, at_tl);
    after_queue(after_cut_request(ScreenView { playhead_tl: at, ..v }, at, first), at, true, second)
}

/// The state after a message, given the outcomes of the first and the
/// second send that it makes.
pub open spec fn after_message<S>(
    v: ScreenView,
    message: Message<S>,
    first: SendOutcome,
    second: SendOutcome,
) -> ScreenView {
    match message {
        Message::ImportPathChanged(path) => ScreenView { import_path: path@, ..v },
        Message::ImportPressed => after_import(v, first),
        Message::ExportPathChanged(path) => ScreenView { export_path: path@, ..v },
        Message::ExportPressed => after_export(v, first),
        Message::PlayPausePressed => after_toggle(v, first),
        Message::PlaybackTick => after_tick(v, first),
        Message::SplitPressed => after_split_at(v, v.playhead_tl, first, second),
        Message::CutPressed => after_cut_at(v, v.playhead_tl, first, second),
        Message::TimelineScrubbed(t_tl) => after_scrub(v, t_tl, first),
        Message::TimelineSplitRequested(at_tl) => after_split_at(v, at_tl, first, second),
        Message::TimelineCutRequested(at_tl) => after_cut_at(v, at_tl, first, second),
        Message::TimelineSegmentMoveRequested { segment_id, new_start_tl } => after_plain_request(
            v,
            segment_text(segment_id, " moved to "@, new_start_tl),
            first,
        ),
        Message::TimelineSegmentTrimStartRequested { segment_id, new_start_tl } =>
            after_plain_request(
            v,
            segment_text(segment_id, " trim-start to "@, new_start_tl),
            first,
        ),
        Message::TimelineSegmentTrimEndRequested { segment_id, new_end_tl } => after_plain_request(
            v,
            segment_text(segment_id, " trim-end to "@, new_end_tl),
            first,
        ),
        Message::Bridge(BridgeEvent::Ready(_)) => after_flush(
            ScreenView { connected: true, status: "engine ready"@, ..v },
            first,
        ),
        Message::Bridge(BridgeEvent::Event(event)) => after_event(v, event, first, second),
        Message::Bridge(BridgeEvent::Disconnected) => after_disconnect(v),
    }
}

/// Makes a status line that ends in a tick.
fn status_at(prefix: &str, t_tl: i64) -> (out: String)
    ensures
        out@ == text_at(prefix@, t_tl),
{
    let mut out = String::new();
    push_text(&mut out, prefix);
    push_signed_decimal(&mut out, t_tl);
    out
}

/// Makes a status line of a prefix and a text.
fn status_with(prefix: &str, text: &str) -> (out: String)
    ensures
        out@ == prefix@ + text@,
{
    let mut out = String::new();
    push_text(&mut out, prefix);
    push_text(&mut out, text);
    out
}

/// Makes a status line about a segment and a tick.
fn status_of_segment(segment_id: u64, middle: &str, t_tl: i64) -> (out: String)
    ensures
        out@ == segment_text(segment_id, middle@, t_tl),
{
    let mut out = String::new();
    push_text(&mut out, "segment ");
    push_decimal(&mut out, segment_id);
    push_text(&mut out, middle);
    push_signed_decimal(&mut out, t_tl);
    assert(out@ =~= segment_text(segment_id, middle@, t_tl));
    out
}

impl<S> View for AppState<S> {
    type V = ScreenView;

    open spec fn view(&self) -> ScreenView {
        ScreenView {
            connected: self.engine_tx is Some,
            project: self.project,
            preview_image: self.preview_image,
            import_path: self.import_path@,
            export_path: self.export_path@,
            playhead_tl: self.playhead_tl,
            pending_playhead_tl: self.pending_playhead_tl,
            latest_requested_playhead_tl: self.latest_requested_playhead_tl,
            playhead_request_in_flight: self.playhead_request_in_flight,
            idle_warm_target_tl: self.idle_warm_target_tl,
            idle_warm_rounds: self.idle_warm_rounds,
            loaded: self.loaded_preview_ranges_tl@,
            pending_split_tl: self.pending_split_tl,
            pending_cut_tl: self.pending_cut_tl,
            last_split_tl: self.last_split_tl,
            is_playing: self.is_playing,
            timeline_dirty: self.timeline_dirty,
            status: self.status@,
        }
    }
}

impl<S: CommandSink> AppState<S> {
    /// The list of loaded ranges is in order.
    pub open spec fn wf(&self) -> bool {
        self.loaded_preview_ranges_tl.wf()
    }

    /// Opens the screen, without an engine yet.
    pub fn new() -> (out: Self)
        ensures
            out.wf(),
            out@ == opened_screen(),
    {
        AppState {
            engine_tx: None,
            project: None,
            preview_image: None,
            import_path: String::new(),
            export_path: String::new(),
            playhead_tl: 0,
            pending_playhead_tl: None,
            latest_requested_playhead_tl: None,
            playhead_request_in_flight: false,
            idle_warm_target_tl: None,
            idle_warm_rounds: 0,
            loaded_preview_ranges_tl: LoadedRanges::new(),
            pending_split_tl: None,
            pending_cut_tl: None,
            last_split_tl: None,
            is_playing: false,
            timeline_dirty: false,
            status: String::from_str("starting engine bridge"),
        }
    }

    /// Handles one message.
    ///
    /// The state afterwards is what [`after_message`] gives for the
    /// outcomes of the sends that were made.
    pub fn update(&mut self, message: Message<S>)
        requires
            old(self).wf(),
        ensures
            final(self).wf(),
            exists|first: SendOutcome, second: SendOutcome|
                final(self)@ == #[trigger] after_message(old(self)@, message, first, second),
    {
        match message {
            Message::ImportPathChanged(path) => {
                self.import_path = path;
                assert(self@ == after_message(
                    old(self)@,
                    message,
                    SendOutcome::Sent,
                    SendOutcome::Sent,
                ));
            },
            Message::ImportPressed => {
                let sent = self.import_pressed();
                assert(self@ == after_message(old(self)@, message, sent@, SendOutcome::Sent));
            },
            Message::ExportPathChanged(path) => {
                self.export_path = path;
                assert(self@ == after_message(
                    old(self)@,
                    message,
                    SendOutcome::Sent,
                    SendOutcome::Sent,
                ));
            },
            Message::ExportPressed => {
                let sent = self.export_pressed();
                assert(self@ == after_message(old(self)@, message, sent@, SendOutcome::Sent));
            },
            Message::PlayPausePressed => {
                let sent = self.toggle_playback();
                assert(self@ == after_message(old(self)@, message, sent@, SendOutcome::Sent));
            },
            Message::PlaybackTick => {
                let sent = self.handle_playback_tick();
                assert(self@ == after_message(old(self)@, message, sent@, SendOutcome::Sent));
            },
            Message::SplitPressed => {
                let sent = self.split_at(self.playhead_tl);
                assert(self@ == after_message(old(self)@, message, sent.0@, sent.1@));
            },
            Message::CutPressed => {
                let sent = self.cut_at(self.playhead_tl);
                assert(self@ == after_message(old(self)@, message, sent.0@, sent.1@));
            },
            Message::TimelineScrubbed(t_tl) => {
                let sent = self.scrub_to(t_tl);
                assert(self@ == after_message(old(self)@, message, sent@, SendOutcome::Sent));
            },
            Message::TimelineSplitRequested(at_tl) => {
                let sent = self.split_at(at_tl);
                assert(self@ == after_message(old(self)@, message, sent.0@, sent.1@));
            },
            Message::TimelineCutRequested(at_tl) => {
                let sent = self.cut_at(at_tl);
                assert(self@ == after_message(old(self)@, message, sent.0@, sent.1@));
            },
            Message::TimelineSegmentMoveRequested { segment_id, new_start_tl } => {
                let status = status_of_segment(segment_id, " moved to ", new_start_tl);
                let sent = self.plain_request(
                    Command::MoveSegment { segment_id, new_start_tl },
                    status,
                );
                assert(self@ == after_message(old(self)@, message, sent@, SendOutcome::Sent));
            },
            Message::TimelineSegmentTrimStartRequested { segment_id, new_start_tl } => {
                let status = status_of_segment(segment_id, " trim-start to ", new_start_tl);
                let sent = self.plain_request(
                    Command::TrimSegmentStart { segment_id, new_start_tl },
                    status,
                );
                assert(self@ == after_message(old(self)@, message, sent@, SendOutcome::Sent));
            },
            Message::TimelineSegmentTrimEndRequested { segment_id, new_end_tl } => {
                let status = status_of_segment(segment_id, " trim-end to ", new_end_tl);
                let sent = self.plain_request(
                    Command::TrimSegmentEnd { segment_id, new_end_tl },
                    status,
                );
                assert(self@ == after_message(old(self)@, message, sent@, SendOutcome::Sent));
            },
            Message::Bridge(BridgeEvent::Ready(sender)) => {
                let sent = self.bridge_ready(sender);
                assert(self@ == after_message(old(self)@, message, sent@, SendOutcome::Sent));
            },
            Message::Bridge(BridgeEvent::Event(event)) => {
                let sent = self.apply_engine_event(event);
                assert(self@ == after_message(old(self)@, message, sent.0@, sent.1@));
            },
            Message::Bridge(BridgeEvent::Disconnected) => {
                self.bridge_disconnected();
                assert(self@ == after_message(
                    old(self)@,
                    message,
                    SendOutcome::Sent,
                    SendOutcome::Sent,
                ));
            },
        }
    }

    /// Sends the import command for the path that was typed.
    fn import_pressed(&mut self) -> (out: Ghost<SendOutcome>)
        ensures
            final(self)@ == after_import(old(self)@, out@),
            final(self).loaded_preview_ranges_tl == old(self).loaded_preview_ranges_tl,
    {
        let path = String::from_str(trim(self.import_path.as_str()));
        if path.as_str().unicode_len() == 0 {
            self.status = String::from_str("import path is empty");
            return Ghost(SendOutcome::Sent);
        }
        let status = status_with("importing ", path.as_str());
        let sent = self.send_command(Command::Import { path });
        if sent.0 {
            self.pending_split_tl = None;
            self.pending_cut_tl = None;
            self.last_split_tl = None;
            self.status = status;
        }
        sent.1
    }

    /// Sends the export command for the path that was typed.
    fn export_pressed(&mut self) -> (out: Ghost<SendOutcome>)
        ensures
            final(self)@ == after_export(old(self)@, out@),
            final(self).loaded_preview_ranges_tl == old(self).loaded_preview_ranges_tl,
    {
        let path = String::from_str(trim(self.export_path.as_str()));
        if path.as_str().unicode_len() == 0 {
            self.status = String::from_str("export path is empty");
            return Ghost(SendOutcome::Sent);
        }
        let status = status_with("export requested: ", path.as_str());
        self.plain_request(Command::Export { path, settings: ExportSettings {  } }, status)
    }

    /// Sends a command and shows `status` when it went out.
    fn plain_request(&mut self, command: Command, status: String) -> (out: Ghost<SendOutcome>)
        ensures
            final(self)@ == after_plain_request(old(self)@, status@, out@),
            final(self).loaded_preview_ranges_tl == old(self).loaded_preview_ranges_tl,
    {
        let sent = self.send_command(command);
        if sent.0 {
            self.status = status;
        }
        sent.1
    }

    /// Puts the playhead where the user scrubbed to and asks for the
    /// preview.
    fn scrub_to(&mut self, t_tl: i64) -> (out: Ghost<SendOutcome>)
        ensures
            final(self)@ == after_scrub(old(self)@, t_tl, out@),
            final(self).loaded_preview_ranges_tl == old(self).loaded_preview_ranges_tl,
    {
        let at = self.clamp_playhead(t_tl);
        self.playhead_tl = at;
        self.queue_playhead(at, true)
    }

    /// Takes the sink of an engine that is ready.
    fn bridge_ready(&mut self, sender: S) -> (out: Ghost<SendOutcome>)
        ensures
            final(self)@ == after_flush(
                ScreenView { connected: true, status: "engine ready"@, ..old(self)@ },
                out@,
            ),
            final(self).loaded_preview_ranges_tl == old(self).loaded_preview_ranges_tl,
    {
        self.engine_tx = Some(sender);
        self.status = String::from_str("engine ready");
        self.flush_playhead_request()
    }

    /// Lets go of everything that waited for the engine.
    fn bridge_disconnected(&mut self)
        ensures
            final(self).wf(),
            final(self)@ == after_disconnect(old(self)@),
    {
        self.status = String::from_str("engine event channel closed");
        self.engine_tx = None;
        self.pending_playhead_tl = None;
        self.latest_requested_playhead_tl = None;
        self.playhead_request_in_flight = false;
        self.idle_warm_target_tl = None;
        self.idle_warm_rounds = 0;
        self.loaded_preview_ranges_tl.clear();
        self.pending_split_tl = None;
        self.pending_cut_tl = None;
        self.last_split_tl = None;
        self.is_playing = false;
    }

    /// Tells whether the timeline has to be drawn anew, and takes note
    /// that it will be.
    pub fn take_timeline_dirty(&mut self) -> (out: bool)
        ensures
            out == old(self)@.timeline_dirty,
            final(self)@ == (ScreenView { timeline_dirty: false, ..old(self)@ }),
            final(self).loaded_preview_ranges_tl == old(self).loaded_preview_ranges_tl,
    {
        let dirty = self.timeline_dirty;
        self.timeline_dirty = false;
        dirty
    }

    /// The bucket width of the project, or the default without one.
    pub fn preview_bucket_tl(&self) -> (out: i64)
        ensures
            out == screen_bucket_tl(self@),
    {
        match &self.project {
            Some(snapshot) => snapshot.preview_bucket_tl,
            None => DEFAULT_PREVIEW_CACHE_BUCKET_TL,
        }
    }

    /// The duration of the project, if there is one.
    fn duration_tl(&self) -> (out: Option<i64>)
        ensures
            out == screen_duration(self@),
    {
        match &self.project {
            Some(snapshot) => Some(snapshot.duration_tl),
            None => None,
        }
    }

    /// Keeps a playhead position on the project.
    fn clamp_playhead(&self, t_tl: i64) -> (out: i64)
        ensures
            out == clamped(self@, t_tl),
    {
        clamp_playhead(self.duration_tl(), t_tl)
    }

    /// Tries to send one command and tells whether it went out.
    fn send_command(&mut self, command: Command) -> (out: (bool, Ghost<SendOutcome>))
        ensures
            final(self)@ == after_send(old(self)@, out.1@),
            out.0 == send_succeeds(old(self)@, out.1@),
            final(self).loaded_preview_ranges_tl == old(self).loaded_preview_ranges_tl,
    {
        let outcome = match &self.engine_tx {
            Some(sender) => sender.try_send(command),
            None => {
                self.status = String::from_str("engine is not ready");
                return (false, Ghost(SendOutcome::Sent));
            },
        };
        match outcome {
            SendOutcome::Sent => (true, Ghost(outcome)),
            SendOutcome::Full => {
                self.status = String::from_str("engine command queue is full");
                (false, Ghost(outcome))
            },
            SendOutcome::Disconnected => {
                self.status = String::from_str("engine command channel closed");
                self.engine_tx = None;
                self.playhead_request_in_flight = false;
                (false, Ghost(outcome))
            },
        }
    }

    /// Sends the pending playhead request, if one is pending and none is
    /// under way.
    fn flush_playhead_request(&mut self) -> (out: Ghost<SendOutcome>)
        ensures
            final(self)@ == after_flush(old(self)@, out@),
            final(self).loaded_preview_ranges_tl == old(self).loaded_preview_ranges_tl,
    {
        if self.playhead_request_in_flight {
            return Ghost(SendOutcome::Sent);
        }
        let t_tl = match self.pending_playhead_tl {
            Some(t_tl) => t_tl,
            None => {
                return Ghost(SendOutcome::Sent);
            },
        };
        let outcome = match &self.engine_tx {
            Some(sender) => sender.try_send(Command::SetPlayhead { t_tl }),
            None => {
                self.status = String::from_str("engine is not ready");
                return Ghost(SendOutcome::Sent);
            },
        };
        match outcome {
            SendOutcome::Sent => {
                self.pending_playhead_tl = None;
                self.playhead_request_in_flight = true;
            },
            SendOutcome::Full => {
                self.status = String::from_str("engine command queue is full");
            },
            SendOutcome::Disconnected => {
                self.pending_playhead_tl = None;
                self.status = String::from_str("engine command channel closed");
                self.engine_tx = None;
                self.playhead_request_in_flight = false;
            },
        }
        Ghost(outcome)
    }

    /// Queues a playhead request in place of any that is pending. A
    /// request of the user ends the warming.
    fn queue_playhead(&mut self, t_tl: i64, by_user: bool) -> (out: Ghost<SendOutcome>)
        ensures
            final(self)@ == after_queue(old(self)@, t_tl, by_user, out@),
            final(self).loaded_preview_ranges_tl == old(self).loaded_preview_ranges_tl,
    {
        if by_user {
            self.idle_warm_target_tl = None;
            self.idle_warm_rounds = 0;
            self.latest_requested_playhead_tl = Some(t_tl);
        }
        self.pending_playhead_tl = Some(t_tl);
        self.flush_playhead_request()
    }

    /// Starts or pauses playback.
    fn toggle_playback(&mut self) -> (out: Ghost<SendOutcome>)
        ensures
            final(self)@ == after_toggle(old(self)@, out@),
            final(self).loaded_preview_ranges_tl == old(self).loaded_preview_ranges_tl,
    {
        if self.is_playing {
            self.is_playing = false;
            self.status = String::from_str("playback paused");
            return Ghost(SendOutcome::Sent);
        }
        let playable = match self.duration_tl() {
            Some(duration) => duration > 0,
            None => false,
        };
        if !playable {
            self.status = String::from_str("cannot start playback: project is empty");
            return Ghost(SendOutcome::Sent);
        }
        let at = self.clamp_playhead(self.playhead_tl);
        self.playhead_tl = at;
        self.is_playing = true;
        self.status = status_at("playback started at ", at);
        self.queue_playhead(at, true)
    }

    /// Moves playback on by one bucket.
    fn handle_playback_tick(&mut self) -> (out: Ghost<SendOutcome>)
        ensures
            final(self)@ == after_tick(old(self)@, out@),
            final(self).loaded_preview_ranges_tl == old(self).loaded_preview_ranges_tl,
    {
        if !self.is_playing {
            return Ghost(SendOutcome::Sent);
        }
        let duration = match self.duration_tl() {
            Some(duration) => duration,
            None => {
                self.is_playing = false;
                self.status = String::from_str("playback stopped: project is not loaded");
                return Ghost(SendOutcome::Sent);
            },
        };
        if duration <= 0 {
            self.is_playing = false;
            self.status = String::from_str("playback stopped: project is empty");
            return Ghost(SendOutcome::Sent);
        }
        match next_playback_tick(self.playhead_tl, duration, self.preview_bucket_tl()) {
            Some(next) => {
                self.playhead_tl = next;
                self.queue_playhead(next, true)
            },
            None => {
                self.is_playing = false;
                self.status = String::from_str("playback reached timeline end");
                Ghost(SendOutcome::Sent)
            },
        }
    }

    /// Asks for a split at `at_tl`, unless an edit is pending.
    fn request_split(&mut self, at_tl: i64) -> (out: Ghost<SendOutcome>)
        ensures
            final(self)@ == after_split_request(old(self)@, at_tl, out@),
            final(self).loaded_preview_ranges_tl == old(self).loaded_preview_ranges_tl,
    {
        match blocking_edit(PendingEdit::Split, self.pending_split_tl, self.pending_cut_tl) {
            Some(PendingEdit::Split) => {
                self.status = String::from_str("split request is already pending");
                return Ghost(SendOutcome::Sent);
            },
            Some(PendingEdit::Cut) => {
                self.status = String::from_str("cut request is already pending");
                return Ghost(SendOutcome::Sent);
            },
            None => {},
        }
        let sent = self.send_command(Command::Split { at_tl });
        if sent.0 {
            self.pending_split_tl = Some(at_tl);
            self.status = status_at("split requested at ", at_tl);
        }
        sent.1
    }

    /// Asks for a cut at `at_tl`, unless an edit is pending.
    fn request_cut(&mut self, at_tl: i64) -> (out: Ghost<SendOutcome>)
        ensures
            final(self)@ == after_cut_request(old(self)@, at_tl, out@),
            final(self).loaded_preview_ranges_tl == old(self).loaded_preview_ranges_tl,
    {
        match blocking_edit(PendingEdit::Cut, self.pending_split_tl, self.pending_cut_tl) {
            Some(PendingEdit::Split) => {
                self.status = String::from_str("split request is already pending");
                return Ghost(SendOutcome::Sent);
            },
            Some(PendingEdit::Cut) => {
                self.status = String::from_str("cut request is already pending");
                return Ghost(SendOutcome::Sent);
            },
            None => {},
        }
        let sent = self.send_command(Command::Cut { at_tl });
        if sent.0 {
            self.pending_cut_tl = Some(at_tl);
            self.status = status_at("cut requested at ", at_tl);
        }
        sent.1
    }

    /// Puts the playhead at `at_tl`, asks for a split there and for the
    /// preview again.
    fn split_at(&mut self, at_tl: i64) -> (out: (Ghost<SendOutcome>, Ghost<SendOutcome>))
        ensures
            final(self)@ == after_split_at(old(self)@, at_tl, out.0@, out.1@),
            final(self).loaded_preview_ranges_tl == old(self).loaded_preview_ranges_tl,
    {
        let at = self.clamp_playhead(at_tl);
        self.playhead_tl = at;
        let first = self.request_split(at);
        let second = self.queue_playhead(at, true);
        (first, second)
    }

    /// Puts the playhead at `at_tl`, asks for a cut there and for the
    /// preview again.
    fn cut_at(&mut self, at_tl: i64) -> (out: (Ghost<SendOutcome>, Ghost<SendOutcome>))
        ensures
            final(self)@ == after_cut_at(old(self)@, at_tl, out.0@, out.1@),
            final(self).loaded_preview_ranges_tl == old(self).loaded_preview_ranges_tl,
    {
        let at = self.clamp_playhead(at_tl);
        self.playhead_tl = at;
        let first = self.request_cut(at);
        let second = self.queue_playhead(at, true);
        (first, second)
    }

    /// Notes the bucket of tick `t_tl` as loaded.
    fn add_loaded_bucket_for_tick(&mut self, t_tl: i64)
        requires
            old(self).wf(),
        ensures
            final(self).wf(),
            final(self)@ == after_loaded_tick(old(self)@, t_tl),
    {
        let bucket = self.preview_bucket_tl();
        let bucket_tl = if bucket < 1 {
            1
        } else {
            bucket
        };
        if let Some((start, end)) = loaded_bucket_for_tick(self.duration_tl(), bucket_tl, t_tl) {
            if self.loaded_preview_ranges_tl.add(start, end) {
                self.timeline_dirty = true;
            }
        }
    }

    /// Takes in what the engine reported.
    fn apply_engine_event(&mut self, event: Event) -> (out: (Ghost<SendOutcome>, Ghost<SendOutcome>))
        requires
            old(self).wf(),
        ensures
            final(self).wf(),
            final(self)@ == after_event(old(self)@, event, out.0@, out.1@),
    {
        match event {
            Event::ProjectChanged(snapshot) => {
                self.on_project_changed(snapshot);
                (Ghost(SendOutcome::Sent), Ghost(SendOutcome::Sent))
            },
            Event::PlayheadChanged { t_tl } => {
                let first = self.on_playhead_changed(t_tl);
                (first, Ghost(SendOutcome::Sent))
            },
            Event::PreviewFrameReady { t_tl, frame } => self.on_preview_frame(t_tl, frame),
            Event::ExportProgress { done, total } => {
                let mut status = String::new();
                push_text(&mut status, "exporting ");
                push_decimal(&mut status, done);
                push_text(&mut status, "/");
                push_decimal(&mut status, total);
                assert(status@ =~= "exporting "@ + decimal(done as nat) + "/"@ + decimal(
                    total as nat,
                ));
                self.status = status;
                (Ghost(SendOutcome::Sent), Ghost(SendOutcome::Sent))
            },
            Event::ExportFinished { path } => {
                self.status = status_with("export finished: ", path.as_str());
                (Ghost(SendOutcome::Sent), Ghost(SendOutcome::Sent))
            },
            Event::Error(error) => {
                let first = self.on_error(error);
                (first, Ghost(SendOutcome::Sent))
            },
        }
    }

    /// Takes in a project that the engine announced.
    fn on_project_changed(&mut self, snapshot: ProjectSnapshot)
        ensures
            final(self).wf(),
            final(self)@ == after_project_changed(old(self)@, snapshot),
    {
        self.is_playing = false;
        self.project = Some(snapshot);
        self.playhead_tl = self.clamp_playhead(self.playhead_tl);
        self.preview_image = None;
        self.timeline_dirty = true;
        self.loaded_preview_ranges_tl.clear();
        self.pending_playhead_tl = None;
        self.latest_requested_playhead_tl = None;
        self.playhead_request_in_flight = false;
        self.idle_warm_target_tl = None;
        self.idle_warm_rounds = 0;
        self.last_split_tl = None;
        let pending_split_tl = self.pending_split_tl;
        let pending_cut_tl = self.pending_cut_tl;
        self.pending_split_tl = None;
        self.pending_cut_tl = None;
        if let Some(split_tl) = pending_split_tl {
            self.last_split_tl = Some(split_tl);
            self.status = status_at("split applied at ", split_tl);
        } else if let Some(cut_tl) = pending_cut_tl {
            self.status = status_at("cut applied at ", cut_tl);
        } else {
            self.status = String::from_str("project loaded");
        }
    }

    /// Takes in a playhead position that the engine reported.
    fn on_playhead_changed(&mut self, t_tl: i64) -> (out: Ghost<SendOutcome>)
        ensures
            final(self)@ == after_playhead_changed(old(self)@, t_tl, out@),
            final(self).loaded_preview_ranges_tl == old(self).loaded_preview_ranges_tl,
    {
        if !is_stale_playhead_event(self.latest_requested_playhead_tl, t_tl) {
            self.playhead_tl = self.clamp_playhead(t_tl);
        }
        self.playhead_request_in_flight = false;
        self.flush_playhead_request()
    }

    /// Shows a preview frame that answers the latest request.
    fn show_frame(&mut self, t_tl: i64, frame: PreviewFrame)
        requires
            old(self).wf(),
        ensures
            final(self).wf(),
            final(self)@ == with_frame_shown(old(self)@, t_tl, frame),
    {
        let at = self.clamp_playhead(t_tl);
        self.playhead_tl = at;
        self.preview_image = PreviewImage::from_frame(&frame);
        self.add_loaded_bucket_for_tick(at);
        self.status = if self.preview_image.is_some() {
            status_at("preview ready at ", at)
        } else {
            String::from_str("preview frame dropped: unsupported format or invalid frame data")
        };
    }

    /// Starts one more round of warming around `t_tl`.
    fn warm_round(&mut self, t_tl: i64) -> (out: Ghost<SendOutcome>)
        requires
            old(self).wf(),
            old(self).idle_warm_rounds < IDLE_WARM_MAX_ROUNDS,
        ensures
            final(self).wf(),
            final(self)@ == after_warm_round(old(self)@, t_tl, out@),
    {
        let same_target = match self.idle_warm_target_tl {
            Some(target) => target == t_tl,
            None => false,
        };
        let rounds: u16 = if same_target {
            self.idle_warm_rounds + 1
        } else {
            1
        };
        let hint = idle_warm_tick(self.preview_bucket_tl(), t_tl, rounds);
        self.idle_warm_target_tl = Some(t_tl);
        self.idle_warm_rounds = rounds;
        self.add_loaded_bucket_for_tick(hint);
        self.queue_playhead(t_tl, false)
    }

    /// Takes in a preview frame that the engine delivered.
    fn on_preview_frame(&mut self, t_tl: i64, frame: PreviewFrame) -> (out: (
        Ghost<SendOutcome>,
        Ghost<SendOutcome>,
    ))
        requires
            old(self).wf(),
        ensures
            final(self).wf(),
            final(self)@ == after_preview_frame(old(self)@, t_tl, frame, out.0@, out.1@),
    {
        if !is_stale_playhead_event(self.latest_requested_playhead_tl, t_tl) {
            self.show_frame(t_tl, frame);
        }
        self.playhead_request_in_flight = false;
        let first = self.flush_playhead_request();
        let warm = WarmState {
            is_playing: self.is_playing,
            has_project: self.project.is_some(),
            latest_requested_playhead_tl: self.latest_requested_playhead_tl,
            pending_playhead_tl: self.pending_playhead_tl,
            playhead_request_in_flight: self.playhead_request_in_flight,
            idle_warm_target_tl: self.idle_warm_target_tl,
            idle_warm_rounds: self.idle_warm_rounds,
        };
        if self.preview_image.is_some() && should_queue_idle_warm(warm, t_tl) {
            let second = self.warm_round(t_tl);
            (first, second)
        } else {
            (first, Ghost(SendOutcome::Sent))
        }
    }

    /// Takes in an error that the engine reported.
    fn on_error(&mut self, error: EngineErrorEvent) -> (out: Ghost<SendOutcome>)
        ensures
            final(self)@ == after_error(old(self)@, error, out@),
            final(self).loaded_preview_ranges_tl == old(self).loaded_preview_ranges_tl,
    {
        let ghost shown = error_status(self@, error);
        if let Some(split_tl) = self.pending_split_tl {
            self.pending_split_tl = None;
            self.last_split_tl = None;
            let mut status = status_at(
                if is_split_error(error.kind) {
                    "split skipped at "
                } else {
                    "split failed at "
                },
                split_tl,
            );
            push_text(&mut status, ": ");
            push_text(&mut status, error.message.as_str());
            assert(status@ =~= shown);
            self.status = status;
        } else if let Some(cut_tl) = self.pending_cut_tl {
            self.pending_cut_tl = None;
            let mut status = status_at(
                if is_cut_error(error.kind) {
                    "cut skipped at "
                } else {
                    "cut failed at "
                },
                cut_tl,
            );
            push_text(&mut status, ": ");
            push_text(&mut status, error.message.as_str());
            assert(status@ =~= shown);
            self.status = status;
        } else {
            self.status = status_with("error: ", error.message.as_str());
        }
        self.playhead_request_in_flight = false;
        self.flush_playhead_request()
    }
}

} // verus!
