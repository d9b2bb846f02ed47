//! The state of an editor screen without its drawing: what the screen
//! remembers of the engine's events, and which commands its interactions
//! turn into.

use vstd::prelude::*;
use std::sync::Arc;
use crate::api::{Command, EngineErrorKind, Event, ProjectSnapshot, SegmentSummary};
use crate::preview::{PreviewFrame, PreviewPixelFormat};
use crate::timeline::clamp_int;

verus! {

/// Interaction result emitted by the timeline widget.
#[derive(Debug, Clone, Copy, PartialEq, Eq)]
pub enum TimelineInteraction {
    Scrubbed(i64),
    SplitRequested,
}

/// UI message consumed by update.
#[derive(Debug, Clone, PartialEq, Eq)]
pub enum Message {
    Engine(Event),
    TimelineScrubbed(i64),
    TimelineSplitRequested,
}

/// Renderable preview payload kept on the UI side.
#[derive(Debug, Clone, PartialEq, Eq)]
pub struct PreviewImage {
    pub width: u32,
    pub height: u32,
    pub format: PreviewPixelFormat,
    pub bytes: Arc<[u8]>,
}

/// State of the preview widget.
#[derive(Debug, Clone, PartialEq, Eq)]
pub struct PreviewState {
    latest: Option<PreviewImage>,
}

/// UI state for the editor screen.
#[derive(Debug, Clone)]
pub struct AppState {
    snapshot: Option<ProjectSnapshot>,
    playhead_tl: i64,
    preview: PreviewState,
}

/// Creates a split interaction (for keyboard shortcut or dedicated button).
pub fn request_split() -> (out: TimelineInteraction)
    ensures
        out == TimelineInteraction::SplitRequested,
{
    TimelineInteraction::SplitRequested
}

impl Message {
    /// The message that a timeline interaction is.
    pub open spec fn of_timeline(interaction: TimelineInteraction) -> Message {
        match interaction {
            TimelineInteraction::Scrubbed(t_tl) => Message::TimelineScrubbed(t_tl),
            TimelineInteraction::SplitRequested => Message::TimelineSplitRequested,
        }
    }

    /// Converts a timeline widget interaction into an app message.
    pub fn from_timeline(interaction: TimelineInteraction) -> (out: Self)
        ensures
            out == Self::of_timeline(interaction),
    {
        match interaction {
            TimelineInteraction::Scrubbed(t_tl) => Message::TimelineScrubbed(t_tl),
            TimelineInteraction::SplitRequested => Message::TimelineSplitRequested,
        }
    }
}

impl PreviewImage {
    /// The image that shows `frame`, if its bytes can be shown.
    pub open spec fn of_frame(frame: PreviewFrame) -> Option<PreviewImage> {
        if displayable_spec(frame) {
            Some(image_of(frame))
        } else {
            None
        }
    }

    /// Takes over an RGBA frame whose bytes fill it.
    pub fn from_frame(frame: &PreviewFrame) -> (out: Option<Self>)
        ensures
            out == Self::of_frame(*frame),
    {
        if !displayable(frame) {
            return None;
        }
        let shown = frame.clone();
        Some(
            PreviewImage {
                width: shown.width,
                height: shown.height,
                format: shown.format,
                bytes: shown.bytes,
            },
        )
    }
}

/// The image that shows `frame`.
pub open spec fn image_of(frame: PreviewFrame) -> PreviewImage {
    PreviewImage {
        width: frame.width,
        height: frame.height,
        format: frame.format,
        bytes: frame.bytes,
    }
}

impl PreviewState {
    /// The frame that is shown, if any.
    pub closed spec fn spec_latest(&self) -> Option<PreviewImage> {
        self.latest
    }

    /// Creates a preview without a frame.
    pub fn new() -> (out: Self)
        ensures
            out.spec_latest() is None,
    {
        PreviewState { latest: None }
    }

    /// Stores a new frame as the latest render target.
    pub fn push_frame(&mut self, frame: PreviewFrame)
        ensures
            final(self).spec_latest() == Some(image_of(frame)),
    {
        self.latest = Some(
            PreviewImage {
                width: frame.width,
                height: frame.height,
                format: frame.format,
                bytes: frame.bytes,
            },
        );
    }

    /// Returns the currently rendered frame, if any.
    pub fn latest(&self) -> (out: Option<&PreviewImage>)
        ensures
            match self.spec_latest() {
                Some(image) => out is Some && *out->0 == image,
                None => out is None,
            },
    {
        self.latest.as_ref()
    }
}

impl Default for PreviewState {
    fn default() -> (out: Self)
        ensures
            out.spec_latest() is None,
    {
        PreviewState::new()
    }
}

/// What the screen remembers.
pub struct AppView {
    pub snapshot: Option<ProjectSnapshot>,
    pub playhead_tl: i64,
    pub latest: Option<PreviewImage>,
}

/// What the screen remembers after a message.
pub open spec fn after_message(before: AppView, message: Message) -> AppView {
    match message {
        Message::Engine(Event::ProjectChanged(snapshot)) => AppView {
            snapshot: Some(snapshot),
            ..before
        },
        Message::Engine(Event::PlayheadChanged { t_tl }) => AppView { playhead_tl: t_tl, ..before },
        Message::Engine(Event::PreviewFrameReady { t_tl, frame }) => AppView {
            latest: Some(image_of(frame)),
            ..before
        },
        Message::Engine(_) => before,
        Message::TimelineScrubbed(t_tl) => AppView {
            playhead_tl: if t_tl < 0 {
                0
            } else {
                t_tl
            },
            ..before
        },
        Message::TimelineSplitRequested => before,
    }
}

/// The commands that a message sends to the engine: a scrub sets the
/// playhead, not before zero, and a split request splits at the playhead.
pub open spec fn commands_for(before: AppView, message: Message) -> Seq<Command> {
    match message {
        Message::Engine(_) => Seq::empty(),
        Message::TimelineScrubbed(t_tl) => seq![
            Command::SetPlayhead {
                t_tl: if t_tl < 0 {
                    0
                } else {
                    t_tl
                },
            },
        ],
        Message::TimelineSplitRequested => seq![Command::Split { at_tl: before.playhead_tl }],
    }
}

impl View for AppState {
    type V = AppView;

    closed spec fn view(&self) -> AppView {
        AppView {
            snapshot: self.snapshot,
            playhead_tl: self.playhead_tl,
            latest: self.preview.spec_latest(),
        }
    }
}

impl AppState {
    /// Creates an empty app state.
    pub fn new() -> (out: Self)
        ensures
            out@ == (AppView { snapshot: None, playhead_tl: 0, latest: None }),
    {
        AppState { snapshot: None, playhead_tl: 0, preview: PreviewState::new() }
    }

    /// Applies one UI message and returns outgoing engine commands.
    pub fn update(&mut self, message: Message) -> (out: Vec<Command>)
        ensures
            final(self)@ == after_message(old(self)@, message),
            out@ == commands_for(old(self)@, message),
    {
        match message {
            Message::Engine(event) => self.apply_engine_event(event),
            Message::TimelineScrubbed(t_tl) => {
                self.playhead_tl = if t_tl < 0 {
                    0
                } else {
                    t_tl
                };
                let mut commands: Vec<Command> = Vec::new();
                commands.push(Command::SetPlayhead { t_tl: self.playhead_tl });
                assert(commands@ =~= commands_for(old(self)@, message));
                commands
            },
            Message::TimelineSplitRequested => {
                let mut commands: Vec<Command> = Vec::new();
                commands.push(Command::Split { at_tl: self.playhead_tl });
                assert(commands@ =~= commands_for(old(self)@, message));
                commands
            },
        }
    }

    /// The project as last announced, if any.
    pub fn snapshot(&self) -> (out: Option<&ProjectSnapshot>)
        ensures
            match self@.snapshot {
                Some(snapshot) => out is Some && *out->0 == snapshot,
                None => out is None,
            },
    {
        self.snapshot.as_ref()
    }

    /// The playhead position that the screen shows.
    pub fn playhead_tl(&self) -> (out: i64)
        ensures
            out == self@.playhead_tl,
    {
        self.playhead_tl
    }

    /// Returns a read-only preview state.
    pub fn preview_state(&self) -> (out: &PreviewState)
        ensures
            out.spec_latest() == self@.latest,
    {
        &self.preview
    }

    /// Takes in what the engine reported.
    fn apply_engine_event(&mut self, event: Event) -> (out: Vec<Command>)
        ensures
            final(self)@ == after_message(old(self)@, Message::Engine(event)),
            out@ == Seq::<Command>::empty(),
    {
        match event {
            Event::ProjectChanged(snapshot) => {
                self.snapshot = Some(snapshot);
            },
            Event::PlayheadChanged { t_tl } => {
                self.playhead_tl = t_tl;
            },
            Event::PreviewFrameReady { frame, .. } => {
                self.preview.push_frame(frame);
            },
            Event::ExportProgress { .. } | Event::ExportFinished { .. } | Event::Error(_) => {},
        }
        Vec::new()
    }
}

impl Default for AppState {
    fn default() -> (out: Self)
        ensures
            out@ == (AppView { snapshot: None, playhead_tl: 0, latest: None }),
    {
        AppState::new()
    }
}

/// The ticks among the first `n` segment starts where the timeline shows
/// a split mark: every start strictly inside the timeline, in order, a
/// start that repeats the mark before it left out.
pub open spec fn split_boundaries(segments: Seq<SegmentSummary>, duration_tl: i64, n: int) -> Seq<i64>
    decreases n,
{
    if n <= 0 || duration_tl <= 0 {
        Seq::empty()
    } else {
        let before = split_boundaries(segments, duration_tl, n - 1);
        let tick = segments[n - 1].timeline_start;
        if tick <= 0 || tick >= duration_tl || (before.len() > 0 && before.last() == tick) {
            before
        } else {
            before.push(tick)
        }
    }
}

/// Lists the ticks where the timeline shows a split mark.
pub fn split_boundary_ticks(segments: &[SegmentSummary], duration_tl: i64) -> (out: Vec<i64>)
    ensures
        out@ == split_boundaries(segments@, duration_tl, segments@.len() as int),
{
    let mut ticks: Vec<i64> = Vec::new();
    if duration_tl <= 0 {
        return ticks;
    }
    let mut i: usize = 0;
    while i < segments.len()
        invariant
            i <= segments@.len(),
            duration_tl > 0,
            ticks@ == split_boundaries(segments@, duration_tl, i as int),
        decreases segments@.len() - i,
    {
        let tick = segments[i].timeline_start;
        if !(tick <= 0 || tick >= duration_tl) {
            let repeated = ticks.len() > 0 && ticks[ticks.len() - 1] == tick;
            if !repeated {
                ticks.push(tick);
            }
        }
        i += 1;
    }
    ticks
}

/// Index of the first segment at or after `from` that covers tick `t_tl`,
/// for segments that end within `i64`.
pub open spec fn summary_covering_from(segments: Seq<SegmentSummary>, t_tl: i64, from: int) -> Option<
    int,
>
    decreases segments.len() - from,
{
    if from < 0 || from >= segments.len() {
        None
    } else if segments[from].timeline_start <= t_tl < segments[from].timeline_start
        + segments[from].timeline_duration {
        Some(from)
    } else {
        summary_covering_from(segments, t_tl, from + 1)
    }
}

/// Finds the first segment that covers tick `t_tl`.
pub fn segment_at_tick(segments: &[SegmentSummary], t_tl: i64) -> (out: Option<&SegmentSummary>)
    ensures
        match summary_covering_from(segments@, t_tl, 0) {
            Some(i) => 0 <= i < segments@.len() && out is Some && *out->0 == segments@[i],
            None => out is None,
        },
{
    let mut i: usize = 0;
    while i < segments.len()
        invariant
            i <= segments@.len(),
            summary_covering_from(segments@, t_tl, 0) == summary_covering_from(
                segments@,
                t_tl,
                i as int,
            ),
        decreases segments@.len() - i,
    {
        let segment = &segments[i];
        let end: i128 = segment.timeline_start as i128 + segment.timeline_duration as i128;
        if segment.timeline_start <= t_tl && (t_tl as i128) < end {
            return Some(segment);
        }
        i += 1;
    }
    None
}


/// Whether an error of this kind means that a split did not apply where
/// it was asked for, rather than that it failed.
pub fn is_split_error(kind: EngineErrorKind) -> (out: bool)
    ensures
        out == (kind == EngineErrorKind::SplitPointAtBoundary || kind
            == EngineErrorKind::SegmentNotFound),
{
    match kind {
        EngineErrorKind::SplitPointAtBoundary => true,
        EngineErrorKind::SegmentNotFound => true,
        EngineErrorKind::Other => false,
    }
}

/// Whether an error of this kind means that a cut found nothing to cut.
pub fn is_cut_error(kind: EngineErrorKind) -> (out: bool)
    ensures
        out == (kind == EngineErrorKind::SegmentNotFound),
{
    match kind {
        EngineErrorKind::SegmentNotFound => true,
        _ => false,
    }
}

/// How many rounds of warming the screen asks for around one resting
/// playhead position.
pub const IDLE_WARM_MAX_ROUNDS: u16 = 120;

/// An edit that the screen asked for and that the engine has not answered
/// yet.
#[derive(Debug, Clone, Copy, PartialEq, Eq)]
pub enum PendingEdit {
    Split,
    Cut,
}

/// Tells which pending edit keeps the screen from asking for `asked`, if
/// one does: a pending edit of the same kind, else one of the other kind.
pub fn blocking_edit(asked: PendingEdit, pending_split_tl: Option<i64>, pending_cut_tl: Option<i64>) -> (out:
    Option<PendingEdit>)
    ensures
        out == (if pending_split_tl is None && pending_cut_tl is None {
            None
        } else if pending_split_tl is Some && pending_cut_tl is Some {
            Some(asked)
        } else if pending_split_tl is Some {
            Some(PendingEdit::Split)
        } else {
            Some(PendingEdit::Cut)
        }),
{
    match (asked, pending_split_tl, pending_cut_tl) {
        (_, None, None) => None,
        (PendingEdit::Split, Some(_), _) => Some(PendingEdit::Split),
        (PendingEdit::Split, None, Some(_)) => Some(PendingEdit::Cut),
        (PendingEdit::Cut, _, Some(_)) => Some(PendingEdit::Cut),
        (PendingEdit::Cut, Some(_), None) => Some(PendingEdit::Split),
    }
}

/// Tells whether an event for tick `event_t_tl` answers a request that a
/// later request has overtaken.
pub fn is_stale_playhead_event(latest_requested_playhead_tl: Option<i64>, event_t_tl: i64) -> (out:
    bool)
    ensures
        out == (latest_requested_playhead_tl is Some && latest_requested_playhead_tl->0
            != event_t_tl),
{
    match latest_requested_playhead_tl {
        Some(latest_t_tl) => latest_t_tl != event_t_tl,
        None => false,
    }
}

/// What decides whether the screen asks for another round of warming.
#[derive(Debug, Clone, Copy, PartialEq, Eq)]
pub struct WarmState {
    pub is_playing: bool,
    pub has_project: bool,
    pub latest_requested_playhead_tl: Option<i64>,
    pub pending_playhead_tl: Option<i64>,
    pub playhead_request_in_flight: bool,
    pub idle_warm_target_tl: Option<i64>,
    pub idle_warm_rounds: u16,
}

/// Tells whether the screen asks for another round of warming around
/// `t_tl`: it rests there with a project, nothing else is asked for or
/// under way, the warming is for this tick or for none yet, and rounds are
/// left.
pub fn should_queue_idle_warm(state: WarmState, t_tl: i64) -> (out: bool)
    ensures
        out == (!state.is_playing && state.has_project && state.latest_requested_playhead_tl
            == Some(t_tl) && state.pending_playhead_tl is None
            && !state.playhead_request_in_flight && (state.idle_warm_target_tl is None
            || state.idle_warm_target_tl == Some(t_tl)) && state.idle_warm_rounds
            < IDLE_WARM_MAX_ROUNDS),
{
    let latest_here = match state.latest_requested_playhead_tl {
        Some(latest) => latest == t_tl,
        None => false,
    };
    let for_this_tick = match state.idle_warm_target_tl {
        Some(target) => target == t_tl,
        None => true,
    };
    !state.is_playing && state.has_project && latest_here && state.pending_playhead_tl.is_none()
        && !state.playhead_request_in_flight && for_this_tick && state.idle_warm_rounds
        < IDLE_WARM_MAX_ROUNDS
}

/// Where the screen puts a playhead asked to be at `t_tl`: on a tick of
/// the project, the first tick of an empty project, or without a project
/// anywhere from zero on.
pub open spec fn screen_playhead(duration_tl: Option<i64>, t_tl: i64) -> int {
    match duration_tl {
        Some(duration) => clamp_int(
            t_tl as int,
            0,
            if duration <= 0 {
                0
            } else {
                duration - 1
            },
        ),
        None => if t_tl < 0 {
            0
        } else {
            t_tl as int
        },
    }
}

/// Keeps the playhead of the screen on the project.
pub fn clamp_playhead(duration_tl: Option<i64>, t_tl: i64) -> (out: i64)
    ensures
        out == screen_playhead(duration_tl, t_tl),
{
    match duration_tl {
        Some(duration) => {
            let max_tick = if duration <= 0 {
                0
            } else {
                duration - 1
            };
            if t_tl < 0 {
                0
            } else if t_tl > max_tick {
                max_tick
            } else {
                t_tl
            }
        },
        None => if t_tl < 0 {
            0
        } else {
            t_tl
        },
    }
}

/// The tick that playback shows after `playhead_tl`: one bucket later, but
/// not after the last tick. Playback ends where there is no later tick.
pub open spec fn next_playback_tick_spec(playhead_tl: i64, duration_tl: i64, bucket_tl: i64) -> Option<
    int,
> {
    if duration_tl <= 0 || playhead_tl >= duration_tl - 1 {
        None
    } else {
        let step: int = if bucket_tl < 1 {
            1
        } else {
            bucket_tl as int
        };
        let next = clamp_int(playhead_tl + step, 0, duration_tl - 1);
        if next == playhead_tl {
            None
        } else {
            Some(next)
        }
    }
}

/// Advances playback by one bucket.
pub fn next_playback_tick(playhead_tl: i64, duration_tl: i64, bucket_tl: i64) -> (out: Option<i64>)
    ensures
        match next_playback_tick_spec(playhead_tl, duration_tl, bucket_tl) {
            Some(next) => out == Some(next as i64),
            None => out is None,
        },
{
    if duration_tl <= 0 {
        return None;
    }
    let max_tick = duration_tl - 1;
    if playhead_tl >= max_tick {
        return None;
    }
    let step: i64 = if bucket_tl < 1 {
        1
    } else {
        bucket_tl
    };
    let wide: i128 = playhead_tl as i128 + step as i128;
    let next: i64 = if wide < 0 {
        0
    } else if wide > max_tick as i128 {
        max_tick
    } else {
        wide as i64
    };
    if next == playhead_tl {
        None
    } else {
        Some(next)
    }
}

/// The bucket of the timeline that holds tick `t_tl`, as far as the
/// project reaches: from the bucket's first tick to its end or the
/// project's end. A tick before zero and an empty project have none.
pub open spec fn loaded_bucket_spec(duration_tl: Option<i64>, bucket_tl: i64, t_tl: i64) -> Option<
    (int, int),
> {
    if t_tl < 0 || (duration_tl is Some && duration_tl->0 <= 0) {
        None
    } else {
        let tick = match duration_tl {
            Some(duration) => clamp_int(t_tl as int, 0, duration - 1),
            None => t_tl as int,
        };
        let start = (tick / bucket_tl as int) * bucket_tl;
        let limit = match duration_tl {
            Some(duration) => duration as int,
            None => i64::MAX as int,
        };
        let end = if start + bucket_tl > limit {
            limit
        } else {
            start + bucket_tl
        };
        if end <= start {
            None
        } else {
            Some((start, end))
        }
    }
}

/// Works out the range of ticks that a loaded preview frame stands for.
pub fn loaded_bucket_for_tick(duration_tl: Option<i64>, bucket_tl: i64, t_tl: i64) -> (out: Option<
    (i64, i64),
>)
    requires
        bucket_tl > 0,
    ensures
        match loaded_bucket_spec(duration_tl, bucket_tl, t_tl) {
            Some((start, end)) => out == Some((start as i64, end as i64)) && 0 <= start < end
                <= i64::MAX,
            None => out is None,
        },
{
    if t_tl < 0 {
        return None;
    }
    let (tick, limit): (i64, i64) = match duration_tl {
        Some(duration) => {
            if duration <= 0 {
                return None;
            }
            (
                if t_tl > duration - 1 {
                    duration - 1
                } else {
                    t_tl
                },
                duration,
            )
        },
        None => (t_tl, i64::MAX),
    };
    proof {
        let t = tick as int;
        let b = bucket_tl as int;
        vstd::arithmetic::div_mod::lemma_fundamental_div_mod(t, b);
        vstd::arithmetic::div_mod::lemma_mod_bound(t, b);
        vstd::arithmetic::div_mod::lemma_div_pos_is_pos(t, b);
        assert((t / b) * b == b * (t / b)) by (nonlinear_arith);
    }
    let start = (tick / bucket_tl) * bucket_tl;
    let wide: i128 = start as i128 + bucket_tl as i128;
    let end: i64 = if wide > limit as i128 {
        limit
    } else {
        wide as i64
    };
    if end <= start {
        None
    } else {
        Some((start, end))
    }
}

/// The tick whose bucket a warming round stands for: rounds alternate
/// between the side after the target and the side before it, one bucket
/// further every second round, within `i64`.
pub open spec fn idle_warm_tick_spec(bucket_tl: i64, t_tl: i64, warm_round: u16) -> int {
    let step = (warm_round + 1) / 2;
    let reach = crate::time::clamp_i64(bucket_tl * step);
    let offset = if warm_round % 2 == 1 {
        reach
    } else {
        crate::time::clamp_i64(-reach)
    };
    crate::time::clamp_i64(t_tl + offset)
}

/// Works out the tick whose bucket a warming round stands for.
pub fn idle_warm_tick(bucket_tl: i64, t_tl: i64, warm_round: u16) -> (out: i64)
    ensures
        out == idle_warm_tick_spec(bucket_tl, t_tl, warm_round),
{
    let step: i128 = ((warm_round as u32 + 1) / 2) as i128;
    assert(-0x8000_0000_0000_0000 * 0x1_0000 <= bucket_tl * step <= 0x8000_0000_0000_0000
        * 0x1_0000) by (nonlinear_arith)
        requires
            -0x8000_0000_0000_0000 <= bucket_tl <= 0x8000_0000_0000_0000,
            0 <= step <= 0x1_0000,
    ;
    let product: i128 = (bucket_tl as i128) * step;
    let scaled: i128 = if product < i64::MIN as i128 {
        i64::MIN as i128
    } else if product > i64::MAX as i128 {
        i64::MAX as i128
    } else {
        product
    };
    let signed: i128 = if warm_round % 2 == 1 {
        scaled
    } else {
        -scaled
    };
    let offset: i128 = if signed > i64::MAX as i128 {
        i64::MAX as i128
    } else {
        signed
    };
    let sum: i128 = t_tl as i128 + offset;
    if sum < i64::MIN as i128 {
        i64::MIN
    } else if sum > i64::MAX as i128 {
        i64::MAX
    } else {
        sum as i64
    }
}

/// Whether the bytes of `frame` can be shown: it must be RGBA and hold
/// four bytes for each pixel.
pub open spec fn displayable_spec(frame: PreviewFrame) -> bool {
    frame.format == PreviewPixelFormat::Rgba8 && frame.width * frame.height * 4 <= u32::MAX
        && frame.bytes@.len() == frame.width * frame.height * 4
}

/// Tells whether the bytes of `frame` can be shown.
pub fn displayable(frame: &PreviewFrame) -> (out: bool)
    ensures
        out == displayable_spec(*frame),
{
    match frame.format {
        PreviewPixelFormat::Rgba8 => {},
        PreviewPixelFormat::Nv12 => {
            return false;
        },
    }
    assert(0 <= frame.width * frame.height <= 0xFFFF_FFFF * 0xFFFF_FFFF) by (nonlinear_arith)
        requires
            0 <= frame.width <= 0xFFFF_FFFF,
            0 <= frame.height <= 0xFFFF_FFFF,
    ;
    let expected: u128 = (frame.width as u128) * (frame.height as u128) * 4;
    if expected > u32::MAX as u128 {
        return false;
    }
    frame.bytes.len() as u128 == expected
}


/// The ranges of the timeline for which a preview is known to be loaded,
/// in ascending order, no two touching.
#[derive(Debug, Clone, PartialEq, Eq)]
pub struct LoadedRanges {
    ranges: Vec<(i64, i64)>,
}

/// Every range holds a tick, and each ends before the next begins.
pub open spec fn ranges_wf(ranges: Seq<(i64, i64)>) -> bool {
    &&& forall|i: int| 0 <= i < ranges.len() ==> (#[trigger] ranges[i]).0 < ranges[i].1
    &&& forall|i: int, j: int|
        0 <= i < j < ranges.len() ==> (#[trigger] ranges[i]).1 < (#[trigger] ranges[j]).0
}

/// Whether tick `t` lies in one of the ranges.
pub open spec fn covered(ranges: Seq<(i64, i64)>, t: int) -> bool {
    exists|i: int| 0 <= i < ranges.len() && (#[trigger] ranges[i]).0 <= t < ranges[i].1
}

/// Index of the first range at or after `from` that ends at `start` or
/// later.
pub open spec fn first_reaching(ranges: Seq<(i64, i64)>, start: i64, from: int) -> int
    decreases ranges.len() - from,
{
    if from < 0 || from >= ranges.len() {
        ranges.len() as int
    } else if ranges[from].1 >= start {
        from
    } else {
        first_reaching(ranges, start, from + 1)
    }
}

/// Index of the first range at or after `from` that begins after `end`.
pub open spec fn first_beyond(ranges: Seq<(i64, i64)>, end: i64, from: int) -> int
    decreases ranges.len() - from,
{
    if from < 0 || from >= ranges.len() {
        ranges.len() as int
    } else if ranges[from].0 > end {
        from
    } else {
        first_beyond(ranges, end, from + 1)
    }
}

/// The ranges after `[start, end)` was added: the ranges that it overlaps
/// or touches become one range with it.
pub open spec fn merge_range(ranges: Seq<(i64, i64)>, start: i64, end: i64) -> Seq<(i64, i64)> {
    if start >= end {
        ranges
    } else {
        let lo = first_reaching(ranges, start, 0);
        let hi = first_beyond(ranges, end, lo);
        let merged = if lo < hi {
            (
                if ranges[lo].0 < start {
                    ranges[lo].0
                } else {
                    start
                },
                if ranges[hi - 1].1 > end {
                    ranges[hi - 1].1
                } else {
                    end
                },
            )
        } else {
            (start, end)
        };
        ranges.subrange(0, lo).push(merged) + ranges.subrange(hi, ranges.len() as int)
    }
}

/// What `first_reaching` finds.
pub proof fn lemma_first_reaching(ranges: Seq<(i64, i64)>, start: i64, from: int)
    requires
        0 <= from <= ranges.len(),
    ensures
        from <= first_reaching(ranges, start, from) <= ranges.len(),
        forall|i: int|
            from <= i < first_reaching(ranges, start, from) ==> (#[trigger] ranges[i]).1 < start,
        first_reaching(ranges, start, from) < ranges.len() ==> ranges[first_reaching(
            ranges,
            start,
            from,
        )].1 >= start,
    decreases ranges.len() - from,
{
    if from < ranges.len() && ranges[from].1 < start {
        lemma_first_reaching(ranges, start, from + 1);
    }
}

/// What `first_beyond` finds.
pub proof fn lemma_first_beyond(ranges: Seq<(i64, i64)>, end: i64, from: int)
    requires
        0 <= from <= ranges.len(),
    ensures
        from <= first_beyond(ranges, end, from) <= ranges.len(),
        forall|i: int|
            from <= i < first_beyond(ranges, end, from) ==> (#[trigger] ranges[i]).0 <= end,
        first_beyond(ranges, end, from) < ranges.len() ==> ranges[first_beyond(
            ranges,
            end,
            from,
        )].0 > end,
    decreases ranges.len() - from,
{
    if from < ranges.len() && ranges[from].0 <= end {
        lemma_first_beyond(ranges, end, from + 1);
    }
}

/// Adding a range keeps the ranges in order and apart, and afterwards
/// exactly the ticks are covered that were covered before or lie in the
/// added range.
pub proof fn lemma_merge_range(ranges: Seq<(i64, i64)>, start: i64, end: i64)
    requires
        ranges_wf(ranges),
    ensures
        ranges_wf(merge_range(ranges, start, end)),
        forall|t: int|
            covered(merge_range(ranges, start, end), t) <==> (covered(ranges, t) || start <= t
                < end),
{
    let after = merge_range(ranges, start, end);
    if start < end {
        let lo = first_reaching(ranges, start, 0);
        lemma_first_reaching(ranges, start, 0);
        let hi = first_beyond(ranges, end, lo);
        lemma_first_beyond(ranges, end, lo);
        let merged = after[lo];
        assert(after.len() == lo + 1 + ranges.len() - hi);
        assert forall|k: int| 0 <= k < after.len() implies (#[trigger] after[k]).0 < after[k].1 by {
            if k < lo {
                assert(after[k] == ranges[k]);
            } else if k > lo {
                assert(after[k] == ranges[k - lo - 1 + hi]);
            } else if lo < hi {
                assert(ranges[lo].0 < ranges[lo].1);
                assert(ranges[hi - 1].0 < ranges[hi - 1].1);
            }
        }
        assert forall|k: int, l: int| 0 <= k < l < after.len() implies (#[trigger] after[k]).1 < (
        #[trigger] after[l]).0 by {
            if l < lo {
                assert(after[k] == ranges[k] && after[l] == ranges[l]);
            } else if k > lo {
                assert(after[k] == ranges[k - lo - 1 + hi]);
                assert(after[l] == ranges[l - lo - 1 + hi]);
            } else if l == lo {
                assert(after[k] == ranges[k]);
                assert(ranges[k].1 < start);
                if lo < hi {
                    assert(ranges[k].1 < ranges[lo].0);
                }
            } else if k == lo {
                let o = l - lo - 1 + hi;
                assert(after[l] == ranges[o]);
                if hi < ranges.len() {
                    assert(ranges[hi].0 > end);
                    if hi < o {
                        assert(ranges[hi].1 < ranges[o].0);
                        assert(ranges[hi].0 < ranges[hi].1);
                    }
                }
                if lo < hi {
                    assert(ranges[hi - 1].1 < ranges[o].0);
                }
            } else {
                let o = l - lo - 1 + hi;
                assert(after[k] == ranges[k]);
                assert(after[l] == ranges[o]);
                assert(ranges[k].1 < ranges[o].0);
            }
        }
        assert forall|t: int| covered(after, t) <==> (covered(ranges, t) || start <= t < end) by {
            if covered(after, t) {
                let k = choose|k: int| 0 <= k < after.len() && (#[trigger] after[k]).0 <= t
                    < after[k].1;
                if k < lo {
                    assert(after[k] == ranges[k]);
                } else if k > lo {
                    assert(after[k] == ranges[k - lo - 1 + hi]);
                } else if !(start <= t < end) {
                    // The tick lies in what the merged range took from its
                    // first or its last part.
                    if t < start {
                        assert(ranges[lo].0 <= t);
                        assert(ranges[lo].1 >= start);
                        assert(ranges[lo].0 <= t < ranges[lo].1);
                    } else {
                        assert(t < ranges[hi - 1].1);
                        assert(ranges[hi - 1].0 <= end);
                        assert(ranges[hi - 1].0 <= t < ranges[hi - 1].1);
                    }
                }
            }
            if start <= t < end {
                assert(after[lo].0 <= t < after[lo].1);
            }
            if covered(ranges, t) {
                let o = choose|o: int| 0 <= o < ranges.len() && (#[trigger] ranges[o]).0 <= t
                    < ranges[o].1;
                if o < lo {
                    assert(after[o] == ranges[o]);
                    assert(after[o].0 <= t < after[o].1);
                } else if o >= hi {
                    assert(after[o - hi + lo + 1] == ranges[o]);
                    assert(after[o - hi + lo + 1].0 <= t < after[o - hi + lo + 1].1);
                } else {
                    assert(ranges[o].0 <= end);
                    assert(ranges[o].1 >= start);
                    if o > lo {
                        assert(ranges[lo].1 < ranges[o].0);
                        assert(ranges[lo].0 < ranges[lo].1);
                    }
                    if o < hi - 1 {
                        assert(ranges[o].1 < ranges[hi - 1].0);
                        assert(ranges[hi - 1].0 < ranges[hi - 1].1);
                    }
                    assert(after[lo].0 <= t < after[lo].1);
                }
            }
        }
    }
}

impl View for LoadedRanges {
    type V = Seq<(i64, i64)>;

    closed spec fn view(&self) -> Seq<(i64, i64)> {
        self.ranges@
    }
}

impl LoadedRanges {
    /// The ranges are in order and apart.
    pub closed spec fn wf(&self) -> bool {
        ranges_wf(self.ranges@)
    }

    /// Creates an empty list.
    pub fn new() -> (out: Self)
        ensures
            out.wf(),
            out@ == Seq::<(i64, i64)>::empty(),
    {
        LoadedRanges { ranges: Vec::new() }
    }

    /// Forgets every range.
    pub fn clear(&mut self)
        ensures
            final(self).wf(),
            final(self)@ == Seq::<(i64, i64)>::empty(),
    {
        self.ranges.clear();
    }

    /// The ranges, in ascending order.
    pub fn as_slice(&self) -> (out: &[(i64, i64)])
        ensures
            out@ == self@,
    {
        self.ranges.as_slice()
    }

    /// Adds the range `[start_tl, end_tl)` and tells whether the list
    /// changed. An empty range and a range that one range of the list
    /// holds change nothing.
    pub fn add(&mut self, start_tl: i64, end_tl: i64) -> (out: bool)
        requires
            old(self).wf(),
        ensures
            final(self).wf(),
            final(self)@ == merge_range(old(self)@, start_tl, end_tl),
            out == (final(self)@ != old(self)@),
            forall|t: int|
                covered(final(self)@, t) <==> (covered(old(self)@, t) || start_tl <= t < end_tl),
    {
        proof {
            lemma_merge_range(self.ranges@, start_tl, end_tl);
        }
        merge_into(&mut self.ranges, start_tl, end_tl)
    }
}

/// Merges the range `[start_tl, end_tl)` into a list of ranges and tells
/// whether the list changed.
#[verifier::spinoff_prover]
fn merge_into(ranges: &mut Vec<(i64, i64)>, start_tl: i64, end_tl: i64) -> (out: bool)
    requires
        ranges_wf(old(ranges)@),
    ensures
        final(ranges)@ == merge_range(old(ranges)@, start_tl, end_tl),
        out == (final(ranges)@ != old(ranges)@),
{
    let ghost before = ranges@;
    if start_tl >= end_tl {
        return false;
    }
    let mut index: usize = 0;
    proof {
        lemma_first_reaching(before, start_tl, 0);
    }
    while index < ranges.len() && ranges[index].1 < start_tl
        invariant
            ranges@ == before,
            index <= before.len(),
            first_reaching(before, start_tl, 0) == first_reaching(
                before,
                start_tl,
                index as int,
            ),
        decreases before.len() - index,
    {
        index += 1;
    }
    let lo = index;
    proof {
        lemma_first_beyond(before, end_tl, lo as int);
    }
    if index < ranges.len() && ranges[index].0 <= start_tl && ranges[index].1
        >= end_tl {
        proof {
            let hi = first_beyond(before, end_tl, lo as int);
            if lo + 1 < before.len() {
                assert(before[lo as int].1 < before[lo + 1].0);
            }
            assert(hi == lo + 1);
            assert(merge_range(before, start_tl, end_tl) =~= before);
        }
        return false;
    }
    let mut merged_start = start_tl;
    let mut merged_end = end_tl;
    let ghost mut taken: int = 0;
    while index < ranges.len() && ranges[index].0 <= merged_end
        invariant
            ranges_wf(before),
            index == lo,
            0 <= taken,
            lo + taken <= before.len(),
            start_tl < end_tl,
            ranges@ == before.subrange(0, lo as int) + before.subrange(
                lo + taken,
                before.len() as int,
            ),
            first_beyond(before, end_tl, lo as int) == first_beyond(
                before,
                end_tl,
                lo + taken,
            ),
            taken == 0 ==> merged_start == start_tl && merged_end == end_tl,
            taken > 0 ==> merged_start == (if before[lo as int].0 < start_tl {
                before[lo as int].0
            } else {
                start_tl
            }) && merged_end == (if before[lo + taken - 1].1 > end_tl {
                before[lo + taken - 1].1
            } else {
                end_tl
            }),
        decreases before.len() - lo - taken,
    {
        let range = ranges[index];
        proof {
            assert(range == before[lo + taken]);
            if taken > 0 {
                assert(before[lo + taken - 1].1 < before[lo + taken].0);
                assert(before[lo as int].1 < before[lo + taken].0);
                assert(before[lo as int].0 < before[lo as int].1);
            }
            assert(range.0 <= end_tl);
        }
        if range.0 < merged_start {
            merged_start = range.0;
        }
        if range.1 > merged_end {
            merged_end = range.1;
        }
        let _ = ranges.remove(index);
        proof {
            taken = taken + 1;
        }
        assert(ranges@ =~= before.subrange(0, lo as int) + before.subrange(
            lo + taken,
            before.len() as int,
        ));
    }
    proof {
        let hi = first_beyond(before, end_tl, lo as int);
        if lo + taken < before.len() {
            assert(ranges@[lo as int] == before[lo + taken]);
            if taken > 0 {
                assert(before[lo + taken - 1].1 < before[lo + taken].0);
            }
            assert(before[lo + taken].0 > end_tl);
        }
        assert(hi == lo + taken);
    }
    ranges.insert(index, (merged_start, merged_end));
    assert(ranges@ =~= merge_range(before, start_tl, end_tl));
    proof {
        // A list that stayed as it was would hold the range in one of its
        // ranges, which was ruled out above.
        if ranges@ == before {
            assert(ranges@.len() == before.len());
            assert(taken == 1);
            assert(ranges@[lo as int] == before[lo as int]);
        }
    }
    true
}

} // verus!
