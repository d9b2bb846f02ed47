//! The command and event surface of the engine.

use vstd::prelude::*;
use crate::cache::{CacheSlot, PreviewFrameCache, bucket_of, find_slot, get_model, insert_model};
use crate::error::EngineError;
use crate::export::{build_video_export_plan, export_plan_spec};
use crate::preview::{MediaBackend, PreviewFrame, ProbedMedia};
use crate::project::{
    MediaAsset, PreviewRequest, Project, ProjectSettings, ProjectView, asset_summary,
    normalize_playhead, normalize_playhead_spec, preview_outcome, probe_error,
    project_split_outcome, segment_summary, single_asset, single_segment, edit_target,
    move_model, trim_end_model, trim_start_model, assets_wf,
};
use crate::time::{Rational, rescale, rescale_spec, spec_timeline_time_base, timeline_time_base};
use crate::timeline::{Segment, cut_model, cut_target, duration_of, find_id};

verus! {

/// Immutable project snapshot consumed by the UI.
#[derive(Debug, Clone, PartialEq, Eq)]
pub struct ProjectSnapshot {
    pub assets: Vec<MediaAssetSummary>,
    pub segments: Vec<SegmentSummary>,
    pub duration_tl: i64,
    pub preview_bucket_tl: i64,
}

/// Snapshot representation of one media asset.
#[derive(Debug, PartialEq, Eq)]
pub struct MediaAssetSummary {
    pub id: u64,
    pub path: String,
    pub has_video: bool,
    pub has_audio: bool,
    pub duration_tl: i64,
}

impl Clone for MediaAssetSummary {
    fn clone(&self) -> (out: Self)
        ensures
            out == *self,
    {
        MediaAssetSummary {
            id: self.id,
            path: self.path.clone(),
            has_video: self.has_video,
            has_audio: self.has_audio,
            duration_tl: self.duration_tl,
        }
    }
}

/// Snapshot representation of one timeline segment.
#[derive(Debug, Clone, Copy, PartialEq, Eq)]
pub struct SegmentSummary {
    pub id: u64,
    pub asset_id: u64,
    pub timeline_start: i64,
    pub timeline_duration: i64,
    pub src_in_video: Option<i64>,
    pub src_out_video: Option<i64>,
    pub src_in_audio: Option<i64>,
    pub src_out_audio: Option<i64>,
}

/// Number of frames the engine's preview cache holds.
pub const PREVIEW_CACHE_CAPACITY: usize = 96;

/// Bucket width of the preview cache before a project is loaded, and for a
/// project without video.
pub const DEFAULT_PREVIEW_CACHE_BUCKET_TL: i64 = 33_333;

/// How many buckets ahead a prefetch looks while the user scrubs in one
/// direction.
pub const PREFETCH_RADIUS_DIRECTIONAL: i64 = 18;

/// How many buckets to either side a prefetch looks while the playhead
/// rests.
pub const PREFETCH_RADIUS_IDLE: i64 = 120;

/// Commands accepted by the engine.
#[derive(Debug, Clone, PartialEq, Eq)]
pub enum Command {
    Import { path: String },
    SetPlayhead { t_tl: i64 },
    /// Splits the segment at `at_tl` in timeline ticks.
    Split { at_tl: i64 },
    /// Cuts the segment at `at_tl` in timeline ticks.
    Cut { at_tl: i64 },
    /// Moves one segment to `new_start_tl` in timeline ticks.
    MoveSegment { segment_id: u64, new_start_tl: i64 },
    /// Trims one segment start to `new_start_tl` in timeline ticks.
    TrimSegmentStart { segment_id: u64, new_start_tl: i64 },
    /// Trims one segment end to `new_end_tl`, an exclusive boundary.
    TrimSegmentEnd { segment_id: u64, new_end_tl: i64 },
    Export { path: String, settings: ExportSettings },
    /// Does nothing: an export runs to its end once it was started.
    CancelExport,
}

/// Events emitted by the engine.
#[derive(Debug, Clone, PartialEq, Eq)]
pub enum Event {
    ProjectChanged(ProjectSnapshot),
    PlayheadChanged { t_tl: i64 },
    PreviewFrameReady { t_tl: i64, frame: PreviewFrame },
    ExportProgress { done: u64, total: u64 },
    ExportFinished { path: String },
    Error(EngineErrorEvent),
}

/// What kind of failure an error event reports.
#[derive(Debug, Clone, Copy, PartialEq, Eq)]
pub enum EngineErrorKind {
    SplitPointAtBoundary,
    SegmentNotFound,
    Other,
}

/// User-facing error payload emitted as an event.
#[derive(Debug, Clone, PartialEq, Eq)]
pub struct EngineErrorEvent {
    pub kind: EngineErrorKind,
    pub message: String,
}

/// Export settings.
#[derive(Debug, Clone, Copy, PartialEq, Eq)]
pub struct ExportSettings {}

impl Default for ExportSettings {
    fn default() -> (out: Self) {
        ExportSettings {  }
    }
}

/// The way the playhead moved on the source clock between two requests.
#[derive(Debug, Clone, Copy, PartialEq, Eq)]
pub enum ScrubDirection {
    Forward,
    Backward,
    Unknown,
}

/// The last preview that was shown, and how the playhead had moved to it.
#[derive(Debug, PartialEq, Eq)]
pub struct LastPreviewTarget {
    pub path: String,
    pub source_tl: i64,
    pub direction: ScrubDirection,
}

impl EngineErrorKind {
    /// The kind under which `error` is reported.
    pub open spec fn of(error: EngineError) -> EngineErrorKind {
        match error {
            EngineError::SplitPointAtBoundary { .. } => EngineErrorKind::SplitPointAtBoundary,
            EngineError::SegmentNotFound { .. } => EngineErrorKind::SegmentNotFound,
            _ => EngineErrorKind::Other,
        }
    }

    /// The kind under which `error` is reported.
    pub fn from_error(error: &EngineError) -> (out: Self)
        ensures
            out == Self::of(*error),
    {
        match error {
            EngineError::SplitPointAtBoundary { .. } => EngineErrorKind::SplitPointAtBoundary,
            EngineError::SegmentNotFound { .. } => EngineErrorKind::SegmentNotFound,
            _ => EngineErrorKind::Other,
        }
    }
}

impl<'a> From<&'a EngineError> for EngineErrorKind {
    fn from(value: &'a EngineError) -> (out: Self) {
        EngineErrorKind::from_error(value)
    }
}

impl<'a> vstd::std_specs::convert::FromSpecImpl<&'a EngineError> for EngineErrorKind {
    open spec fn obeys_from_spec() -> bool {
        true
    }

    open spec fn from_spec(value: &'a EngineError) -> Self {
        EngineErrorKind::of(*value)
    }
}

impl EngineErrorEvent {
    /// The event payload that reports `error`: its kind and its text.
    pub fn from_error(error: &EngineError) -> (out: Self)
        ensures
            out.kind == EngineErrorKind::of(*error),
            out.message@ == error.message_text(),
    {
        EngineErrorEvent { kind: EngineErrorKind::from_error(error), message: error.message() }
    }
}

/// The bucket offsets that a prefetch tries, in order: the next buckets in
/// the scrub direction, as far as the directional radius, or, when the
/// direction is unknown, the buckets on either side as far as the idle
/// radius, nearest first and the later side before the earlier one.
pub open spec fn prefetch_offsets_spec(direction: ScrubDirection) -> Seq<i64> {
    match direction {
        ScrubDirection::Forward => Seq::new(
            PREFETCH_RADIUS_DIRECTIONAL as nat,
            |k: int| (k + 1) as i64,
        ),
        ScrubDirection::Backward => Seq::new(
            PREFETCH_RADIUS_DIRECTIONAL as nat,
            |k: int| (-(k + 1)) as i64,
        ),
        ScrubDirection::Unknown => Seq::new(
            (2 * PREFETCH_RADIUS_IDLE) as nat,
            |k: int|
                if k % 2 == 0 {
                    (k / 2 + 1) as i64
                } else {
                    (-(k / 2 + 1)) as i64
                },
        ),
    }
}

/// Lists the bucket offsets that a prefetch tries, in order.
pub fn prefetch_offsets(direction: ScrubDirection) -> (out: Vec<i64>)
    ensures
        out@ == prefetch_offsets_spec(direction),
{
    let mut offsets: Vec<i64> = Vec::new();
    match direction {
        ScrubDirection::Forward => {
            let mut step: i64 = 1;
            while step <= PREFETCH_RADIUS_DIRECTIONAL
                invariant
                    1 <= step <= PREFETCH_RADIUS_DIRECTIONAL + 1,
                    offsets@.len() == step - 1,
                    forall|k: int| 0 <= k < offsets@.len() ==> offsets@[k] == k + 1,
                decreases PREFETCH_RADIUS_DIRECTIONAL + 1 - step,
            {
                offsets.push(step);
                step += 1;
            }
        },
        ScrubDirection::Backward => {
            let mut step: i64 = 1;
            while step <= PREFETCH_RADIUS_DIRECTIONAL
                invariant
                    1 <= step <= PREFETCH_RADIUS_DIRECTIONAL + 1,
                    offsets@.len() == step - 1,
                    forall|k: int| 0 <= k < offsets@.len() ==> offsets@[k] == -(k + 1),
                decreases PREFETCH_RADIUS_DIRECTIONAL + 1 - step,
            {
                offsets.push(-step);
                step += 1;
            }
        },
        ScrubDirection::Unknown => {
            let mut step: i64 = 1;
            while step <= PREFETCH_RADIUS_IDLE
                invariant
                    1 <= step <= PREFETCH_RADIUS_IDLE + 1,
                    offsets@.len() == 2 * (step - 1),
                    forall|k: int|
                        0 <= k < offsets@.len() ==> offsets@[k] == (if k % 2 == 0 {
                            k / 2 + 1
                        } else {
                            -(k / 2 + 1)
                        }),
                decreases PREFETCH_RADIUS_IDLE + 1 - step,
            {
                offsets.push(step);
                offsets.push(-step);
                step += 1;
            }
        },
    }
    assert(offsets@ =~= prefetch_offsets_spec(direction));
    offsets
}

/// The duration of one frame in timeline ticks, rounded to nearest and at
/// least one tick. A rate without a positive denominator gives one tick;
/// a numerator under one counts as one.
pub open spec fn frame_duration_tl_spec(frame_rate: Rational) -> int {
    if frame_rate.den <= 0 {
        1
    } else {
        let d: int = if frame_rate.num < 1 {
            1
        } else {
            frame_rate.num as int
        };
        let rounded = (1_000_000 * frame_rate.den + d / 2) / d;
        if rounded < 1 {
            1
        } else {
            rounded
        }
    }
}

/// Computes the duration of one frame in timeline ticks.
pub fn frame_duration_tl_from_frame_rate(frame_rate: Rational) -> (out: i64)
    ensures
        out == frame_duration_tl_spec(frame_rate),
        out >= 1,
{
    if frame_rate.den <= 0 {
        return 1;
    }
    let numerator: i128 = 1_000_000i128 * (frame_rate.den as i128);
    let denominator: i128 = if frame_rate.num < 1 {
        1
    } else {
        frame_rate.num as i128
    };
    let rounded: i128 = (numerator + denominator / 2) / denominator;
    proof {
        let n = numerator + denominator / 2;
        vstd::arithmetic::div_mod::lemma_div_pos_is_pos(n as int, denominator as int);
        vstd::arithmetic::div_mod::lemma_div_is_ordered_by_denominator(
            n as int,
            1,
            denominator as int,
        );
    }
    if rounded < 1 {
        1
    } else {
        rounded as i64
    }
}

/// The bucket width that one asset asks for: the duration of one video
/// frame where the frame rate is known, else one tick of the video clock,
/// and at least one timeline tick. An asset without video asks for none.
pub open spec fn asset_bucket_tl(asset: MediaAsset) -> Option<int> {
    match asset.video {
        None => None,
        Some(video) => Some(
            match video.frame_rate {
                Some(frame_rate) => frame_duration_tl_spec(frame_rate),
                None => {
                    let tick = rescale_spec(1, video.time_base, spec_timeline_time_base());
                    if tick < 1 {
                        1
                    } else {
                        tick
                    }
                },
            },
        ),
    }
}

/// The smallest bucket width asked for by the first `n` assets.
pub open spec fn smallest_bucket_tl(assets: Seq<MediaAsset>, n: int) -> Option<int>
    decreases n,
{
    if n <= 0 {
        None
    } else {
        let before = smallest_bucket_tl(assets, n - 1);
        match asset_bucket_tl(assets[n - 1]) {
            None => before,
            Some(bucket) => match before {
                None => Some(bucket),
                Some(least) => Some(
                    if bucket < least {
                        bucket
                    } else {
                        least
                    },
                ),
            },
        }
    }
}

/// The bucket width of the preview cache for a project: the smallest width
/// that an asset with video asks for, or the default without such an asset.
pub open spec fn preview_bucket_tl_spec(assets: Seq<MediaAsset>) -> int {
    match smallest_bucket_tl(assets, assets.len() as int) {
        Some(bucket) => bucket,
        None => DEFAULT_PREVIEW_CACHE_BUCKET_TL as int,
    }
}

/// Derives the preview cache's bucket width from a project's assets.
pub fn preview_bucket_tl_for_project(project: &Project) -> (out: i64)
    requires
        assets_wf(project.assets@),
    ensures
        out == preview_bucket_tl_spec(project.assets@),
        out >= 1,
{
    let mut derived: Option<i64> = None;
    let mut i: usize = 0;
    while i < project.assets.len()
        invariant
            assets_wf(project.assets@),
            i <= project.assets@.len(),
            match smallest_bucket_tl(project.assets@, i as int) {
                Some(bucket) => derived == Some(bucket as i64) && 1 <= bucket <= i64::MAX,
                None => derived is None,
            },
        decreases project.assets@.len() - i,
    {
        let asset = &project.assets[i];
        assert(project.assets@[i as int].wf());
        if let Some(video) = asset.video {
            let bucket_tl = match video.frame_rate {
                Some(frame_rate) => frame_duration_tl_from_frame_rate(frame_rate),
                None => {
                    let tick = rescale(1, video.time_base, timeline_time_base());
                    if tick < 1 {
                        1
                    } else {
                        tick
                    }
                },
            };
            derived = match derived {
                None => Some(bucket_tl),
                Some(current) => Some(
                    if bucket_tl < current {
                        bucket_tl
                    } else {
                        current
                    },
                ),
            };
        }
        i += 1;
    }
    match derived {
        Some(bucket) => bucket,
        None => DEFAULT_PREVIEW_CACHE_BUCKET_TL,
    }
}


/// The last preview target, with its path as a character sequence.
pub struct PreviewTargetView {
    pub path: Seq<char>,
    pub source_tl: i64,
    pub direction: ScrubDirection,
}

/// The state of an engine: what its commands read and change.
pub struct EngineView {
    pub project: Option<ProjectView>,
    pub playhead_tl: i64,
    pub next_asset_id: u64,
    pub next_segment_id: u64,
    /// Cached frames, least recently used first.
    pub cache: Seq<CacheSlot>,
    pub cache_capacity: int,
    pub cache_bucket_tl: i64,
    pub last_preview: Option<PreviewTargetView>,
}

/// Engine implementation for import, scrub, edit and export commands.
#[derive(Debug)]
pub struct Engine<M> {
    media: M,
    project: Option<Project>,
    playhead_tl: i64,
    next_asset_id: u64,
    next_segment_id: u64,
    preview_cache: PreviewFrameCache,
    last_preview: Option<LastPreviewTarget>,
}

/// The state of an engine that was just created.
pub open spec fn initial_engine_view() -> EngineView {
    EngineView {
        project: None,
        playhead_tl: 0,
        next_asset_id: 1,
        next_segment_id: 1,
        cache: Seq::empty(),
        cache_capacity: PREVIEW_CACHE_CAPACITY as int,
        cache_bucket_tl: DEFAULT_PREVIEW_CACHE_BUCKET_TL,
        last_preview: None,
    }
}

/// `event` announces the project `project` with bucket width `bucket_tl`:
/// it carries one summary per asset and per segment, in their order, and
/// the project's duration.
pub open spec fn is_project_changed(event: Event, project: ProjectView, bucket_tl: i64) -> bool {
    &&& event is ProjectChanged
    &&& event->ProjectChanged_0.assets@ == project.assets.map_values(
        |a: MediaAsset| asset_summary(a),
    )
    &&& event->ProjectChanged_0.segments@ == project.segments.map_values(
        |s: Segment| segment_summary(s),
    )
    &&& event->ProjectChanged_0.duration_tl == duration_of(project.segments)
    &&& event->ProjectChanged_0.preview_bucket_tl == bucket_tl
}

/// The events of an edit that was applied: one announcement of the project
/// as it is afterwards.
pub open spec fn announces(events: Seq<Event>, after: EngineView) -> bool {
    &&& events.len() == 1
    &&& after.project is Some
    &&& is_project_changed(events[0], after.project->0, after.cache_bucket_tl)
}

/// The state after an edit put `segments` on the timeline: the cache is
/// empty and no preview counts as the last one.
pub open spec fn after_edit(
    before: EngineView,
    segments: Seq<Segment>,
    playhead_tl: i64,
    next_segment_id: u64,
) -> EngineView {
    EngineView {
        project: Some(ProjectView { segments, ..before.project->0 }),
        playhead_tl,
        next_segment_id,
        cache: Seq::empty(),
        last_preview: None,
        ..before
    }
}

/// The playhead position that `t_tl` stands for on a timeline with
/// `segments`.
pub open spec fn playhead_on(segments: Seq<Segment>, t_tl: i64) -> i64 {
    normalize_playhead_spec(t_tl as int, duration_of(segments)) as i64
}

/// What a split command does to the state. The new segment gets the next
/// segment id, which is used up only when the split is applied.
pub open spec fn split_step(before: EngineView, at_tl: i64) -> Result<EngineView, EngineError> {
    match before.project {
        None => Err(EngineError::ProjectNotLoaded),
        Some(project) => if before.next_segment_id == u64::MAX {
            Err(EngineError::IdSpaceExhausted)
        } else {
            match project_split_outcome(
                project.assets,
                project.segments,
                at_tl,
                before.next_segment_id,
            ) {
                Err(e) => Err(e),
                Ok(segments) => Ok(
                    after_edit(
                        before,
                        segments,
                        before.playhead_tl,
                        (before.next_segment_id + 1) as u64,
                    ),
                ),
            }
        },
    }
}

/// What a cut command does to the state.
pub open spec fn cut_step(before: EngineView, at_tl: i64) -> Result<EngineView, EngineError> {
    match before.project {
        None => Err(EngineError::ProjectNotLoaded),
        Some(project) => match cut_target(project.segments, at_tl as int) {
            None => Err(EngineError::SegmentNotFound { at_tl }),
            Some(i) => {
                let segments = cut_model(project.segments, i);
                Ok(
                    after_edit(
                        before,
                        segments,
                        playhead_on(segments, before.playhead_tl),
                        before.next_segment_id,
                    ),
                )
            },
        },
    }
}

/// What a move command does to the state.
pub open spec fn move_step(before: EngineView, segment_id: u64, new_start_tl: i64) -> Result<
    EngineView,
    EngineError,
> {
    match before.project {
        None => Err(EngineError::ProjectNotLoaded),
        Some(project) => match find_id(project.segments, segment_id) {
            None => Err(EngineError::SegmentIdNotFound { segment_id }),
            Some(i) => {
                let segments = move_model(project.segments, i, new_start_tl as int);
                Ok(
                    after_edit(
                        before,
                        segments,
                        playhead_on(segments, before.playhead_tl),
                        before.next_segment_id,
                    ),
                )
            },
        },
    }
}

/// What a command that trims a segment's start does to the state.
pub open spec fn trim_start_step(before: EngineView, segment_id: u64, new_start_tl: i64) -> Result<
    EngineView,
    EngineError,
> {
    match before.project {
        None => Err(EngineError::ProjectNotLoaded),
        Some(project) => match edit_target(project.assets, project.segments, segment_id) {
            Err(e) => Err(e),
            Ok((i, a)) => {
                let segments = trim_start_model(
                    project.segments,
                    i,
                    new_start_tl as int,
                    project.assets[a].spec_video_time_base(),
                    project.assets[a].spec_audio_time_base(),
                );
                Ok(
                    after_edit(
                        before,
                        segments,
                        playhead_on(segments, before.playhead_tl),
                        before.next_segment_id,
                    ),
                )
            },
        },
    }
}

/// What a command that trims a segment's end does to the state.
pub open spec fn trim_end_step(before: EngineView, segment_id: u64, new_end_tl: i64) -> Result<
    EngineView,
    EngineError,
> {
    match before.project {
        None => Err(EngineError::ProjectNotLoaded),
        Some(project) => match edit_target(project.assets, project.segments, segment_id) {
            Err(e) => Err(e),
            Ok((i, a)) => {
                let segments = trim_end_model(
                    project.segments,
                    i,
                    new_end_tl as int,
                    project.assets[a].spec_video_time_base(),
                    project.assets[a].spec_audio_time_base(),
                );
                Ok(
                    after_edit(
                        before,
                        segments,
                        playhead_on(segments, before.playhead_tl),
                        before.next_segment_id,
                    ),
                )
            },
        },
    }
}

/// What an import of the probe result `probed` does to the state: the new
/// project replaces the old one, the playhead goes to zero, the cache is
/// emptied and gets the project's bucket width, and one asset id and one
/// segment id are used up. A probe result that cannot become a project
/// changes nothing.
pub open spec fn import_step(before: EngineView, probed: ProbedMedia) -> Result<
    EngineView,
    EngineError,
> {
    if before.next_asset_id == u64::MAX || before.next_segment_id == u64::MAX {
        Err(EngineError::IdSpaceExhausted)
    } else {
        match probe_error(probed) {
            Some(e) => Err(e),
            None => {
                let assets = seq![single_asset(before.next_asset_id, probed)];
                Ok(
                    EngineView {
                        project: Some(
                            ProjectView {
                                assets,
                                segments: seq![
                                    single_segment(
                                        before.next_asset_id,
                                        before.next_segment_id,
                                        probed,
                                    ),
                                ],
                                settings: ProjectSettings { export_settings: None },
                            },
                        ),
                        playhead_tl: 0,
                        next_asset_id: (before.next_asset_id + 1) as u64,
                        next_segment_id: (before.next_segment_id + 1) as u64,
                        cache: Seq::empty(),
                        cache_capacity: before.cache_capacity,
                        cache_bucket_tl: preview_bucket_tl_spec(assets) as i64,
                        last_preview: None,
                    },
                )
            },
        }
    }
}

/// The events of an import that was applied: the new project, then the
/// playhead at zero.
pub open spec fn import_events(events: Seq<Event>, after: EngineView) -> bool {
    &&& events.len() == 2
    &&& after.project is Some
    &&& is_project_changed(events[0], after.project->0, after.cache_bucket_tl)
    &&& events[1] == Event::PlayheadChanged { t_tl: 0 }
}

/// The events of an export that rendered `total` segments into `path`.
pub open spec fn export_events(events: Seq<Event>, total: int, path: Seq<char>) -> bool {
    &&& events.len() == 2
    &&& events[0] == Event::ExportProgress { done: total as u64, total: total as u64 }
    &&& events[1] is ExportFinished
    &&& events[1]->ExportFinished_path@ == path
}

/// How the playhead moved from the last preview to a request for
/// `source_tl` of `path`, going by the two positions alone.
pub open spec fn raw_direction(last: Option<PreviewTargetView>, path: Seq<char>, source_tl: i64) -> ScrubDirection {
    match last {
        None => ScrubDirection::Unknown,
        Some(previous) => if previous.path != path {
            ScrubDirection::Unknown
        } else if source_tl > previous.source_tl {
            ScrubDirection::Forward
        } else if source_tl < previous.source_tl {
            ScrubDirection::Backward
        } else {
            ScrubDirection::Unknown
        },
    }
}

/// The scrub direction that a prefetch goes by: the way the playhead
/// moved, unless it had been moving the other way before, which counts as
/// no direction.
pub open spec fn scrub_direction_spec(last: Option<PreviewTargetView>, path: Seq<char>, source_tl: i64) -> ScrubDirection {
    let raw = raw_direction(last, path, source_tl);
    if raw != ScrubDirection::Unknown && last->0.direction != ScrubDirection::Unknown
        && last->0.direction != raw {
        ScrubDirection::Unknown
    } else {
        raw
    }
}

/// The source position that a prefetch at bucket offset `offset` from
/// `source_tl` decodes, if it decodes one: the position must fit in `i64`,
/// must not be negative and must not be cached.
pub open spec fn prefetch_candidate_spec(
    cache: Seq<CacheSlot>,
    bucket_tl: i64,
    path: Seq<char>,
    source_tl: i64,
    offset: i64,
) -> Option<i64> {
    let delta = bucket_tl * offset;
    let target = source_tl + delta;
    if delta < i64::MIN || delta > i64::MAX || target > i64::MAX || target < 0 {
        None
    } else if find_slot(cache, path, bucket_of(target, bucket_tl as int)) is Some {
        None
    } else {
        Some(target as i64)
    }
}

/// The state after a prefetch at bucket offset `offset` stored `frame`, if
/// that offset gives a position to decode.
pub open spec fn prefetched_with(
    before: EngineView,
    path: Seq<char>,
    source_tl: i64,
    offset: i64,
    frame: PreviewFrame,
) -> Option<EngineView> {
    match prefetch_candidate_spec(before.cache, before.cache_bucket_tl, path, source_tl, offset) {
        None => None,
        Some(candidate) => Some(with_frame(before, path, candidate, frame)),
    }
}

/// What a prefetch around `source_tl` of `path` may have done to the
/// state: nothing, or stored one frame for one of the positions it may
/// decode.
pub open spec fn prefetch_result(
    before: EngineView,
    after: EngineView,
    path: Seq<char>,
    source_tl: i64,
    direction: ScrubDirection,
) -> bool {
    after == before || exists|k: int, frame: PreviewFrame|
        0 <= k < prefetch_offsets_spec(direction).len() && #[trigger] prefetched_with(
            before,
            path,
            source_tl,
            prefetch_offsets_spec(direction)[k],
            frame,
        ) == Some(after)
}

/// The state after frame `frame` was stored for `source_tl` of `path`.
pub open spec fn with_frame(before: EngineView, path: Seq<char>, source_tl: i64, frame: PreviewFrame) -> EngineView {
    EngineView {
        cache: insert_model(
            before.cache,
            before.cache_capacity,
            CacheSlot { path, bucket: bucket_of(source_tl as int, before.cache_bucket_tl as int), frame },
        ),
        ..before
    }
}

/// What a playhead command has done, given the state before, the state
/// after and the result.
///
/// The playhead goes to the nearest tick of the timeline. In a gap only
/// the new position is reported. Otherwise the preview frame follows: from
/// the cache, which then may prefetch one neighbour, or from the backend,
/// whose frame is stored. When the backend fails the error is returned,
/// the new position stays, and nothing else changes.
pub open spec fn playhead_done(
    before: EngineView,
    after: EngineView,
    t_tl: i64,
    out: Result<Vec<Event>, EngineError>,
) -> bool {
    match before.project {
        None => out == Err::<Vec<Event>, EngineError>(EngineError::ProjectNotLoaded) && after
            == before,
        Some(project) => {
            let clamped = playhead_on(project.segments, t_tl);
            let moved = EngineView { playhead_tl: clamped, ..before };
            match preview_outcome(project.assets, project.segments, clamped) {
                Err(EngineError::SegmentNotFound { .. }) => out is Ok && out->Ok_0@
                    == seq![Event::PlayheadChanged { t_tl: clamped }] && after == moved,
                Err(e) => out == Err::<Vec<Event>, EngineError>(e) && after == moved,
                Ok((a, source)) => {
                    let path = project.assets[a].path@;
                    let source_tl = source as i64;
                    let target = PreviewTargetView {
                        path,
                        source_tl,
                        direction: raw_direction(before.last_preview, path, source_tl),
                    };
                    match find_slot(
                        before.cache,
                        path,
                        bucket_of(source as int, before.cache_bucket_tl as int),
                    ) {
                        Some(i) => {
                            &&& out is Ok
                            &&& out->Ok_0@ == seq![
                                Event::PlayheadChanged { t_tl: clamped },
                                Event::PreviewFrameReady {
                                    t_tl: clamped,
                                    frame: before.cache[i].frame,
                                },
                            ]
                            &&& after.last_preview == Some(target)
                            &&& prefetch_result(
                                EngineView {
                                    cache: get_model(
                                        before.cache,
                                        path,
                                        bucket_of(source as int, before.cache_bucket_tl as int),
                                    ),
                                    ..moved
                                },
                                EngineView { last_preview: before.last_preview, ..after },
                                path,
                                source_tl,
                                scrub_direction_spec(before.last_preview, path, source_tl),
                            )
                        },
                        None => match out {
                            Err(_) => after == moved,
                            Ok(events) => {
                                &&& events@.len() == 2
                                &&& events@[0] == Event::PlayheadChanged { t_tl: clamped }
                                &&& events@[1] is PreviewFrameReady
                                &&& events@[1]->PreviewFrameReady_t_tl == clamped
                                &&& after == EngineView {
                                    last_preview: Some(target),
                                    ..with_frame(
                                        moved,
                                        path,
                                        source_tl,
                                        events@[1]->PreviewFrameReady_frame,
                                    )
                                }
                            },
                        },
                    }
                },
            }
        },
    }
}

/// What an export command has done: nothing to the state. Without a
/// project, or with a project that has no export plan, it fails with that
/// error; otherwise the backend decides, and a success reports every
/// segment of the plan as done.
pub open spec fn export_done(
    before: EngineView,
    after: EngineView,
    path: Seq<char>,
    out: Result<Vec<Event>, EngineError>,
) -> bool {
    &&& after == before
    &&& match before.project {
        None => out == Err::<Vec<Event>, EngineError>(EngineError::ProjectNotLoaded),
        Some(project) => match export_plan_spec(project.assets, project.segments, path) {
            Err(e) => out == Err::<Vec<Event>, EngineError>(e),
            Ok(plan) => out is Ok ==> export_events(out->Ok_0@, plan.segments.len() as int, path),
        },
    }
}

/// What an import command has done: nothing when it failed, else what
/// [`import_step`] says for the probe result that the backend gave.
pub open spec fn import_done(before: EngineView, after: EngineView, out: Result<Vec<Event>, EngineError>) -> bool {
    match out {
        Err(_) => after == before,
        Ok(events) => import_events(events@, after) && exists|probed: ProbedMedia|
            #[trigger] import_step(before, probed) == Ok::<EngineView, EngineError>(after),
    }
}

/// What an edit command has done, given what it should do: applied with
/// one announcement, or refused with nothing changed.
pub open spec fn edit_done(
    step: Result<EngineView, EngineError>,
    before: EngineView,
    after: EngineView,
    out: Result<Vec<Event>, EngineError>,
) -> bool {
    match step {
        Ok(next) => out is Ok && after == next && announces(out->Ok_0@, next),
        Err(e) => out == Err::<Vec<Event>, EngineError>(e) && after == before,
    }
}

/// What a command has done, given the state before, the state after and
/// the result.
pub open spec fn command_done(
    command: Command,
    before: EngineView,
    after: EngineView,
    out: Result<Vec<Event>, EngineError>,
) -> bool {
    match command {
        Command::Import { path } => import_done(before, after, out),
        Command::SetPlayhead { t_tl } => playhead_done(before, after, t_tl, out),
        Command::Split { at_tl } => edit_done(split_step(before, at_tl), before, after, out),
        Command::Cut { at_tl } => edit_done(cut_step(before, at_tl), before, after, out),
        Command::MoveSegment { segment_id, new_start_tl } => edit_done(
            move_step(before, segment_id, new_start_tl),
            before,
            after,
            out,
        ),
        Command::TrimSegmentStart { segment_id, new_start_tl } => edit_done(
            trim_start_step(before, segment_id, new_start_tl),
            before,
            after,
            out,
        ),
        Command::TrimSegmentEnd { segment_id, new_end_tl } => edit_done(
            trim_end_step(before, segment_id, new_end_tl),
            before,
            after,
            out,
        ),
        Command::Export { path, settings } => export_done(before, after, path@, out),
        Command::CancelExport => out is Ok && out->Ok_0@.len() == 0 && after == before,
    }
}


impl<M> View for Engine<M> {
    type V = EngineView;

    closed spec fn view(&self) -> EngineView {
        EngineView {
            project: match self.project {
                Some(project) => Some(project@),
                None => None,
            },
            playhead_tl: self.playhead_tl,
            next_asset_id: self.next_asset_id,
            next_segment_id: self.next_segment_id,
            cache: self.preview_cache@,
            cache_capacity: self.preview_cache.spec_capacity(),
            cache_bucket_tl: self.preview_cache.spec_bucket_size_tl(),
            last_preview: match self.last_preview {
                Some(target) => Some(
                    PreviewTargetView {
                        path: target.path@,
                        source_tl: target.source_tl,
                        direction: target.direction,
                    },
                ),
                None => None,
            },
        }
    }
}

impl<M: MediaBackend> Engine<M> {
    /// The project, if one is loaded, and the cache are well formed.
    pub closed spec fn wf(&self) -> bool {
        &&& self.preview_cache.wf()
        &&& self.project is Some ==> self.project->0.wf()
    }

    /// Creates a new engine with the provided media backend.
    pub fn new(media: M) -> (out: Self)
        ensures
            out.wf(),
            out@ == initial_engine_view(),
    {
        Engine {
            media,
            project: None,
            playhead_tl: 0,
            next_asset_id: 1,
            next_segment_id: 1,
            preview_cache: PreviewFrameCache::new(
                PREVIEW_CACHE_CAPACITY,
                DEFAULT_PREVIEW_CACHE_BUCKET_TL,
            ),
            last_preview: None,
        }
    }

    /// Applies one command and returns emitted events.
    ///
    /// A command is applied in full or, when it is refused, leaves the
    /// state as it was; the one exception is a playhead command whose
    /// preview fails, which keeps the new playhead position.
    pub fn handle_command(&mut self, command: Command) -> (out: Result<Vec<Event>, EngineError>)
        requires
            old(self).wf(),
        ensures
            final(self).wf(),
            command_done(command, old(self)@, final(self)@, out),
    {
        match command {
            Command::Import { path } => self.import(path),
            Command::SetPlayhead { t_tl } => self.set_playhead(t_tl),
            Command::Split { at_tl } => self.split(at_tl),
            Command::Cut { at_tl } => self.cut(at_tl),
            Command::MoveSegment { segment_id, new_start_tl } => self.move_segment(
                segment_id,
                new_start_tl,
            ),
            Command::TrimSegmentStart { segment_id, new_start_tl } => self.trim_segment_start(
                segment_id,
                new_start_tl,
            ),
            Command::TrimSegmentEnd { segment_id, new_end_tl } => self.trim_segment_end(
                segment_id,
                new_end_tl,
            ),
            Command::Export { path, settings } => self.export(path, settings),
            Command::CancelExport => Ok(Vec::new()),
        }
    }

    /// Probes `path` and replaces the project with what was found.
    fn import(&mut self, path: String) -> (out: Result<Vec<Event>, EngineError>)
        requires
            old(self).wf(),
        ensures
            final(self).wf(),
            import_done(old(self)@, final(self)@, out),
    {
        let probed = match self.media.probe(&path) {
            Ok(probed) => probed,
            Err(e) => {
                return Err(e);
            },
        };
        let ghost before = self@;
        let out = self.apply_import(probed);
        proof {
            if out is Ok {
                assert(import_step(before, probed) == Ok::<EngineView, EngineError>(self@));
            }
        }
        out
    }

    /// Replaces the project with the one that the probe result `probed`
    /// describes.
    pub fn apply_import(&mut self, probed: ProbedMedia) -> (out: Result<Vec<Event>, EngineError>)
        requires
            old(self).wf(),
        ensures
            final(self).wf(),
            match import_step(old(self)@, probed) {
                Ok(next) => out is Ok && final(self)@ == next && import_events(out->Ok_0@, next),
                Err(e) => out == Err::<Vec<Event>, EngineError>(e) && final(self)@ == old(self)@,
            },
    {
        if self.next_asset_id == u64::MAX || self.next_segment_id == u64::MAX {
            return Err(EngineError::IdSpaceExhausted);
        }
        let project = match Project::from_single_asset(
            self.next_asset_id,
            self.next_segment_id,
            probed,
        ) {
            Ok(project) => project,
            Err(e) => {
                return Err(e);
            },
        };
        let _ = self.allocate_asset_id();
        let _ = self.allocate_segment_id();
        let preview_bucket_tl = preview_bucket_tl_for_project(&project);
        self.preview_cache.reconfigure_bucket_size(preview_bucket_tl);
        let snapshot = project.snapshot(preview_bucket_tl);
        self.playhead_tl = 0;
        self.project = Some(project);
        self.invalidate_preview_cache();
        let mut events: Vec<Event> = Vec::new();
        events.push(Event::ProjectChanged(snapshot));
        events.push(Event::PlayheadChanged { t_tl: 0 });
        Ok(events)
    }

    /// Moves the playhead and fetches the preview frame for it.
    fn set_playhead(&mut self, t_tl: i64) -> (out: Result<Vec<Event>, EngineError>)
        requires
            old(self).wf(),
        ensures
            final(self).wf(),
            playhead_done(old(self)@, final(self)@, t_tl, out),
    {
        let ghost before = self@;
        let (clamped, request) = match &self.project {
            None => {
                return Err(EngineError::ProjectNotLoaded);
            },
            Some(project) => {
                let clamped = normalize_playhead(t_tl, project.duration_tl());
                (clamped, project.preview_request_at(clamped))
            },
        };
        self.playhead_tl = clamped;
        let ghost moved = self@;
        let mut events: Vec<Event> = Vec::new();
        events.push(Event::PlayheadChanged { t_tl: clamped });
        let request = match request {
            Ok(request) => request,
            Err(EngineError::SegmentNotFound { .. }) => {
                return Ok(events);
            },
            Err(e) => {
                return Err(e);
            },
        };
        let raw = self.raw_scrub_direction(&request);
        let direction = self.scrub_direction(&request);
        let (frame, cache_hit) = match self.decode_preview_frame_cached(
            &request.path,
            request.source_tl,
        ) {
            Ok(found) => found,
            Err(e) => {
                return Err(e);
            },
        };
        events.push(Event::PreviewFrameReady { t_tl: clamped, frame });
        let ghost fetched = self@;
        if cache_hit {
            self.prefetch_neighbors(&request, direction);
        }
        let ghost warmed = self@;
        self.last_preview = Some(
            LastPreviewTarget { path: request.path, source_tl: request.source_tl, direction: raw },
        );
        proof {
            let project = before.project->0;
            let outcome = preview_outcome(project.assets, project.segments, clamped);
            assert(outcome is Ok);
            let a = outcome->Ok_0.0;
            let source = outcome->Ok_0.1;
            assert(request.path@ == project.assets[a].path@);
            assert(request.source_tl == source);
            assert(events@ =~= seq![
                Event::PlayheadChanged { t_tl: clamped },
                Event::PreviewFrameReady { t_tl: clamped, frame },
            ]);
            assert((EngineView { last_preview: before.last_preview, ..self@ }) == warmed);
            assert(moved == (EngineView { playhead_tl: clamped, ..before }));
        }
        Ok(events)
    }

    /// Announces the project as it is now and drops every cached frame.
    fn announce_edit(&mut self) -> (out: Result<Vec<Event>, EngineError>)
        requires
            old(self).wf(),
            old(self)@.project is Some,
        ensures
            final(self).wf(),
            out is Ok,
            final(self)@ == after_edit(
                old(self)@,
                old(self)@.project->0.segments,
                old(self)@.playhead_tl,
                old(self)@.next_segment_id,
            ),
            announces(out->Ok_0@, final(self)@),
    {
        let bucket = self.preview_cache.bucket_size_tl();
        let snapshot = match &self.project {
            Some(project) => project.snapshot(bucket),
            None => {
                return Err(EngineError::ProjectNotLoaded);
            },
        };
        self.invalidate_preview_cache();
        let mut events: Vec<Event> = Vec::new();
        events.push(Event::ProjectChanged(snapshot));
        Ok(events)
    }

    /// Brings the playhead back onto the timeline after an edit.
    fn settle_playhead(&mut self)
        requires
            old(self).wf(),
            old(self)@.project is Some,
        ensures
            final(self).wf(),
            final(self)@ == (EngineView {
                playhead_tl: playhead_on(old(self)@.project->0.segments, old(self)@.playhead_tl),
                ..old(self)@
            }),
    {
        let duration = match &self.project {
            Some(project) => project.duration_tl(),
            None => 0,
        };
        self.playhead_tl = normalize_playhead(self.playhead_tl, duration);
    }

    /// Splits the segment under `at_tl`.
    fn split(&mut self, at_tl: i64) -> (out: Result<Vec<Event>, EngineError>)
        requires
            old(self).wf(),
        ensures
            final(self).wf(),
            edit_done(split_step(old(self)@, at_tl), old(self)@, final(self)@, out),
    {
        let next_segment_id = self.next_segment_id;
        match &mut self.project {
            None => {
                return Err(EngineError::ProjectNotLoaded);
            },
            Some(project) => {
                if next_segment_id == u64::MAX {
                    return Err(EngineError::IdSpaceExhausted);
                }
                match project.split(at_tl, next_segment_id) {
                    Ok(_) => {},
                    Err(e) => {
                        return Err(e);
                    },
                }
            },
        }
        let _ = self.allocate_segment_id();
        self.announce_edit()
    }

    /// Cuts the segment at `at_tl`.
    fn cut(&mut self, at_tl: i64) -> (out: Result<Vec<Event>, EngineError>)
        requires
            old(self).wf(),
        ensures
            final(self).wf(),
            edit_done(cut_step(old(self)@, at_tl), old(self)@, final(self)@, out),
    {
        match &mut self.project {
            None => {
                return Err(EngineError::ProjectNotLoaded);
            },
            Some(project) => {
                match project.cut(at_tl) {
                    Ok(_) => {},
                    Err(e) => {
                        return Err(e);
                    },
                }
            },
        }
        self.settle_playhead();
        self.announce_edit()
    }

    /// Moves one segment.
    fn move_segment(&mut self, segment_id: u64, new_start_tl: i64) -> (out: Result<
        Vec<Event>,
        EngineError,
    >)
        requires
            old(self).wf(),
        ensures
            final(self).wf(),
            edit_done(
                move_step(old(self)@, segment_id, new_start_tl),
                old(self)@,
                final(self)@,
                out,
            ),
    {
        match &mut self.project {
            None => {
                return Err(EngineError::ProjectNotLoaded);
            },
            Some(project) => {
                match project.move_segment(segment_id, new_start_tl) {
                    Ok(_) => {},
                    Err(e) => {
                        return Err(e);
                    },
                }
            },
        }
        self.settle_playhead();
        self.announce_edit()
    }

    /// Trims the start edge of one segment.
    fn trim_segment_start(&mut self, segment_id: u64, new_start_tl: i64) -> (out: Result<
        Vec<Event>,
        EngineError,
    >)
        requires
            old(self).wf(),
        ensures
            final(self).wf(),
            edit_done(
                trim_start_step(old(self)@, segment_id, new_start_tl),
                old(self)@,
                final(self)@,
                out,
            ),
    {
        match &mut self.project {
            None => {
                return Err(EngineError::ProjectNotLoaded);
            },
            Some(project) => {
                match project.trim_segment_start(segment_id, new_start_tl) {
                    Ok(_) => {},
                    Err(e) => {
                        return Err(e);
                    },
                }
            },
        }
        self.settle_playhead();
        self.announce_edit()
    }

    /// Trims the end edge of one segment.
    fn trim_segment_end(&mut self, segment_id: u64, new_end_tl: i64) -> (out: Result<
        Vec<Event>,
        EngineError,
    >)
        requires
            old(self).wf(),
        ensures
            final(self).wf(),
            edit_done(
                trim_end_step(old(self)@, segment_id, new_end_tl),
                old(self)@,
                final(self)@,
                out,
            ),
    {
        match &mut self.project {
            None => {
                return Err(EngineError::ProjectNotLoaded);
            },
            Some(project) => {
                match project.trim_segment_end(segment_id, new_end_tl) {
                    Ok(_) => {},
                    Err(e) => {
                        return Err(e);
                    },
                }
            },
        }
        self.settle_playhead();
        self.announce_edit()
    }

    /// Builds the export plan and hands it to the backend.
    fn export(&mut self, path: String, _settings: ExportSettings) -> (out: Result<
        Vec<Event>,
        EngineError,
    >)
        requires
            old(self).wf(),
        ensures
            final(self).wf(),
            export_done(old(self)@, final(self)@, path@, out),
    {
        let plan = match &self.project {
            None => {
                return Err(EngineError::ProjectNotLoaded);
            },
            Some(project) => match build_video_export_plan(project, path.clone()) {
                Ok(plan) => plan,
                Err(e) => {
                    return Err(e);
                },
            },
        };
        let rendered = self.media.export_video(&plan);
        finish_export(path, plan.segments.len(), rendered)
    }

    /// Returns the frame for `source_tl` of `path` and whether it came
    /// from the cache. A frame that had to be decoded is stored.
    fn decode_preview_frame_cached(&mut self, path: &String, source_tl: i64) -> (out: Result<
        (PreviewFrame, bool),
        EngineError,
    >)
        requires
            old(self).wf(),
        ensures
            final(self).wf(),
            match find_slot(
                old(self)@.cache,
                path@,
                bucket_of(source_tl as int, old(self)@.cache_bucket_tl as int),
            ) {
                Some(i) => out == Ok::<(PreviewFrame, bool), EngineError>(
                    (old(self)@.cache[i].frame, true),
                ) && final(self)@ == (EngineView {
                    cache: get_model(
                        old(self)@.cache,
                        path@,
                        bucket_of(source_tl as int, old(self)@.cache_bucket_tl as int),
                    ),
                    ..old(self)@
                }),
                None => match out {
                    Ok((frame, hit)) => !hit && final(self)@ == with_frame(
                        old(self)@,
                        path@,
                        source_tl,
                        frame,
                    ),
                    Err(_) => final(self)@ == old(self)@,
                },
            },
    {
        if let Some(frame) = self.preview_cache.get(path.as_str(), source_tl) {
            return Ok((frame, true));
        }
        let decoded = self.media.decode_preview_frame(path, source_tl);
        match self.accept_decoded(path, source_tl, decoded) {
            Ok(frame) => Ok((frame, false)),
            Err(e) => Err(e),
        }
    }

    /// Takes what the backend gave for `source_tl` of `path`: a frame is
    /// stored in the cache and handed on, an error is handed on.
    pub fn accept_decoded(
        &mut self,
        path: &String,
        source_tl: i64,
        decoded: Result<PreviewFrame, EngineError>,
    ) -> (out: Result<PreviewFrame, EngineError>)
        requires
            old(self).wf(),
        ensures
            final(self).wf(),
            out == decoded,
            match decoded {
                Ok(frame) => final(self)@ == with_frame(old(self)@, path@, source_tl, frame),
                Err(_) => final(self)@ == old(self)@,
            },
    {
        match decoded {
            Ok(frame) => {
                self.preview_cache.insert(path.as_str(), source_tl, frame.clone());
                Ok(frame)
            },
            Err(e) => Err(e),
        }
    }

    /// How the playhead moved from the last preview to `request`.
    fn raw_scrub_direction(&self, request: &PreviewRequest) -> (out: ScrubDirection)
        ensures
            out == raw_direction(self@.last_preview, request.path@, request.source_tl),
    {
        match &self.last_preview {
            None => ScrubDirection::Unknown,
            Some(previous) => {
                if previous.path != request.path {
                    ScrubDirection::Unknown
                } else if request.source_tl > previous.source_tl {
                    ScrubDirection::Forward
                } else if request.source_tl < previous.source_tl {
                    ScrubDirection::Backward
                } else {
                    ScrubDirection::Unknown
                }
            },
        }
    }

    /// The direction that a prefetch for `request` goes by.
    fn scrub_direction(&self, request: &PreviewRequest) -> (out: ScrubDirection)
        ensures
            out == scrub_direction_spec(self@.last_preview, request.path@, request.source_tl),
    {
        let raw = self.raw_scrub_direction(request);
        match &self.last_preview {
            None => raw,
            Some(previous) => {
                let reversed = match (raw, previous.direction) {
                    (ScrubDirection::Forward, ScrubDirection::Backward) => true,
                    (ScrubDirection::Backward, ScrubDirection::Forward) => true,
                    _ => false,
                };
                if reversed {
                    ScrubDirection::Unknown
                } else {
                    raw
                }
            },
        }
    }

    /// The position that a prefetch at bucket offset `offset` decodes, if
    /// it decodes one.
    fn prefetch_candidate(&self, request: &PreviewRequest, offset: i64) -> (out: Option<i64>)
        requires
            self.wf(),
        ensures
            out == prefetch_candidate_spec(
                self@.cache,
                self@.cache_bucket_tl,
                request.path@,
                request.source_tl,
                offset,
            ),
    {
        let delta = match self.preview_cache.bucket_size_tl().checked_mul(offset) {
            Some(delta) => delta,
            None => {
                return None;
            },
        };
        let source_tl = match request.source_tl.checked_add(delta) {
            Some(source_tl) => source_tl,
            None => {
                proof {
                    if request.source_tl + delta < i64::MIN {
                        assert(request.source_tl + delta < 0);
                    }
                }
                return None;
            },
        };
        if source_tl < 0 || self.preview_cache.contains(request.path.as_str(), source_tl) {
            return None;
        }
        Some(source_tl)
    }

    /// Decodes at most one frame near `request` that is not cached yet:
    /// the bucket offsets for `direction` are tried in order, and the first
    /// frame that the backend gives is stored.
    fn prefetch_neighbors(&mut self, request: &PreviewRequest, direction: ScrubDirection)
        requires
            old(self).wf(),
        ensures
            final(self).wf(),
            prefetch_result(
                old(self)@,
                final(self)@,
                request.path@,
                request.source_tl,
                direction,
            ),
    {
        let offsets = prefetch_offsets(direction);
        let ghost before = self@;
        let mut k: usize = 0;
        while k < offsets.len()
            invariant
                self.wf(),
                self@ == before,
                before == old(self)@,
                offsets@ == prefetch_offsets_spec(direction),
                k <= offsets@.len(),
            decreases offsets@.len() - k,
        {
            let offset = offsets[k];
            if let Some(source_tl) = self.prefetch_candidate(request, offset) {
                let decoded = self.media.decode_preview_frame(&request.path, source_tl);
                if let Ok(frame) = self.accept_decoded(&request.path, source_tl, decoded) {
                    proof {
                        assert(prefetched_with(
                            before,
                            request.path@,
                            request.source_tl,
                            prefetch_offsets_spec(direction)[k as int],
                            frame,
                        ) == Some(self@));
                    }
                    return ;
                }
            }
            k += 1;
        }
    }

    /// Drops every cached frame and forgets the last preview.
    fn invalidate_preview_cache(&mut self)
        requires
            old(self).preview_cache.wf(),
        ensures
            final(self).preview_cache.wf(),
            final(self).project == old(self).project,
            final(self)@ == (EngineView {
                cache: Seq::empty(),
                last_preview: None,
                ..old(self)@
            }),
    {
        self.preview_cache.clear();
        self.last_preview = None;
    }

    /// Hands out the next asset id.
    fn allocate_asset_id(&mut self) -> (out: u64)
        requires
            old(self).next_asset_id < u64::MAX,
        ensures
            out == old(self).next_asset_id,
            final(self).preview_cache == old(self).preview_cache,
            final(self).project == old(self).project,
            final(self)@ == (EngineView {
                next_asset_id: (old(self)@.next_asset_id + 1) as u64,
                ..old(self)@
            }),
    {
        let id = self.next_asset_id;
        self.next_asset_id = id + 1;
        id
    }

    /// Hands out the next segment id.
    fn allocate_segment_id(&mut self) -> (out: u64)
        requires
            old(self).next_segment_id < u64::MAX,
        ensures
            out == old(self).next_segment_id,
            final(self).preview_cache == old(self).preview_cache,
            final(self).project == old(self).project,
            final(self)@ == (EngineView {
                next_segment_id: (old(self)@.next_segment_id + 1) as u64,
                ..old(self)@
            }),
    {
        let id = self.next_segment_id;
        self.next_segment_id = id + 1;
        id
    }
}

/// Turns what the backend said of an export into the command's result: a
/// success reports all `total` segments as done and names the file, a
/// failure is handed on.
pub fn finish_export(path: String, total: usize, rendered: Result<(), EngineError>) -> (out: Result<
    Vec<Event>,
    EngineError,
>)
    ensures
        match rendered {
            Ok(_) => out is Ok && export_events(out->Ok_0@, total as int, path@),
            Err(e) => out == Err::<Vec<Event>, EngineError>(e),
        },
{
    match rendered {
        Ok(_) => {
            let total = total as u64;
            let mut events: Vec<Event> = Vec::new();
            events.push(Event::ExportProgress { done: total, total });
            events.push(Event::ExportFinished { path });
            Ok(events)
        },
        Err(e) => Err(e),
    }
}

} // verus!
