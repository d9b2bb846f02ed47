//! A project: the imported assets, the timeline that plays them, and the
//! edits that need to know an asset's clocks.

use vstd::prelude::*;
use crate::api::{MediaAssetSummary, ProjectSnapshot, SegmentSummary};
use crate::error::EngineError;
use crate::preview::{ProbedAudioStream, ProbedMedia, ProbedVideoStream};
use crate::time::{
    Rational, clamp_i64, rescale, rescale_spec, spec_timeline_time_base, timeline_time_base,
};
use crate::timeline::{
    Segment, Timeline, clamp_int, cut_model, cut_target, duration_of, find_covering, find_id,
    is_boundary, split_outcome, timeline_wf,
};

verus! {

/// Project state managed by the engine.
#[derive(Debug, Clone, PartialEq, Eq)]
pub struct Project {
    pub assets: Vec<MediaAsset>,
    pub timeline: Timeline,
    pub settings: ProjectSettings,
}

/// Project-wide defaults and persisted settings.
#[derive(Debug, PartialEq, Eq)]
pub struct ProjectSettings {
    pub export_settings: Option<ProjectExportSettings>,
}

/// Optional export defaults persisted in a project file.
#[derive(Debug, PartialEq, Eq)]
pub struct ProjectExportSettings {
    pub container: String,
    pub video_codec: String,
    pub audio_codec: String,
}

/// Imported media tracked by the project.
#[derive(Debug, PartialEq, Eq)]
pub struct MediaAsset {
    pub id: u64,
    pub path: String,
    pub video_stream_index: Option<u32>,
    pub audio_stream_index: Option<u32>,
    pub video: Option<VideoStreamInfo>,
    pub audio: Option<AudioStreamInfo>,
    pub duration_tl: i64,
}

/// Video metadata required by timeline mapping.
#[derive(Debug, Clone, Copy, PartialEq, Eq)]
pub struct VideoStreamInfo {
    pub time_base: Rational,
    pub frame_rate: Option<Rational>,
    pub width: u32,
    pub height: u32,
}

/// Audio metadata required by timeline mapping.
#[derive(Debug, Clone, Copy, PartialEq, Eq)]
pub struct AudioStreamInfo {
    pub time_base: Rational,
    pub sample_rate: u32,
    pub channels: u16,
}

/// Where on an asset's source clock the preview for one playhead position
/// is found.
#[derive(Debug, PartialEq, Eq)]
pub struct PreviewRequest {
    pub path: String,
    pub source_tl: i64,
}

impl Clone for ProjectExportSettings {
    fn clone(&self) -> (out: Self)
        ensures
            out == *self,
    {
        ProjectExportSettings {
            container: self.container.clone(),
            video_codec: self.video_codec.clone(),
            audio_codec: self.audio_codec.clone(),
        }
    }
}

impl Clone for ProjectSettings {
    fn clone(&self) -> (out: Self)
        ensures
            out == *self,
    {
        let export_settings = match &self.export_settings {
            Some(settings) => Some(settings.clone()),
            None => None,
        };
        ProjectSettings { export_settings }
    }
}

impl Default for ProjectSettings {
    fn default() -> (out: Self)
        ensures
            out.export_settings is None,
    {
        ProjectSettings { export_settings: None }
    }
}

impl Clone for MediaAsset {
    fn clone(&self) -> (out: Self)
        ensures
            out == *self,
    {
        MediaAsset {
            id: self.id,
            path: self.path.clone(),
            video_stream_index: self.video_stream_index,
            audio_stream_index: self.audio_stream_index,
            video: self.video,
            audio: self.audio,
            duration_tl: self.duration_tl,
        }
    }
}

impl Clone for PreviewRequest {
    fn clone(&self) -> (out: Self)
        ensures
            out == *self,
    {
        PreviewRequest { path: self.path.clone(), source_tl: self.source_tl }
    }
}

impl From<ProbedVideoStream> for VideoStreamInfo {
    fn from(value: ProbedVideoStream) -> (out: Self) {
        VideoStreamInfo {
            time_base: value.time_base,
            frame_rate: value.frame_rate,
            width: value.width,
            height: value.height,
        }
    }
}

impl vstd::std_specs::convert::FromSpecImpl<ProbedVideoStream> for VideoStreamInfo {
    open spec fn obeys_from_spec() -> bool {
        true
    }

    open spec fn from_spec(value: ProbedVideoStream) -> Self {
        VideoStreamInfo {
            time_base: value.time_base,
            frame_rate: value.frame_rate,
            width: value.width,
            height: value.height,
        }
    }
}

impl From<ProbedAudioStream> for AudioStreamInfo {
    fn from(value: ProbedAudioStream) -> (out: Self) {
        AudioStreamInfo {
            time_base: value.time_base,
            sample_rate: value.sample_rate,
            channels: value.channels,
        }
    }
}

impl vstd::std_specs::convert::FromSpecImpl<ProbedAudioStream> for AudioStreamInfo {
    open spec fn obeys_from_spec() -> bool {
        true
    }

    open spec fn from_spec(value: ProbedAudioStream) -> Self {
        AudioStreamInfo {
            time_base: value.time_base,
            sample_rate: value.sample_rate,
            channels: value.channels,
        }
    }
}

impl MediaAsset {
    /// The time bases of the streams that the asset has are valid.
    pub open spec fn wf(self) -> bool {
        &&& self.video is Some ==> self.video->0.time_base.wf()
        &&& self.audio is Some ==> self.audio->0.time_base.wf()
    }

    /// Time base of the video stream, if the asset has one.
    pub open spec fn spec_video_time_base(&self) -> Option<Rational> {
        match self.video {
            Some(video) => Some(video.time_base),
            None => None,
        }
    }

    /// Time base of the audio stream, if the asset has one.
    pub open spec fn spec_audio_time_base(&self) -> Option<Rational> {
        match self.audio {
            Some(audio) => Some(audio.time_base),
            None => None,
        }
    }

    /// Time base of the video stream, if the asset has one.
    #[verifier::when_used_as_spec(spec_video_time_base)]
    pub fn video_time_base(&self) -> (out: Option<Rational>)
        ensures
            out == self.spec_video_time_base(),
    {
        match self.video {
            Some(video) => Some(video.time_base),
            None => None,
        }
    }

    /// Time base of the audio stream, if the asset has one.
    #[verifier::when_used_as_spec(spec_audio_time_base)]
    pub fn audio_time_base(&self) -> (out: Option<Rational>)
        ensures
            out == self.spec_audio_time_base(),
    {
        match self.audio {
            Some(audio) => Some(audio.time_base),
            None => None,
        }
    }
}

/// Every asset's time bases are valid.
pub open spec fn assets_wf(assets: Seq<MediaAsset>) -> bool {
    forall|i: int| 0 <= i < assets.len() ==> (#[trigger] assets[i]).wf()
}

/// Index of the first asset at or after `from` whose id is `id`.
pub open spec fn find_asset_from(assets: Seq<MediaAsset>, id: u64, from: int) -> Option<int>
    decreases assets.len() - from,
{
    if from < 0 || from >= assets.len() {
        None
    } else if assets[from].id == id {
        Some(from)
    } else {
        find_asset_from(assets, id, from + 1)
    }
}

/// Index of the first asset whose id is `id`.
pub open spec fn find_asset(assets: Seq<MediaAsset>, id: u64) -> Option<int> {
    find_asset_from(assets, id, 0)
}

/// A search from `from` returns the least matching index at or after it.
pub proof fn lemma_find_asset_from(assets: Seq<MediaAsset>, id: u64, from: int)
    requires
        0 <= from <= assets.len(),
    ensures
        match find_asset_from(assets, id, from) {
            Some(i) => from <= i < assets.len() && assets[i].id == id && forall|j: int|
                from <= j < i ==> (#[trigger] assets[j]).id != id,
            None => forall|j: int| from <= j < assets.len() ==> (#[trigger] assets[j]).id != id,
        },
    decreases assets.len() - from,
{
    if from < assets.len() && assets[from].id != id {
        lemma_find_asset_from(assets, id, from + 1);
    }
}

/// A stream boundary moved by `delta_tl` timeline ticks, expressed in the
/// stream's clock and kept within `[0, i64::MAX]`. A stream without a
/// boundary or without a time base keeps what it has.
pub open spec fn shift_stream_point_spec(point: Option<i64>, delta_tl: int, tb: Option<Rational>) -> Option<
    i64,
> {
    if point is Some && tb is Some {
        Some(
            clamp_int(
                point->0 + rescale_spec(delta_tl, spec_timeline_time_base(), tb->0),
                0,
                i64::MAX as int,
            ) as i64,
        )
    } else {
        point
    }
}

/// End of the segment before `index`, or zero for the first segment.
pub open spec fn prev_end_of(segs: Seq<Segment>, index: int) -> int {
    if index <= 0 {
        0
    } else {
        segs[index - 1].end_tl()
    }
}

/// Start of the segment after `index`, or `i64::MAX` for the last segment.
pub open spec fn next_start_of(segs: Seq<Segment>, index: int) -> int {
    if index + 1 < segs.len() {
        segs[index + 1].timeline_start as int
    } else {
        i64::MAX as int
    }
}

/// Where a segment asked to start at `new_start` ends up: not before the
/// previous segment's end, and early enough to end by the next one's start.
pub open spec fn move_target(segs: Seq<Segment>, index: int, new_start: int) -> int {
    clamp_int(
        if new_start < 0 {
            0
        } else {
            new_start
        },
        prev_end_of(segs, index),
        next_start_of(segs, index) - segs[index].timeline_duration,
    )
}

/// The segment list after segment `index` was moved toward `new_start`.
pub open spec fn move_model(segs: Seq<Segment>, index: int, new_start: int) -> Seq<Segment> {
    segs.update(
        index,
        Segment { timeline_start: move_target(segs, index, new_start) as i64, ..segs[index] },
    )
}

/// The segment list after the start edge of segment `index` was trimmed
/// toward `new_start`: the end stays, the start moves within
/// `[previous end, end - 1]`, and each `in` bound follows.
pub open spec fn trim_start_model(
    segs: Seq<Segment>,
    index: int,
    new_start: int,
    vtb: Option<Rational>,
    atb: Option<Rational>,
) -> Seq<Segment> {
    let seg = segs[index];
    let start = clamp_int(new_start, prev_end_of(segs, index), seg.end_tl() - 1);
    let delta = start - seg.timeline_start;
    segs.update(
        index,
        Segment {
            timeline_start: start as i64,
            timeline_duration: (seg.end_tl() - start) as i64,
            src_in_video: shift_stream_point_spec(seg.src_in_video, delta, vtb),
            src_in_audio: shift_stream_point_spec(seg.src_in_audio, delta, atb),
            ..seg
        },
    )
}

/// The segment list after the end edge of segment `index` was trimmed
/// toward `new_end`: the start stays, the end moves within
/// `[start + 1, next start]`, and each `out` bound follows.
pub open spec fn trim_end_model(
    segs: Seq<Segment>,
    index: int,
    new_end: int,
    vtb: Option<Rational>,
    atb: Option<Rational>,
) -> Seq<Segment> {
    let seg = segs[index];
    let end = clamp_int(new_end, seg.timeline_start + 1, next_start_of(segs, index));
    let delta = end - seg.end_tl();
    segs.update(
        index,
        Segment {
            timeline_duration: (end - seg.timeline_start) as i64,
            src_out_video: shift_stream_point_spec(seg.src_out_video, delta, vtb),
            src_out_audio: shift_stream_point_spec(seg.src_out_audio, delta, atb),
            ..seg
        },
    )
}

/// The snapshot entry that stands for `asset`.
pub open spec fn asset_summary(asset: MediaAsset) -> MediaAssetSummary {
    MediaAssetSummary {
        id: asset.id,
        path: asset.path,
        has_video: asset.video is Some,
        has_audio: asset.audio is Some,
        duration_tl: asset.duration_tl,
    }
}

/// The snapshot entry that stands for `segment`.
pub open spec fn segment_summary(segment: Segment) -> SegmentSummary {
    SegmentSummary {
        id: segment.id,
        asset_id: segment.asset_id,
        timeline_start: segment.timeline_start,
        timeline_duration: segment.timeline_duration,
        src_in_video: segment.src_in_video,
        src_out_video: segment.src_out_video,
        src_in_audio: segment.src_in_audio,
        src_out_audio: segment.src_out_audio,
    }
}

/// The position on the source clock, in timeline ticks, that tick `t_tl`
/// of `segment` shows: the tick is carried into the video clock from the
/// segment's `in` bound, saturating, and carried back, so that it lands on
/// a timestamp the stream can have. Positions before zero become zero.
pub open spec fn preview_source_tl(segment: Segment, t_tl: int, src_in_video: i64, vtb: Rational) -> int {
    let local = t_tl - segment.timeline_start;
    let target = clamp_i64(src_in_video + rescale_spec(local, spec_timeline_time_base(), vtb));
    let back = rescale_spec(target, vtb, spec_timeline_time_base());
    if back < 0 {
        0
    } else {
        back
    }
}

/// `v` limited to `[lo, hi]`.
pub fn clamp_tick(v: i64, lo: i64, hi: i64) -> (out: i64)
    requires
        lo <= hi,
    ensures
        out == clamp_int(v as int, lo as int, hi as int),
{
    if v < lo {
        lo
    } else if v > hi {
        hi
    } else {
        v
    }
}

/// Moves one stream boundary by `delta_tl` timeline ticks.
pub fn shift_stream_point(point: Option<i64>, delta_tl: i64, time_base: Option<Rational>) -> (out:
    Option<i64>)
    requires
        time_base is Some ==> time_base->0.wf(),
    ensures
        out == shift_stream_point_spec(point, delta_tl as int, time_base),
        point is Some && time_base is Some ==> out is Some && out->0 >= 0,
{
    match (point, time_base) {
        (Some(p), Some(tb)) => {
            let delta_stream = rescale(delta_tl, timeline_time_base(), tb);
            let shifted: i128 = p as i128 + delta_stream as i128;
            if shifted < 0 {
                Some(0)
            } else if shifted > i64::MAX as i128 {
                Some(i64::MAX)
            } else {
                Some(shifted as i64)
            }
        },
        _ => point,
    }
}

/// The playhead kept inside `[0, duration - 1]`; zero on an empty timeline.
pub open spec fn normalize_playhead_spec(t_tl: int, duration_tl: int) -> int {
    if duration_tl <= 0 {
        0
    } else {
        clamp_int(t_tl, 0, duration_tl - 1)
    }
}

/// Keeps the playhead on the last tick or before it.
pub fn normalize_playhead(t_tl: i64, duration_tl: i64) -> (out: i64)
    ensures
        out == normalize_playhead_spec(t_tl as int, duration_tl as int),
{
    if duration_tl <= 0 {
        return 0;
    }
    let max_tick = duration_tl - 1;
    clamp_tick(t_tl, 0, max_tick)
}

/// Turns a probed duration into one a segment can have: a missing duration
/// is an error naming the file, and anything shorter than a tick counts as
/// one tick.
pub fn ensure_non_empty_duration(path: &String, duration_tl: Option<i64>) -> (out: Result<
    i64,
    EngineError,
>)
    ensures
        duration_tl is None ==> out == Err::<i64, EngineError>(
            EngineError::MissingDuration(*path),
        ),
        duration_tl is Some ==> out == Ok::<i64, EngineError>(
            if duration_tl->0 < 1 {
                1i64
            } else {
                duration_tl->0
            },
        ),
{
    match duration_tl {
        None => Err(EngineError::MissingDuration(path.clone())),
        Some(d) => if d < 1 {
            Ok(1)
        } else {
            Ok(d)
        },
    }
}


/// The segment and the asset that an edit of segment `segment_id` works on:
/// the first segment with that id and the first asset with that segment's
/// asset id.
pub open spec fn edit_target(assets: Seq<MediaAsset>, segs: Seq<Segment>, segment_id: u64) -> Result<
    (int, int),
    EngineError,
> {
    match find_id(segs, segment_id) {
        None => Err(EngineError::SegmentIdNotFound { segment_id }),
        Some(i) => match find_asset(assets, segs[i].asset_id) {
            None => Err(EngineError::MissingAsset { asset_id: segs[i].asset_id }),
            Some(a) => Ok((i, a)),
        },
    }
}

/// What a split of the project at tick `at` does: refused at any segment
/// boundary, in a gap, and when the covering segment's asset is unknown;
/// otherwise the timeline's split with the asset's time bases.
pub open spec fn project_split_outcome(
    assets: Seq<MediaAsset>,
    segs: Seq<Segment>,
    at: i64,
    new_id: u64,
) -> Result<Seq<Segment>, EngineError> {
    if is_boundary(segs, at as int) {
        Err(EngineError::SplitPointAtBoundary { at_tl: at })
    } else {
        match find_covering(segs, at as int) {
            None => Err(EngineError::SegmentNotFound { at_tl: at }),
            Some(i) => match find_asset(assets, segs[i].asset_id) {
                None => Err(EngineError::MissingAsset { asset_id: segs[i].asset_id }),
                Some(a) => split_outcome(
                    segs,
                    at,
                    new_id,
                    assets[a].spec_video_time_base(),
                    assets[a].spec_audio_time_base(),
                ),
            },
        }
    }
}

/// What the preview for tick `t_tl` asks for: the covering segment's asset
/// and the position on its source clock.
pub open spec fn preview_outcome(assets: Seq<MediaAsset>, segs: Seq<Segment>, t_tl: i64) -> Result<
    (int, int),
    EngineError,
> {
    match find_covering(segs, t_tl as int) {
        None => Err(EngineError::SegmentNotFound { at_tl: t_tl }),
        Some(i) => match find_asset(assets, segs[i].asset_id) {
            None => Err(EngineError::MissingAsset { asset_id: segs[i].asset_id }),
            Some(a) => if assets[a].video is None || segs[i].src_in_video is None {
                Err(EngineError::MissingVideoStream { asset_id: assets[a].id })
            } else {
                Ok(
                    (
                        a,
                        preview_source_tl(
                            segs[i],
                            t_tl as int,
                            segs[i].src_in_video->0,
                            assets[a].video->0.time_base,
                        ),
                    ),
                )
            },
        },
    }
}

/// A split of the project at the start or the end of any segment is
/// refused as a boundary, whatever else holds of the tick or of the
/// assets.
pub proof fn lemma_project_split_boundary_rejected(
    assets: Seq<MediaAsset>,
    segs: Seq<Segment>,
    at: i64,
    new_id: u64,
    i: int,
)
    requires
        0 <= i < segs.len(),
        segs[i].has_boundary(at as int),
    ensures
        project_split_outcome(assets, segs, at, new_id) == Err::<Seq<Segment>, EngineError>(
            EngineError::SplitPointAtBoundary { at_tl: at },
        ),
{
}

/// A split of the project that is applied is a split of the timeline:
/// the two pieces are adjacent, span what the segment spanned, and the
/// duration of the project is what it was.
pub proof fn lemma_project_split_contiguity(
    assets: Seq<MediaAsset>,
    segs: Seq<Segment>,
    at: i64,
    new_id: u64,
)
    requires
        timeline_wf(segs),
        project_split_outcome(assets, segs, at, new_id) is Ok,
    ensures
        ({
            let after = project_split_outcome(assets, segs, at, new_id)->Ok_0;
            let i = find_covering(segs, at as int)->0;
            &&& 0 <= i < segs.len()
            &&& after.len() == segs.len() + 1
            &&& after[i].timeline_start == segs[i].timeline_start
            &&& after[i].end_tl() == after[i + 1].timeline_start
            &&& after[i + 1].end_tl() == segs[i].end_tl()
            &&& duration_of(after) == duration_of(segs)
            &&& timeline_wf(after)
        }),
{
    let i = find_covering(segs, at as int)->0;
    let a = find_asset(assets, segs[i].asset_id)->0;
    crate::timeline::lemma_split_contiguity(
        segs,
        at,
        new_id,
        assets[a].spec_video_time_base(),
        assets[a].spec_audio_time_base(),
    );
}

/// Moving a segment of a well-formed timeline keeps the timeline well
/// formed: the segment keeps its duration and its source ranges, stays
/// between its neighbours, and no other segment changes. The last segment
/// asked to start at `i64::MAX` starts at `i64::MAX` less its duration.
pub proof fn lemma_move_clamp(segs: Seq<Segment>, index: int, new_start: int)
    requires
        timeline_wf(segs),
        0 <= index < segs.len(),
    ensures
        ({
            let after = move_model(segs, index, new_start);
            &&& timeline_wf(after)
            &&& after.len() == segs.len()
            &&& after[index].timeline_duration == segs[index].timeline_duration
            &&& after[index] == Segment { timeline_start: after[index].timeline_start, ..segs[index] }
            &&& prev_end_of(segs, index) <= after[index].timeline_start
            &&& after[index].end_tl() <= next_start_of(segs, index)
            &&& forall|j: int| 0 <= j < segs.len() && j != index ==> after[j] == segs[j]
            &&& (index == segs.len() - 1 && new_start == i64::MAX ==> after[index].timeline_start
                == i64::MAX - segs[index].timeline_duration)
        }),
{
    let after = move_model(segs, index, new_start);
    let seg = segs[index];
    assert(seg.wf());
    if index > 0 {
        assert(segs[index - 1].wf());
        assert(segs[index - 1].end_tl() <= seg.timeline_start);
    }
    if index + 1 < segs.len() {
        assert(segs[index + 1].wf());
        assert(seg.end_tl() <= segs[index + 1].timeline_start);
    }
    let target = move_target(segs, index, new_start);
    assert(prev_end_of(segs, index) <= target <= next_start_of(segs, index)
        - seg.timeline_duration);
    assert forall|k: int| 0 <= k < after.len() implies (#[trigger] after[k]).wf() by {
        if k != index {
            assert(segs[k].wf());
        }
    }
    assert forall|k: int, l: int| 0 <= k < l < after.len() implies (#[trigger] after[k]).end_tl() <= (
    #[trigger] after[l]).timeline_start by {
        if k == index {
            assert(segs[index + 1].end_tl() <= segs[l].timeline_start || l == index + 1);
            assert(segs[index + 1].wf());
        } else if l == index {
            assert(segs[k].end_tl() <= segs[index - 1].timeline_start || k == index - 1);
            assert(segs[index - 1].wf());
        } else {
            assert(segs[k].end_tl() <= segs[l].timeline_start);
        }
    }
}

/// Trimming the start edge of a segment of a well-formed timeline keeps the
/// timeline well formed: the segment keeps its end and at least one tick,
/// does not start before the previous segment ends, and no other segment
/// changes. An `in` bound that was moved is not negative.
pub proof fn lemma_trim_start(
    segs: Seq<Segment>,
    index: int,
    new_start: int,
    vtb: Option<Rational>,
    atb: Option<Rational>,
)
    requires
        timeline_wf(segs),
        0 <= index < segs.len(),
    ensures
        ({
            let after = trim_start_model(segs, index, new_start, vtb, atb);
            &&& timeline_wf(after)
            &&& after.len() == segs.len()
            &&& after[index].timeline_duration >= 1
            &&& after[index].end_tl() == segs[index].end_tl()
            &&& prev_end_of(segs, index) <= after[index].timeline_start
            &&& after[index].src_out_video == segs[index].src_out_video
            &&& after[index].src_out_audio == segs[index].src_out_audio
            &&& (segs[index].src_in_video is Some && vtb is Some ==> after[index].src_in_video->0
                >= 0)
            &&& (segs[index].src_in_audio is Some && atb is Some ==> after[index].src_in_audio->0
                >= 0)
            &&& forall|j: int| 0 <= j < segs.len() && j != index ==> after[j] == segs[j]
        }),
{
    let after = trim_start_model(segs, index, new_start, vtb, atb);
    let seg = segs[index];
    assert(seg.wf());
    if index > 0 {
        assert(segs[index - 1].wf());
        assert(segs[index - 1].end_tl() <= seg.timeline_start);
    }
    assert forall|k: int| 0 <= k < after.len() implies (#[trigger] after[k]).wf() by {
        if k != index {
            assert(segs[k].wf());
        }
    }
    assert forall|k: int, l: int| 0 <= k < l < after.len() implies (#[trigger] after[k]).end_tl() <= (
    #[trigger] after[l]).timeline_start by {
        if k == index {
            assert(seg.end_tl() <= segs[l].timeline_start);
        } else if l == index {
            assert(segs[k].end_tl() <= segs[index - 1].timeline_start || k == index - 1);
            assert(segs[index - 1].wf());
        } else {
            assert(segs[k].end_tl() <= segs[l].timeline_start);
        }
    }
}

/// Trimming the end edge of a segment of a well-formed timeline keeps the
/// timeline well formed: the segment keeps its start and at least one tick,
/// does not end after the next segment starts, and no other segment
/// changes. An `out` bound that was moved is not negative.
pub proof fn lemma_trim_end(
    segs: Seq<Segment>,
    index: int,
    new_end: int,
    vtb: Option<Rational>,
    atb: Option<Rational>,
)
    requires
        timeline_wf(segs),
        0 <= index < segs.len(),
    ensures
        ({
            let after = trim_end_model(segs, index, new_end, vtb, atb);
            &&& timeline_wf(after)
            &&& after.len() == segs.len()
            &&& after[index].timeline_duration >= 1
            &&& after[index].timeline_start == segs[index].timeline_start
            &&& after[index].end_tl() <= next_start_of(segs, index)
            &&& after[index].src_in_video == segs[index].src_in_video
            &&& after[index].src_in_audio == segs[index].src_in_audio
            &&& (segs[index].src_out_video is Some && vtb is Some ==> after[index].src_out_video->0
                >= 0)
            &&& (segs[index].src_out_audio is Some && atb is Some ==> after[index].src_out_audio->0
                >= 0)
            &&& forall|j: int| 0 <= j < segs.len() && j != index ==> after[j] == segs[j]
        }),
{
    let after = trim_end_model(segs, index, new_end, vtb, atb);
    let seg = segs[index];
    assert(seg.wf());
    if index + 1 < segs.len() {
        assert(segs[index + 1].wf());
        assert(seg.end_tl() <= segs[index + 1].timeline_start);
    }
    assert forall|k: int| 0 <= k < after.len() implies (#[trigger] after[k]).wf() by {
        if k != index {
            assert(segs[k].wf());
        }
    }
    assert forall|k: int, l: int| 0 <= k < l < after.len() implies (#[trigger] after[k]).end_tl() <= (
    #[trigger] after[l]).timeline_start by {
        if k == index {
            assert(segs[index + 1].end_tl() <= segs[l].timeline_start || l == index + 1);
            assert(segs[index + 1].wf());
        } else if l == index {
            assert(segs[k].end_tl() <= seg.timeline_start);
        } else {
            assert(segs[k].end_tl() <= segs[l].timeline_start);
        }
    }
}

impl Project {
    /// The timeline is well formed and every asset's time bases are valid.
    pub open spec fn wf(&self) -> bool {
        &&& self.timeline.wf()
        &&& assets_wf(self.assets@)
    }

    /// Builds a project with a single segment spanning the full imported
    /// asset duration.
    ///
    /// A stream that the probe did not find leaves the segment's range for
    /// it unset. A probe result that no project can hold is refused: a
    /// duration under one tick, or a stream time base that is not positive.
    pub fn from_single_asset(asset_id: u64, segment_id: u64, probed: ProbedMedia) -> (out: Result<
        Project,
        EngineError,
    >)
        ensures
            match probe_error(probed) {
                Some(e) => out == Err::<Project, EngineError>(e),
                None => {
                    &&& out is Ok
                    &&& out->Ok_0.wf()
                    &&& out->Ok_0.assets@ == seq![single_asset(asset_id, probed)]
                    &&& out->Ok_0.timeline@ == seq![single_segment(asset_id, segment_id, probed)]
                    &&& out->Ok_0.settings.export_settings is None
                },
            },
    {
        if probed.duration_tl <= 0 {
            return Err(EngineError::MissingDuration(probed.path));
        }
        if let Some(video) = probed.video {
            if video.time_base.num <= 0 || video.time_base.den <= 0 {
                return Err(
                    EngineError::InvalidRational {
                        num: video.time_base.num,
                        den: video.time_base.den,
                    },
                );
            }
        }
        if let Some(audio) = probed.audio {
            if audio.time_base.num <= 0 || audio.time_base.den <= 0 {
                return Err(
                    EngineError::InvalidRational {
                        num: audio.time_base.num,
                        den: audio.time_base.den,
                    },
                );
            }
        }
        let segment = Segment {
            id: segment_id,
            asset_id,
            src_in_video: match probed.video {
                Some(video) => Some(video.src_in),
                None => None,
            },
            src_out_video: match probed.video {
                Some(video) => Some(video.src_out),
                None => None,
            },
            src_in_audio: match probed.audio {
                Some(audio) => Some(audio.src_in),
                None => None,
            },
            src_out_audio: match probed.audio {
                Some(audio) => Some(audio.src_out),
                None => None,
            },
            timeline_start: 0,
            timeline_duration: probed.duration_tl,
        };
        let asset = MediaAsset {
            id: asset_id,
            video_stream_index: match probed.video {
                Some(video) => Some(video.stream_index),
                None => None,
            },
            audio_stream_index: match probed.audio {
                Some(audio) => Some(audio.stream_index),
                None => None,
            },
            video: match probed.video {
                Some(video) => Some(VideoStreamInfo::from(video)),
                None => None,
            },
            audio: match probed.audio {
                Some(audio) => Some(AudioStreamInfo::from(audio)),
                None => None,
            },
            duration_tl: probed.duration_tl,
            path: probed.path,
        };
        let mut assets: Vec<MediaAsset> = Vec::new();
        assets.push(asset);
        let mut segments: Vec<Segment> = Vec::new();
        segments.push(segment);
        let project = Project {
            assets,
            timeline: Timeline { segments },
            settings: ProjectSettings::default(),
        };
        assert(project.assets@ =~= seq![single_asset(asset_id, probed)]);
        assert(project.timeline@ =~= seq![single_segment(asset_id, segment_id, probed)]);
        Ok(project)
    }

    /// Returns project duration in timeline ticks.
    pub fn duration_tl(&self) -> (out: i64)
        requires
            self.wf(),
        ensures
            out == duration_of(self.timeline@),
    {
        self.timeline.duration_tl()
    }

    /// Creates an immutable snapshot for the UI: one entry per asset and
    /// per segment, in their order, with the total duration and the given
    /// preview bucket size.
    pub fn snapshot(&self, preview_bucket_tl: i64) -> (out: ProjectSnapshot)
        requires
            self.wf(),
        ensures
            out.assets@ == self.assets@.map_values(|a: MediaAsset| asset_summary(a)),
            out.segments@ == self.timeline@.map_values(|s: Segment| segment_summary(s)),
            out.duration_tl == duration_of(self.timeline@),
            out.preview_bucket_tl == preview_bucket_tl,
    {
        let mut assets: Vec<MediaAssetSummary> = Vec::new();
        let mut i: usize = 0;
        while i < self.assets.len()
            invariant
                i <= self.assets@.len(),
                assets@.len() == i,
                forall|k: int| 0 <= k < i ==> assets@[k] == asset_summary(self.assets@[k]),
            decreases self.assets@.len() - i,
        {
            let asset = &self.assets[i];
            assets.push(
                MediaAssetSummary {
                    id: asset.id,
                    path: asset.path.clone(),
                    has_video: asset.video.is_some(),
                    has_audio: asset.audio.is_some(),
                    duration_tl: asset.duration_tl,
                },
            );
            i += 1;
        }
        let mut segments: Vec<SegmentSummary> = Vec::new();
        let mut j: usize = 0;
        while j < self.timeline.segments.len()
            invariant
                j <= self.timeline@.len(),
                segments@.len() == j,
                forall|k: int| 0 <= k < j ==> segments@[k] == segment_summary(self.timeline@[k]),
            decreases self.timeline@.len() - j,
        {
            let segment = &self.timeline.segments[j];
            segments.push(
                SegmentSummary {
                    id: segment.id,
                    asset_id: segment.asset_id,
                    timeline_start: segment.timeline_start,
                    timeline_duration: segment.timeline_duration,
                    src_in_video: segment.src_in_video,
                    src_out_video: segment.src_out_video,
                    src_in_audio: segment.src_in_audio,
                    src_out_audio: segment.src_out_audio,
                },
            );
            j += 1;
        }
        assert(assets@ =~= self.assets@.map_values(|a: MediaAsset| asset_summary(a)));
        assert(segments@ =~= self.timeline@.map_values(|s: Segment| segment_summary(s)));
        ProjectSnapshot { assets, segments, duration_tl: self.duration_tl(), preview_bucket_tl }
    }

    /// Finds the index of the first asset with the given id.
    pub fn find_asset_index(&self, asset_id: u64) -> (out: Option<usize>)
        ensures
            out is Some ==> out->0 < self.assets@.len() && find_asset(self.assets@, asset_id)
                == Some(out->0 as int) && self.assets@[out->0 as int].id == asset_id,
            out is None ==> find_asset(self.assets@, asset_id) is None,
    {
        let mut i: usize = 0;
        proof {
            lemma_find_asset_from(self.assets@, asset_id, 0);
        }
        while i < self.assets.len()
            invariant
                i <= self.assets@.len(),
                forall|j: int| 0 <= j < i ==> (#[trigger] self.assets@[j]).id != asset_id,
                match find_asset_from(self.assets@, asset_id, 0) {
                    Some(k) => 0 <= k < self.assets@.len() && self.assets@[k].id == asset_id
                        && forall|j: int|
                        0 <= j < k ==> (#[trigger] self.assets@[j]).id != asset_id,
                    None => forall|j: int|
                        0 <= j < self.assets@.len() ==> (#[trigger] self.assets@[j]).id != asset_id,
                },
            decreases self.assets@.len() - i,
        {
            if self.assets[i].id == asset_id {
                return Some(i);
            }
            i += 1;
        }
        None
    }

    /// Finds the first asset with the given id.
    pub fn asset_by_id(&self, asset_id: u64) -> (out: Result<&MediaAsset, EngineError>)
        ensures
            match find_asset(self.assets@, asset_id) {
                Some(a) => 0 <= a < self.assets@.len() && out is Ok && *out->Ok_0
                    == self.assets@[a] && self.assets@[a].id == asset_id,
                None => out == Err::<&MediaAsset, EngineError>(
                    EngineError::MissingAsset { asset_id },
                ),
            },
    {
        match self.find_asset_index(asset_id) {
            Some(a) => Ok(&self.assets[a]),
            None => Err(EngineError::MissingAsset { asset_id }),
        }
    }

    /// Computes the preview request for a timeline timestamp.
    ///
    /// Fails with `SegmentNotFound` in a gap, with `MissingAsset` when the
    /// covering segment's asset is unknown, and with `MissingVideoStream`
    /// when the asset has no video stream or the segment no video range.
    pub fn preview_request_at(&self, t_tl: i64) -> (out: Result<PreviewRequest, EngineError>)
        requires
            self.wf(),
        ensures
            match preview_outcome(self.assets@, self.timeline@, t_tl) {
                Ok((a, source_tl)) => out is Ok && out->Ok_0.path == self.assets@[a].path
                    && out->Ok_0.source_tl == source_tl && source_tl >= 0,
                Err(e) => out == Err::<PreviewRequest, EngineError>(e),
            },
    {
        let index = match self.timeline.find_segment_index(t_tl) {
            Some(index) => index,
            None => {
                return Err(EngineError::SegmentNotFound { at_tl: t_tl });
            },
        };
        let segment = &self.timeline.segments[index];
        let asset = match self.asset_by_id(segment.asset_id) {
            Ok(asset) => asset,
            Err(e) => {
                return Err(e);
            },
        };
        let video = match asset.video {
            Some(video) => video,
            None => {
                return Err(EngineError::MissingVideoStream { asset_id: asset.id });
            },
        };
        let src_in_video = match segment.src_in_video {
            Some(src_in_video) => src_in_video,
            None => {
                return Err(EngineError::MissingVideoStream { asset_id: asset.id });
            },
        };
        proof {
            assert(self.timeline@[index as int].wf());
            let a = find_asset(self.assets@, segment.asset_id)->0;
            assert(self.assets@[a].wf());
        }
        let local_tl = t_tl - segment.timeline_start;
        let offset = rescale(local_tl, timeline_time_base(), video.time_base);
        let wide: i128 = src_in_video as i128 + offset as i128;
        let src_target_video_ts: i64 = if wide < i64::MIN as i128 {
            i64::MIN
        } else if wide > i64::MAX as i128 {
            i64::MAX
        } else {
            wide as i64
        };
        let src_target_tl = rescale(src_target_video_ts, video.time_base, timeline_time_base());
        let source_tl = if src_target_tl < 0 {
            0
        } else {
            src_target_tl
        };
        Ok(PreviewRequest { path: asset.path.clone(), source_tl })
    }

    /// Splits one segment at `at_tl`.
    ///
    /// The two pieces are adjacent and together span what the segment
    /// spanned. The project is left unchanged when the split is refused.
    pub fn split(&mut self, at_tl: i64, next_segment_id: u64) -> (out: Result<(), EngineError>)
        requires
            old(self).wf(),
        ensures
            final(self).wf(),
            final(self).assets == old(self).assets,
            final(self).settings == old(self).settings,
            match project_split_outcome(
                old(self).assets@,
                old(self).timeline@,
                at_tl,
                next_segment_id,
            ) {
                Ok(after) => out is Ok && final(self).timeline@ == after,
                Err(e) => out == Err::<(), EngineError>(e) && final(self).timeline@ == old(self).timeline@,
            },
    {
        if self.timeline.is_boundary_split_point(at_tl) {
            return Err(EngineError::SplitPointAtBoundary { at_tl });
        }
        let index = match self.timeline.find_segment_index(at_tl) {
            Some(index) => index,
            None => {
                return Err(EngineError::SegmentNotFound { at_tl });
            },
        };
        let asset_id = self.timeline.segments[index].asset_id;
        let (video_tb, audio_tb) = match self.asset_by_id(asset_id) {
            Ok(asset) => (asset.video_time_base(), asset.audio_time_base()),
            Err(e) => {
                return Err(e);
            },
        };
        proof {
            let a = find_asset(self.assets@, asset_id)->0;
            assert(self.assets@[a].wf());
        }
        self.timeline.split_segment(at_tl, next_segment_id, video_tb, audio_tb)
    }

    /// Cuts one segment at `at_tl`: the segment that starts there, else the
    /// one that contains it. Later segments move left by the removed
    /// duration; gaps elsewhere stay.
    pub fn cut(&mut self, at_tl: i64) -> (out: Result<(), EngineError>)
        requires
            old(self).wf(),
        ensures
            final(self).wf(),
            final(self).assets == old(self).assets,
            final(self).settings == old(self).settings,
            match cut_target(old(self).timeline@, at_tl as int) {
                Some(i) => out is Ok && 0 <= i < old(self).timeline@.len() && final(self).timeline@ == cut_model(old(self).timeline@, i),
                None => out == Err::<(), EngineError>(EngineError::SegmentNotFound { at_tl })
                    && final(self).timeline@ == old(self).timeline@,
            },
    {
        match self.timeline.cut_segment(at_tl) {
            Ok(_) => Ok(()),
            Err(e) => Err(e),
        }
    }

    /// Moves one segment start time without changing its source range.
    ///
    /// The new start is limited so that the segment stays between its
    /// neighbours and ends within the `i64` range.
    pub fn move_segment(&mut self, segment_id: u64, new_start_tl: i64) -> (out: Result<
        (),
        EngineError,
    >)
        requires
            old(self).wf(),
        ensures
            final(self).wf(),
            final(self).assets == old(self).assets,
            final(self).settings == old(self).settings,
            match find_id(old(self).timeline@, segment_id) {
                Some(i) => out is Ok && 0 <= i < old(self).timeline@.len() && final(self).timeline@ == move_model(old(self).timeline@, i, new_start_tl as int),
                None => out == Err::<(), EngineError>(
                    EngineError::SegmentIdNotFound { segment_id },
                ) && final(self).timeline@ == old(self).timeline@,
            },
    {
        let index = match self.timeline.find_segment_index_by_id(segment_id) {
            Some(index) => index,
            None => {
                return Err(EngineError::SegmentIdNotFound { segment_id });
            },
        };
        let count = self.timeline.segments.len();
        let ghost before = self.timeline@;
        proof {
            lemma_move_clamp(before, index as int, new_start_tl as int);
            assert(before[index as int].wf());
            if index > 0 {
                assert(before[index - 1].wf());
                assert(before[index - 1].end_tl() <= before[index as int].timeline_start);
            }
            if index + 1 < count {
                assert(before[index + 1].wf());
                assert(before[index as int].end_tl() <= before[index + 1].timeline_start);
            }
        }
        let prev_end: i64 = if index == 0 {
            0
        } else {
            let prev = &self.timeline.segments[index - 1];
            prev.timeline_start + prev.timeline_duration
        };
        let mut segment = self.timeline.segments[index];
        let duration = segment.timeline_duration;
        let max_start: i64 = if index + 1 < count {
            self.timeline.segments[index + 1].timeline_start - duration
        } else {
            i64::MAX - duration
        };
        let wanted = if new_start_tl < 0 {
            0
        } else {
            new_start_tl
        };
        segment.timeline_start = clamp_tick(wanted, prev_end, max_start);
        self.timeline.segments[index] = segment;
        assert(self.timeline@ =~= move_model(before, index as int, new_start_tl as int));
        Ok(())
    }

    /// Trims the start edge of one segment.
    ///
    /// The new start is limited to `[previous end, end - 1]`, and each `in`
    /// bound moves by the same time, expressed in its stream's clock and
    /// held at zero.
    pub fn trim_segment_start(&mut self, segment_id: u64, new_start_tl: i64) -> (out: Result<
        (),
        EngineError,
    >)
        requires
            old(self).wf(),
        ensures
            final(self).wf(),
            final(self).assets == old(self).assets,
            final(self).settings == old(self).settings,
            match edit_target(old(self).assets@, old(self).timeline@, segment_id) {
                Ok((i, a)) => out is Ok && final(self).timeline@ == trim_start_model(
                    old(self).timeline@,
                    i,
                    new_start_tl as int,
                    old(self).assets@[a].spec_video_time_base(),
                    old(self).assets@[a].spec_audio_time_base(),
                ),
                Err(e) => out == Err::<(), EngineError>(e) && final(self).timeline@ == old(self).timeline@,
            },
    {
        let index = match self.timeline.find_segment_index_by_id(segment_id) {
            Some(index) => index,
            None => {
                return Err(EngineError::SegmentIdNotFound { segment_id });
            },
        };
        let mut segment = self.timeline.segments[index];
        let (video_tb, audio_tb) = match self.asset_by_id(segment.asset_id) {
            Ok(asset) => (asset.video_time_base(), asset.audio_time_base()),
            Err(e) => {
                return Err(e);
            },
        };
        let ghost before = self.timeline@;
        proof {
            let a = find_asset(self.assets@, segment.asset_id)->0;
            assert(self.assets@[a].wf());
            lemma_trim_start(before, index as int, new_start_tl as int, video_tb, audio_tb);
            assert(before[index as int].wf());
            if index > 0 {
                assert(before[index - 1].wf());
                assert(before[index - 1].end_tl() <= before[index as int].timeline_start);
            }
        }
        let prev_end: i64 = if index == 0 {
            0
        } else {
            let prev = &self.timeline.segments[index - 1];
            prev.timeline_start + prev.timeline_duration
        };
        let old_start = segment.timeline_start;
        let old_end = old_start + segment.timeline_duration;
        let clamped_start = clamp_tick(new_start_tl, prev_end, old_end - 1);
        let delta_tl = clamped_start - old_start;

        segment.timeline_start = clamped_start;
        segment.timeline_duration = old_end - clamped_start;
        segment.src_in_video = shift_stream_point(segment.src_in_video, delta_tl, video_tb);
        segment.src_in_audio = shift_stream_point(segment.src_in_audio, delta_tl, audio_tb);
        self.timeline.segments[index] = segment;
        assert(self.timeline@ =~= trim_start_model(
            before,
            index as int,
            new_start_tl as int,
            video_tb,
            audio_tb,
        ));
        Ok(())
    }

    /// Trims the end edge of one segment.
    ///
    /// The new end is limited to `[start + 1, next start]`, and each `out`
    /// bound moves by the same time, expressed in its stream's clock and
    /// held at zero.
    pub fn trim_segment_end(&mut self, segment_id: u64, new_end_tl: i64) -> (out: Result<
        (),
        EngineError,
    >)
        requires
            old(self).wf(),
        ensures
            final(self).wf(),
            final(self).assets == old(self).assets,
            final(self).settings == old(self).settings,
            match edit_target(old(self).assets@, old(self).timeline@, segment_id) {
                Ok((i, a)) => out is Ok && final(self).timeline@ == trim_end_model(
                    old(self).timeline@,
                    i,
                    new_end_tl as int,
                    old(self).assets@[a].spec_video_time_base(),
                    old(self).assets@[a].spec_audio_time_base(),
                ),
                Err(e) => out == Err::<(), EngineError>(e) && final(self).timeline@ == old(self).timeline@,
            },
    {
        let index = match self.timeline.find_segment_index_by_id(segment_id) {
            Some(index) => index,
            None => {
                return Err(EngineError::SegmentIdNotFound { segment_id });
            },
        };
        let mut segment = self.timeline.segments[index];
        let (video_tb, audio_tb) = match self.asset_by_id(segment.asset_id) {
            Ok(asset) => (asset.video_time_base(), asset.audio_time_base()),
            Err(e) => {
                return Err(e);
            },
        };
        let count = self.timeline.segments.len();
        let ghost before = self.timeline@;
        proof {
            let a = find_asset(self.assets@, segment.asset_id)->0;
            assert(self.assets@[a].wf());
            lemma_trim_end(before, index as int, new_end_tl as int, video_tb, audio_tb);
            assert(before[index as int].wf());
            if index + 1 < count {
                assert(before[index + 1].wf());
                assert(before[index as int].end_tl() <= before[index + 1].timeline_start);
            }
        }
        let old_start = segment.timeline_start;
        let old_end = old_start + segment.timeline_duration;
        let next_start: i64 = if index + 1 < count {
            self.timeline.segments[index + 1].timeline_start
        } else {
            i64::MAX
        };
        let clamped_end = clamp_tick(new_end_tl, old_start + 1, next_start);
        let delta_tl = clamped_end - old_end;

        segment.timeline_duration = clamped_end - old_start;
        segment.src_out_video = shift_stream_point(segment.src_out_video, delta_tl, video_tb);
        segment.src_out_audio = shift_stream_point(segment.src_out_audio, delta_tl, audio_tb);
        self.timeline.segments[index] = segment;
        assert(self.timeline@ =~= trim_end_model(
            before,
            index as int,
            new_end_tl as int,
            video_tb,
            audio_tb,
        ));
        Ok(())
    }
}

/// Why a probe result cannot become a project, if it cannot: its duration
/// is under one tick, or a stream's time base is not positive, the video
/// stream's being looked at first.
pub open spec fn probe_error(probed: ProbedMedia) -> Option<EngineError> {
    if probed.duration_tl <= 0 {
        Some(EngineError::MissingDuration(probed.path))
    } else if probed.video is Some && !probed.video->0.time_base.wf() {
        Some(
            EngineError::InvalidRational {
                num: probed.video->0.time_base.num,
                den: probed.video->0.time_base.den,
            },
        )
    } else if probed.audio is Some && !probed.audio->0.time_base.wf() {
        Some(
            EngineError::InvalidRational {
                num: probed.audio->0.time_base.num,
                den: probed.audio->0.time_base.den,
            },
        )
    } else {
        None
    }
}

/// What a project holds, with its lists as sequences.
pub struct ProjectView {
    pub assets: Seq<MediaAsset>,
    pub segments: Seq<Segment>,
    pub settings: ProjectSettings,
}

impl View for Project {
    type V = ProjectView;

    open spec fn view(&self) -> ProjectView {
        ProjectView { assets: self.assets@, segments: self.timeline@, settings: self.settings }
    }
}

/// The asset that an import of `probed` under `asset_id` creates.
pub open spec fn single_asset(asset_id: u64, probed: ProbedMedia) -> MediaAsset {
    MediaAsset {
        id: asset_id,
        path: probed.path,
        video_stream_index: match probed.video {
            Some(video) => Some(video.stream_index),
            None => None,
        },
        audio_stream_index: match probed.audio {
            Some(audio) => Some(audio.stream_index),
            None => None,
        },
        video: match probed.video {
            Some(video) => Some(
                VideoStreamInfo {
                    time_base: video.time_base,
                    frame_rate: video.frame_rate,
                    width: video.width,
                    height: video.height,
                },
            ),
            None => None,
        },
        audio: match probed.audio {
            Some(audio) => Some(
                AudioStreamInfo {
                    time_base: audio.time_base,
                    sample_rate: audio.sample_rate,
                    channels: audio.channels,
                },
            ),
            None => None,
        },
        duration_tl: probed.duration_tl,
    }
}

/// The one segment that an import of `probed` creates: it starts at zero,
/// lasts the whole probed duration and plays each stream's whole range.
pub open spec fn single_segment(asset_id: u64, segment_id: u64, probed: ProbedMedia) -> Segment {
    Segment {
        id: segment_id,
        asset_id,
        src_in_video: match probed.video {
            Some(video) => Some(video.src_in),
            None => None,
        },
        src_out_video: match probed.video {
            Some(video) => Some(video.src_out),
            None => None,
        },
        src_in_audio: match probed.audio {
            Some(audio) => Some(audio.src_in),
            None => None,
        },
        src_out_audio: match probed.audio {
            Some(audio) => Some(audio.src_out),
            None => None,
        },
        timeline_start: 0,
        timeline_duration: probed.duration_tl,
    }
}

} // verus!
