//! What may be written to a project file and what is accepted from one.
//!
//! Reading and writing the file itself happens outside this library. Here
//! a project is checked before it is handed out for writing, and a
//! document that was read is checked before it becomes a project.

use vstd::prelude::*;
use std::collections::HashSet;
use crate::error::EngineError;
use crate::project::{MediaAsset, Project, ProjectSettings, assets_wf, find_asset};
use crate::text::{decimal, push_decimal, push_signed_decimal, push_text, signed_decimal};
use crate::timeline::{Segment, Timeline, timeline_wf};

verus! {

broadcast use vstd::std_specs::hash::group_hash_axioms;

/// The schema version that this library reads and writes.
pub const PROJECT_FILE_SCHEMA_VERSION: u32 = 1;

/// A project as it stands in a project file.
#[derive(Debug, PartialEq, Eq)]
pub struct ProjectFile {
    pub schema_version: u32,
    pub assets: Vec<MediaAsset>,
    pub segments: Vec<Segment>,
    pub settings: ProjectSettings,
}

/// A structural fault that keeps a project out of a project file.
#[derive(Debug, Clone, Copy, PartialEq, Eq)]
pub enum ProjectFileIssue {
    UnsupportedSchemaVersion { schema_version: u32 },
    DuplicateAssetId { asset_id: u64 },
    MissingVideoStreamIndex { asset_id: u64 },
    VideoStreamIndexWithoutStream { asset_id: u64 },
    MissingAudioStreamIndex { asset_id: u64 },
    AudioStreamIndexWithoutStream { asset_id: u64 },
    DuplicateSegmentId { segment_id: u64 },
    NegativeStart { segment_id: u64, timeline_start: i64 },
    NonPositiveDuration { segment_id: u64, timeline_duration: i64 },
    RangeOverflow { segment_id: u64 },
    Overlap { segment_id: u64, timeline_start: i64 },
}

/// Why a project is refused: a structural fault, reported as an invalid
/// project file with its reason, or an error that is reported as it is.
pub enum PersistenceFailure {
    Issue(ProjectFileIssue),
    Error(EngineError),
}

impl ProjectFileIssue {
    /// The reason that an invalid-project-file error gives for the fault.
    pub open spec fn reason_text(self) -> Seq<char> {
        match self {
            ProjectFileIssue::UnsupportedSchemaVersion { schema_version } =>
                "unsupported project schema version "@ + decimal(schema_version as nat),
            ProjectFileIssue::DuplicateAssetId { asset_id } => "duplicate asset id "@ + decimal(
                asset_id as nat,
            ),
            ProjectFileIssue::MissingVideoStreamIndex { asset_id } => "asset "@ + decimal(
                asset_id as nat,
            ) + " is missing video stream index"@,
            ProjectFileIssue::VideoStreamIndexWithoutStream { asset_id } => "asset "@ + decimal(
                asset_id as nat,
            ) + " has video stream index without video stream"@,
            ProjectFileIssue::MissingAudioStreamIndex { asset_id } => "asset "@ + decimal(
                asset_id as nat,
            ) + " is missing audio stream index"@,
            ProjectFileIssue::AudioStreamIndexWithoutStream { asset_id } => "asset "@ + decimal(
                asset_id as nat,
            ) + " has audio stream index without audio stream"@,
            ProjectFileIssue::DuplicateSegmentId { segment_id } => "duplicate segment id "@
                + decimal(segment_id as nat),
            ProjectFileIssue::NegativeStart { segment_id, timeline_start } => "segment "@
                + decimal(segment_id as nat) + " starts at negative timeline "@ + signed_decimal(
                timeline_start as int,
            ),
            ProjectFileIssue::NonPositiveDuration { segment_id, timeline_duration } => "segment "@
                + decimal(segment_id as nat) + " has non-positive duration "@ + signed_decimal(
                timeline_duration as int,
            ),
            ProjectFileIssue::RangeOverflow { segment_id } => "segment "@ + decimal(
                segment_id as nat,
            ) + " timeline range overflowed i64"@,
            ProjectFileIssue::Overlap { segment_id, timeline_start } => "segment "@ + decimal(
                segment_id as nat,
            ) + " overlaps previous segment at "@ + signed_decimal(timeline_start as int),
        }
    }

    /// Renders the reason for the fault.
    pub fn reason(&self) -> (out: String)
        ensures
            out@ == self.reason_text(),
    {
        let mut out = String::new();
        match self {
            ProjectFileIssue::UnsupportedSchemaVersion { schema_version } => {
                push_text(&mut out, "unsupported project schema version ");
                push_decimal(&mut out, *schema_version as u64);
            },
            ProjectFileIssue::DuplicateAssetId { asset_id } => {
                push_text(&mut out, "duplicate asset id ");
                push_decimal(&mut out, *asset_id);
            },
            ProjectFileIssue::MissingVideoStreamIndex { asset_id } => {
                push_text(&mut out, "asset ");
                push_decimal(&mut out, *asset_id);
                push_text(&mut out, " is missing video stream index");
            },
            ProjectFileIssue::VideoStreamIndexWithoutStream { asset_id } => {
                push_text(&mut out, "asset ");
                push_decimal(&mut out, *asset_id);
                push_text(&mut out, " has video stream index without video stream");
            },
            ProjectFileIssue::MissingAudioStreamIndex { asset_id } => {
                push_text(&mut out, "asset ");
                push_decimal(&mut out, *asset_id);
                push_text(&mut out, " is missing audio stream index");
            },
            ProjectFileIssue::AudioStreamIndexWithoutStream { asset_id } => {
                push_text(&mut out, "asset ");
                push_decimal(&mut out, *asset_id);
                push_text(&mut out, " has audio stream index without audio stream");
            },
            ProjectFileIssue::DuplicateSegmentId { segment_id } => {
                push_text(&mut out, "duplicate segment id ");
                push_decimal(&mut out, *segment_id);
            },
            ProjectFileIssue::NegativeStart { segment_id, timeline_start } => {
                push_text(&mut out, "segment ");
                push_decimal(&mut out, *segment_id);
                push_text(&mut out, " starts at negative timeline ");
                push_signed_decimal(&mut out, *timeline_start);
            },
            ProjectFileIssue::NonPositiveDuration { segment_id, timeline_duration } => {
                push_text(&mut out, "segment ");
                push_decimal(&mut out, *segment_id);
                push_text(&mut out, " has non-positive duration ");
                push_signed_decimal(&mut out, *timeline_duration);
            },
            ProjectFileIssue::RangeOverflow { segment_id } => {
                push_text(&mut out, "segment ");
                push_decimal(&mut out, *segment_id);
                push_text(&mut out, " timeline range overflowed i64");
            },
            ProjectFileIssue::Overlap { segment_id, timeline_start } => {
                push_text(&mut out, "segment ");
                push_decimal(&mut out, *segment_id);
                push_text(&mut out, " overlaps previous segment at ");
                push_signed_decimal(&mut out, *timeline_start);
            },
        }
        assert(out@ =~= self.reason_text());
        out
    }

    /// The error that reports the fault.
    pub fn into_error(self) -> (out: EngineError)
        ensures
            reports(out, PersistenceFailure::Issue(self)),
    {
        EngineError::InvalidProjectFile { reason: self.reason() }
    }
}

/// Whether `error` is the error that reports `failure`.
pub open spec fn reports(error: EngineError, failure: PersistenceFailure) -> bool {
    match failure {
        PersistenceFailure::Error(e) => error == e,
        PersistenceFailure::Issue(issue) => error is InvalidProjectFile
            && error->InvalidProjectFile_reason@ == issue.reason_text(),
    }
}

/// Whether an asset before `i` has the id of asset `i`.
pub open spec fn asset_id_repeated(assets: Seq<MediaAsset>, i: int) -> bool {
    exists|j: int| 0 <= j < i && (#[trigger] assets[j]).id == assets[i].id
}

/// Whether a segment before `i` has the id of segment `i`.
pub open spec fn segment_id_repeated(segs: Seq<Segment>, i: int) -> bool {
    exists|j: int| 0 <= j < i && (#[trigger] segs[j]).id == segs[i].id
}

/// The fault of asset `i`, if it has one: a repeated id, or a stream
/// without its index, or an index without its stream.
pub open spec fn asset_issue(assets: Seq<MediaAsset>, i: int) -> Option<ProjectFileIssue> {
    let asset = assets[i];
    if asset_id_repeated(assets, i) {
        Some(ProjectFileIssue::DuplicateAssetId { asset_id: asset.id })
    } else if asset.video is Some && asset.video_stream_index is None {
        Some(ProjectFileIssue::MissingVideoStreamIndex { asset_id: asset.id })
    } else if asset.video is None && asset.video_stream_index is Some {
        Some(ProjectFileIssue::VideoStreamIndexWithoutStream { asset_id: asset.id })
    } else if asset.audio is Some && asset.audio_stream_index is None {
        Some(ProjectFileIssue::MissingAudioStreamIndex { asset_id: asset.id })
    } else if asset.audio is None && asset.audio_stream_index is Some {
        Some(ProjectFileIssue::AudioStreamIndexWithoutStream { asset_id: asset.id })
    } else {
        None
    }
}

/// The first fault among the first `n` assets.
pub open spec fn first_asset_issue(assets: Seq<MediaAsset>, n: int) -> Option<ProjectFileIssue>
    decreases n,
{
    if n <= 0 {
        None
    } else {
        match first_asset_issue(assets, n - 1) {
            Some(issue) => Some(issue),
            None => asset_issue(assets, n - 1),
        }
    }
}

/// What is wrong with the video range of `segment` on `asset`: a range
/// needs a stream, a stream needs both bounds, and the bounds may not run
/// backwards.
pub open spec fn video_range_error(asset: MediaAsset, segment: Segment) -> Option<EngineError> {
    if asset.video is Some {
        if segment.src_in_video is Some && segment.src_out_video is Some {
            if segment.src_out_video->0 < segment.src_in_video->0 {
                Some(
                    EngineError::InvalidVideoRange {
                        segment_id: segment.id,
                        src_in_video: segment.src_in_video->0,
                        src_out_video: segment.src_out_video->0,
                    },
                )
            } else {
                None
            }
        } else {
            Some(EngineError::MissingVideoRange { segment_id: segment.id })
        }
    } else if segment.src_in_video is None && segment.src_out_video is None {
        None
    } else {
        Some(EngineError::MissingVideoStream { asset_id: asset.id })
    }
}

/// What is wrong with the audio range of `segment` on `asset`.
pub open spec fn audio_range_error(asset: MediaAsset, segment: Segment) -> Option<EngineError> {
    if asset.audio is Some {
        if segment.src_in_audio is Some && segment.src_out_audio is Some {
            if segment.src_out_audio->0 < segment.src_in_audio->0 {
                Some(
                    EngineError::InvalidAudioRange {
                        segment_id: segment.id,
                        src_in_audio: segment.src_in_audio->0,
                        src_out_audio: segment.src_out_audio->0,
                    },
                )
            } else {
                None
            }
        } else {
            Some(EngineError::MissingAudioRange { segment_id: segment.id })
        }
    } else if segment.src_in_audio is None && segment.src_out_audio is None {
        None
    } else {
        Some(EngineError::MissingAudioStream { asset_id: asset.id })
    }
}

/// What is wrong with the source ranges of `segment` on `asset`, video
/// first.
pub open spec fn segment_range_error(asset: MediaAsset, segment: Segment) -> Option<EngineError> {
    match video_range_error(asset, segment) {
        Some(e) => Some(e),
        None => audio_range_error(asset, segment),
    }
}

/// What is wrong with segment `i`, if anything, in the order in which it is
/// looked for: a repeated id, a negative start, a duration under one tick,
/// an unknown asset, a bad source range, an end beyond `i64`, a start
/// before the previous segment's end.
pub open spec fn segment_failure(assets: Seq<MediaAsset>, segs: Seq<Segment>, i: int) -> Option<
    PersistenceFailure,
> {
    let seg = segs[i];
    if segment_id_repeated(segs, i) {
        Some(PersistenceFailure::Issue(ProjectFileIssue::DuplicateSegmentId { segment_id: seg.id }))
    } else if seg.timeline_start < 0 {
        Some(
            PersistenceFailure::Issue(
                ProjectFileIssue::NegativeStart {
                    segment_id: seg.id,
                    timeline_start: seg.timeline_start,
                },
            ),
        )
    } else if seg.timeline_duration <= 0 {
        Some(
            PersistenceFailure::Issue(
                ProjectFileIssue::NonPositiveDuration {
                    segment_id: seg.id,
                    timeline_duration: seg.timeline_duration,
                },
            ),
        )
    } else {
        match find_asset(assets, seg.asset_id) {
            None => Some(
                PersistenceFailure::Error(EngineError::MissingAsset { asset_id: seg.asset_id }),
            ),
            Some(a) => match segment_range_error(assets[a], seg) {
                Some(e) => Some(PersistenceFailure::Error(e)),
                None => if seg.end_tl() > i64::MAX {
                    Some(
                        PersistenceFailure::Issue(
                            ProjectFileIssue::RangeOverflow { segment_id: seg.id },
                        ),
                    )
                } else if i > 0 && seg.timeline_start < segs[i - 1].end_tl() {
                    Some(
                        PersistenceFailure::Issue(
                            ProjectFileIssue::Overlap {
                                segment_id: seg.id,
                                timeline_start: seg.timeline_start,
                            },
                        ),
                    )
                } else {
                    None
                },
            },
        }
    }
}

/// The first failure among the first `n` segments.
pub open spec fn first_segment_failure(assets: Seq<MediaAsset>, segs: Seq<Segment>, n: int) -> Option<
    PersistenceFailure,
>
    decreases n,
{
    if n <= 0 {
        None
    } else {
        match first_segment_failure(assets, segs, n - 1) {
            Some(failure) => Some(failure),
            None => segment_failure(assets, segs, n - 1),
        }
    }
}

/// Why a project may not be persisted, if there is a reason: the first
/// fault among the assets, else the first failure among the segments.
pub open spec fn persistence_failure(assets: Seq<MediaAsset>, segs: Seq<Segment>) -> Option<
    PersistenceFailure,
> {
    match first_asset_issue(assets, assets.len() as int) {
        Some(issue) => Some(PersistenceFailure::Issue(issue)),
        None => first_segment_failure(assets, segs, segs.len() as int),
    }
}

/// A fault among the first `m` assets is the fault of any longer prefix.
pub proof fn lemma_asset_issue_persists(assets: Seq<MediaAsset>, m: int, n: int)
    requires
        0 <= m <= n,
        first_asset_issue(assets, m) is Some,
    ensures
        first_asset_issue(assets, n) == first_asset_issue(assets, m),
    decreases n - m,
{
    if m < n {
        lemma_asset_issue_persists(assets, m, n - 1);
    }
}

/// A failure among the first `m` segments is the failure of any longer
/// prefix.
pub proof fn lemma_segment_failure_persists(
    assets: Seq<MediaAsset>,
    segs: Seq<Segment>,
    m: int,
    n: int,
)
    requires
        0 <= m <= n,
        first_segment_failure(assets, segs, m) is Some,
    ensures
        first_segment_failure(assets, segs, n) == first_segment_failure(assets, segs, m),
    decreases n - m,
{
    if m < n {
        lemma_segment_failure_persists(assets, segs, m, n - 1);
    }
}

/// When the first `n` segments pass, each of them starts at zero or later,
/// lasts at least a tick, ends within `i64`, and does not start before the
/// one before it ends.
pub proof fn lemma_segments_pass(assets: Seq<MediaAsset>, segs: Seq<Segment>, n: int)
    requires
        0 <= n <= segs.len(),
        first_segment_failure(assets, segs, n) is None,
    ensures
        forall|i: int| 0 <= i < n ==> (#[trigger] segs[i]).wf(),
        forall|i: int, j: int|
            0 <= i < j < n ==> (#[trigger] segs[i]).end_tl() <= (#[trigger] segs[j]).timeline_start,
        forall|i: int| 0 <= i < n ==> (#[trigger] segment_failure(assets, segs, i)) is None,
    decreases n,
{
    if n > 0 {
        lemma_segments_pass(assets, segs, n - 1);
        assert(segment_failure(assets, segs, n - 1) is None);
        let last = segs[n - 1];
        assert(last.wf());
        if n > 1 {
            assert(segs[n - 2].end_tl() <= last.timeline_start);
            assert forall|i: int| 0 <= i < n - 1 implies (#[trigger] segs[i]).end_tl()
                <= last.timeline_start by {
                if i < n - 2 {
                    assert(segs[i].end_tl() <= segs[n - 2].timeline_start);
                    assert(segs[n - 2].wf());
                }
            }
        }
    }
}

/// A project that may be persisted has a well-formed timeline.
pub proof fn lemma_persistable_timeline_wf(assets: Seq<MediaAsset>, segs: Seq<Segment>)
    requires
        persistence_failure(assets, segs) is None,
    ensures
        timeline_wf(segs),
{
    lemma_segments_pass(assets, segs, segs.len() as int);
}

/// Checks the video range of a segment against its asset.
pub fn validate_video_segment_range(asset: &MediaAsset, segment: &Segment) -> (out: Result<
    (),
    EngineError,
>)
    ensures
        match video_range_error(*asset, *segment) {
            Some(e) => out == Err::<(), EngineError>(e),
            None => out is Ok,
        },
{
    match (asset.video, segment.src_in_video, segment.src_out_video) {
        (Some(_), Some(src_in_video), Some(src_out_video)) => {
            if src_out_video < src_in_video {
                return Err(
                    EngineError::InvalidVideoRange {
                        segment_id: segment.id,
                        src_in_video,
                        src_out_video,
                    },
                );
            }
            Ok(())
        },
        (Some(_), _, _) => Err(EngineError::MissingVideoRange { segment_id: segment.id }),
        (None, None, None) => Ok(()),
        (None, _, _) => Err(EngineError::MissingVideoStream { asset_id: asset.id }),
    }
}

/// Checks the audio range of a segment against its asset.
pub fn validate_audio_segment_range(asset: &MediaAsset, segment: &Segment) -> (out: Result<
    (),
    EngineError,
>)
    ensures
        match audio_range_error(*asset, *segment) {
            Some(e) => out == Err::<(), EngineError>(e),
            None => out is Ok,
        },
{
    match (asset.audio, segment.src_in_audio, segment.src_out_audio) {
        (Some(_), Some(src_in_audio), Some(src_out_audio)) => {
            if src_out_audio < src_in_audio {
                return Err(
                    EngineError::InvalidAudioRange {
                        segment_id: segment.id,
                        src_in_audio,
                        src_out_audio,
                    },
                );
            }
            Ok(())
        },
        (Some(_), _, _) => Err(EngineError::MissingAudioRange { segment_id: segment.id }),
        (None, None, None) => Ok(()),
        (None, _, _) => Err(EngineError::MissingAudioStream { asset_id: asset.id }),
    }
}

/// Checks both source ranges of a segment against its asset, video first.
pub fn validate_segment_ranges(asset: &MediaAsset, segment: &Segment) -> (out: Result<
    (),
    EngineError,
>)
    ensures
        match segment_range_error(*asset, *segment) {
            Some(e) => out == Err::<(), EngineError>(e),
            None => out is Ok,
        },
{
    match validate_video_segment_range(asset, segment) {
        Ok(_) => validate_audio_segment_range(asset, segment),
        Err(e) => Err(e),
    }
}

impl ProjectFile {
    /// The document that holds `project`.
    pub fn from_project(project: &Project) -> (out: Self)
        ensures
            out.schema_version == PROJECT_FILE_SCHEMA_VERSION,
            out.assets@ == project.assets@,
            out.segments@ == project.timeline@,
            out.settings == project.settings,
    {
        let mut assets: Vec<MediaAsset> = Vec::new();
        let mut i: usize = 0;
        while i < project.assets.len()
            invariant
                i <= project.assets@.len(),
                assets@ == project.assets@.subrange(0, i as int),
            decreases project.assets@.len() - i,
        {
            assets.push(project.assets[i].clone());
            assert(assets@ =~= project.assets@.subrange(0, i + 1));
            i += 1;
        }
        assert(assets@ =~= project.assets@);
        let mut segments: Vec<Segment> = Vec::new();
        let mut j: usize = 0;
        while j < project.timeline.segments.len()
            invariant
                j <= project.timeline@.len(),
                segments@ == project.timeline@.subrange(0, j as int),
            decreases project.timeline@.len() - j,
        {
            segments.push(project.timeline.segments[j]);
            assert(segments@ =~= project.timeline@.subrange(0, j + 1));
            j += 1;
        }
        assert(segments@ =~= project.timeline@);
        ProjectFile {
            schema_version: PROJECT_FILE_SCHEMA_VERSION,
            assets,
            segments,
            settings: project.settings.clone(),
        }
    }

    /// The project that the document holds, unchecked.
    pub fn into_project(self) -> (out: Project)
        ensures
            out.assets == self.assets,
            out.timeline.segments == self.segments,
            out.settings == self.settings,
    {
        Project {
            assets: self.assets,
            timeline: Timeline { segments: self.segments },
            settings: self.settings,
        }
    }
}

/// The first asset among the first `n` with a stream whose time base is
/// not positive.
pub open spec fn first_invalid_time_base(assets: Seq<MediaAsset>, n: int) -> Option<EngineError>
    decreases n,
{
    if n <= 0 {
        None
    } else {
        match first_invalid_time_base(assets, n - 1) {
            Some(e) => Some(e),
            None => {
                let asset = assets[n - 1];
                if asset.video is Some && !asset.video->0.time_base.wf() {
                    Some(
                        EngineError::InvalidRational {
                            num: asset.video->0.time_base.num,
                            den: asset.video->0.time_base.den,
                        },
                    )
                } else if asset.audio is Some && !asset.audio->0.time_base.wf() {
                    Some(
                        EngineError::InvalidRational {
                            num: asset.audio->0.time_base.num,
                            den: asset.audio->0.time_base.den,
                        },
                    )
                } else {
                    None
                }
            },
        }
    }
}

/// An invalid time base among the first `m` assets is the one reported for
/// any longer prefix.
pub proof fn lemma_invalid_time_base_persists(assets: Seq<MediaAsset>, m: int, n: int)
    requires
        0 <= m <= n,
        first_invalid_time_base(assets, m) is Some,
    ensures
        first_invalid_time_base(assets, n) == first_invalid_time_base(assets, m),
    decreases n - m,
{
    if m < n {
        lemma_invalid_time_base_persists(assets, m, n - 1);
    }
}

/// When none of the first `n` assets has an invalid time base, each is
/// well formed.
pub proof fn lemma_time_bases_valid(assets: Seq<MediaAsset>, n: int)
    requires
        0 <= n <= assets.len(),
        first_invalid_time_base(assets, n) is None,
    ensures
        forall|i: int| 0 <= i < n ==> (#[trigger] assets[i]).wf(),
    decreases n,
{
    if n > 0 {
        lemma_time_bases_valid(assets, n - 1);
    }
}

/// What becomes of a document that was read: refused for a time base that
/// is not positive, then for a schema version other than the supported
/// one, then for whatever keeps its project from being persisted.
pub open spec fn load_failure(file: ProjectFile) -> Option<PersistenceFailure> {
    match first_invalid_time_base(file.assets@, file.assets@.len() as int) {
        Some(e) => Some(PersistenceFailure::Error(e)),
        None => if file.schema_version != PROJECT_FILE_SCHEMA_VERSION {
            Some(
                PersistenceFailure::Issue(
                    ProjectFileIssue::UnsupportedSchemaVersion {
                        schema_version: file.schema_version,
                    },
                ),
            )
        } else {
            persistence_failure(file.assets@, file.segments@)
        },
    }
}

impl Project {
    /// Checks that the project may be written to a project file.
    ///
    /// Refused are: an asset id or a segment id that occurs twice, a stream
    /// without its index or an index without its stream, a segment that
    /// starts before zero, lasts less than a tick, names an unknown asset,
    /// has a missing or backward source range or a range for a stream its
    /// asset lacks, ends beyond `i64`, or starts before the segment before
    /// it ends. A gap between segments is accepted.
    pub fn validate_for_persistence(&self) -> (out: Result<(), EngineError>)
        ensures
            match persistence_failure(self.assets@, self.timeline@) {
                Some(failure) => out is Err && reports(out->Err_0, failure),
                None => out is Ok,
            },
            out is Ok ==> self.timeline.wf(),
    {
        let ghost assets = self.assets@;
        let ghost segs = self.timeline@;
        let mut seen_asset_ids: HashSet<u64> = HashSet::new();
        let mut i: usize = 0;
        while i < self.assets.len()
            invariant
                assets == self.assets@,
                i <= assets.len(),
                first_asset_issue(assets, i as int) is None,
                forall|id: u64|
                    seen_asset_ids@.contains(id) <==> exists|j: int|
                        0 <= j < i && (#[trigger] assets[j]).id == id,
            decreases assets.len() - i,
        {
            let asset = &self.assets[i];
            let issue = if !seen_asset_ids.insert(asset.id) {
                Some(ProjectFileIssue::DuplicateAssetId { asset_id: asset.id })
            } else if asset.video.is_some() && asset.video_stream_index.is_none() {
                Some(ProjectFileIssue::MissingVideoStreamIndex { asset_id: asset.id })
            } else if asset.video.is_none() && asset.video_stream_index.is_some() {
                Some(ProjectFileIssue::VideoStreamIndexWithoutStream { asset_id: asset.id })
            } else if asset.audio.is_some() && asset.audio_stream_index.is_none() {
                Some(ProjectFileIssue::MissingAudioStreamIndex { asset_id: asset.id })
            } else if asset.audio.is_none() && asset.audio_stream_index.is_some() {
                Some(ProjectFileIssue::AudioStreamIndexWithoutStream { asset_id: asset.id })
            } else {
                None
            };
            assert(issue == asset_issue(assets, i as int));
            if let Some(issue) = issue {
                proof {
                    lemma_asset_issue_persists(assets, i + 1, assets.len() as int);
                }
                return Err(issue.into_error());
            }
            assert forall|id: u64|
                seen_asset_ids@.contains(id) <==> exists|j: int|
                    0 <= j < i + 1 && (#[trigger] assets[j]).id == id by {
                if id == asset.id {
                    assert(assets[i as int].id == id);
                }
            }
            i += 1;
        }

        let mut seen_segment_ids: HashSet<u64> = HashSet::new();
        let mut previous_end: Option<i64> = None;
        let mut k: usize = 0;
        while k < self.timeline.segments.len()
            invariant
                assets == self.assets@,
                segs == self.timeline@,
                k <= segs.len(),
                first_asset_issue(assets, assets.len() as int) is None,
                first_segment_failure(assets, segs, k as int) is None,
                forall|id: u64|
                    seen_segment_ids@.contains(id) <==> exists|j: int|
                        0 <= j < k && (#[trigger] segs[j]).id == id,
                k == 0 ==> previous_end is None,
                k > 0 ==> previous_end == Some((segs[k - 1].end_tl()) as i64) && segs[k
                    - 1].end_tl() <= i64::MAX,
            decreases segs.len() - k,
        {
            let segment = &self.timeline.segments[k];
            if !seen_segment_ids.insert(segment.id) {
                proof {
                    lemma_segment_failure_persists(assets, segs, k + 1, segs.len() as int);
                }
                return Err(
                    ProjectFileIssue::DuplicateSegmentId { segment_id: segment.id }.into_error(),
                );
            }
            assert(!segment_id_repeated(segs, k as int));
            if segment.timeline_start < 0 {
                proof {
                    lemma_segment_failure_persists(assets, segs, k + 1, segs.len() as int);
                }
                return Err(
                    ProjectFileIssue::NegativeStart {
                        segment_id: segment.id,
                        timeline_start: segment.timeline_start,
                    }.into_error(),
                );
            }
            if segment.timeline_duration <= 0 {
                proof {
                    lemma_segment_failure_persists(assets, segs, k + 1, segs.len() as int);
                }
                return Err(
                    ProjectFileIssue::NonPositiveDuration {
                        segment_id: segment.id,
                        timeline_duration: segment.timeline_duration,
                    }.into_error(),
                );
            }
            let asset = match self.asset_by_id(segment.asset_id) {
                Ok(asset) => asset,
                Err(e) => {
                    proof {
                        lemma_segment_failure_persists(assets, segs, k + 1, segs.len() as int);
                    }
                    return Err(e);
                },
            };
            match validate_segment_ranges(asset, segment) {
                Ok(_) => {},
                Err(e) => {
                    proof {
                        lemma_segment_failure_persists(assets, segs, k + 1, segs.len() as int);
                    }
                    return Err(e);
                },
            }
            let segment_end = match segment.timeline_start.checked_add(segment.timeline_duration) {
                Some(end) => end,
                None => {
                    proof {
                        lemma_segment_failure_persists(assets, segs, k + 1, segs.len() as int);
                    }
                    return Err(
                        ProjectFileIssue::RangeOverflow { segment_id: segment.id }.into_error(),
                    );
                },
            };
            if let Some(previous_end) = previous_end {
                if segment.timeline_start < previous_end {
                    proof {
                        lemma_segment_failure_persists(assets, segs, k + 1, segs.len() as int);
                    }
                    return Err(
                        ProjectFileIssue::Overlap {
                            segment_id: segment.id,
                            timeline_start: segment.timeline_start,
                        }.into_error(),
                    );
                }
            }
            assert(segment_failure(assets, segs, k as int) is None);
            assert forall|id: u64|
                seen_segment_ids@.contains(id) <==> exists|j: int|
                    0 <= j < k + 1 && (#[trigger] segs[j]).id == id by {
                if id == segment.id {
                    assert(segs[k as int].id == id);
                }
            }
            previous_end = Some(segment_end);
            k += 1;
        }
        proof {
            lemma_persistable_timeline_wf(assets, segs);
        }
        Ok(())
    }

    /// Finds the first asset with a stream whose time base is not positive.
    pub fn check_time_bases(&self) -> (out: Result<(), EngineError>)
        ensures
            match first_invalid_time_base(self.assets@, self.assets@.len() as int) {
                Some(e) => out == Err::<(), EngineError>(e),
                None => out is Ok && assets_wf(self.assets@),
            },
    {
        let mut i: usize = 0;
        while i < self.assets.len()
            invariant
                i <= self.assets@.len(),
                first_invalid_time_base(self.assets@, i as int) is None,
            decreases self.assets@.len() - i,
        {
            let asset = &self.assets[i];
            if let Some(video) = asset.video {
                if video.time_base.num <= 0 || video.time_base.den <= 0 {
                    proof {
                        lemma_invalid_time_base_persists(
                            self.assets@,
                            i + 1,
                            self.assets@.len() as int,
                        );
                    }
                    return Err(
                        EngineError::InvalidRational {
                            num: video.time_base.num,
                            den: video.time_base.den,
                        },
                    );
                }
            }
            if let Some(audio) = asset.audio {
                if audio.time_base.num <= 0 || audio.time_base.den <= 0 {
                    proof {
                        lemma_invalid_time_base_persists(
                            self.assets@,
                            i + 1,
                            self.assets@.len() as int,
                        );
                    }
                    return Err(
                        EngineError::InvalidRational {
                            num: audio.time_base.num,
                            den: audio.time_base.den,
                        },
                    );
                }
            }
            i += 1;
        }
        proof {
            lemma_time_bases_valid(self.assets@, self.assets@.len() as int);
        }
        Ok(())
    }

    /// The document to write for this project, given only when the project
    /// passes [`Project::validate_for_persistence`].
    pub fn to_project_file(&self) -> (out: Result<ProjectFile, EngineError>)
        ensures
            match persistence_failure(self.assets@, self.timeline@) {
                Some(failure) => out is Err && reports(out->Err_0, failure),
                None => {
                    &&& out is Ok
                    &&& out->Ok_0.schema_version == PROJECT_FILE_SCHEMA_VERSION
                    &&& out->Ok_0.assets@ == self.assets@
                    &&& out->Ok_0.segments@ == self.timeline@
                    &&& out->Ok_0.settings == self.settings
                },
            },
    {
        match self.validate_for_persistence() {
            Ok(_) => Ok(ProjectFile::from_project(self)),
            Err(e) => Err(e),
        }
    }

    /// The project that a document holds, given only when the document has
    /// the supported schema version, valid time bases, and a project that
    /// passes [`Project::validate_for_persistence`].
    pub fn from_project_file(file: ProjectFile) -> (out: Result<Project, EngineError>)
        ensures
            match load_failure(file) {
                Some(failure) => out is Err && reports(out->Err_0, failure),
                None => {
                    &&& out is Ok
                    &&& out->Ok_0.wf()
                    &&& out->Ok_0.assets == file.assets
                    &&& out->Ok_0.timeline.segments == file.segments
                    &&& out->Ok_0.settings == file.settings
                },
            },
    {
        let schema_version = file.schema_version;
        let project = file.into_project();
        match project.check_time_bases() {
            Ok(_) => {},
            Err(e) => {
                return Err(e);
            },
        }
        if schema_version != PROJECT_FILE_SCHEMA_VERSION {
            return Err(ProjectFileIssue::UnsupportedSchemaVersion { schema_version }.into_error());
        }
        match project.validate_for_persistence() {
            Ok(_) => Ok(project),
            Err(e) => Err(e),
        }
    }
}

} // verus!
