//! The export plan: a renderer-agnostic description of what to render.

use vstd::prelude::*;
use crate::error::EngineError;
use crate::project::{AudioStreamInfo, MediaAsset, Project, find_asset};
use crate::time::Rational;
use crate::timeline::Segment;

verus! {

/// Export plan for rendering the timeline into one file.
#[derive(Debug, Clone, PartialEq, Eq)]
pub struct ExportVideoPlan {
    pub inputs: Vec<String>,
    pub segments: Vec<ExportVideoSegment>,
    pub audio: Option<ExportAudioSettings>,
    pub output_path: String,
}

/// Audio output settings used by export.
#[derive(Debug, Clone, Copy, PartialEq, Eq)]
pub struct ExportAudioSettings {
    pub sample_rate: u32,
    pub channels: u16,
}

/// One segment in export order.
#[derive(Debug, Clone, Copy, PartialEq, Eq)]
pub struct ExportVideoSegment {
    pub input_index: usize,
    pub src_in_video: i64,
    pub src_out_video: i64,
    pub src_video_time_base: Rational,
    pub src_in_audio: Option<i64>,
    pub src_out_audio: Option<i64>,
    pub src_audio_time_base: Option<Rational>,
}


/// The character sequences of a list of paths.
pub open spec fn paths_view(paths: Seq<String>) -> Seq<Seq<char>> {
    paths.map_values(|p: String| p@)
}

/// Selected (segment, asset) index pairs as mathematical integers.
pub open spec fn pairs_view(pairs: Seq<(usize, usize)>) -> Seq<(int, int)> {
    pairs.map_values(|p: (usize, usize)| (p.0 as int, p.1 as int))
}

/// What an export plan says, with paths as character sequences.
pub struct ExportPlanView {
    pub inputs: Seq<Seq<char>>,
    pub segments: Seq<ExportVideoSegment>,
    pub audio: Option<ExportAudioSettings>,
    pub output_path: Seq<char>,
}

impl View for ExportVideoPlan {
    type V = ExportPlanView;

    open spec fn view(&self) -> ExportPlanView {
        ExportPlanView {
            inputs: paths_view(self.inputs@),
            segments: self.segments@,
            audio: self.audio,
            output_path: self.output_path@,
        }
    }
}

/// How one timeline segment enters the video part of a plan: with the
/// index of its asset, not at all when its video range is empty, or as the
/// error that stops the export.
pub open spec fn video_check(assets: Seq<MediaAsset>, seg: Segment) -> Result<Option<int>, EngineError> {
    match find_asset(assets, seg.asset_id) {
        None => Err(EngineError::MissingAsset { asset_id: seg.asset_id }),
        Some(a) => if assets[a].video is None {
            Err(EngineError::MissingVideoStream { asset_id: assets[a].id })
        } else if seg.src_in_video is None || seg.src_out_video is None {
            Err(EngineError::MissingVideoRange { segment_id: seg.id })
        } else if seg.src_out_video->0 < seg.src_in_video->0 {
            Err(
                EngineError::InvalidVideoRange {
                    segment_id: seg.id,
                    src_in_video: seg.src_in_video->0,
                    src_out_video: seg.src_out_video->0,
                },
            )
        } else if seg.src_out_video->0 == seg.src_in_video->0 {
            Ok(None)
        } else {
            Ok(Some(a))
        },
    }
}

/// The first video error among the first `n` segments, in timeline order.
pub open spec fn first_video_error(assets: Seq<MediaAsset>, segs: Seq<Segment>, n: int) -> Option<
    EngineError,
>
    decreases n,
{
    if n <= 0 {
        None
    } else {
        match first_video_error(assets, segs, n - 1) {
            Some(e) => Some(e),
            None => match video_check(assets, segs[n - 1]) {
                Err(e) => Some(e),
                Ok(_) => None,
            },
        }
    }
}

/// The segments among the first `n` that are exported, in timeline order,
/// each as (segment index, asset index).
pub open spec fn video_selected(assets: Seq<MediaAsset>, segs: Seq<Segment>, n: int) -> Seq<(int, int)>
    decreases n,
{
    if n <= 0 {
        Seq::empty()
    } else {
        let prev = video_selected(assets, segs, n - 1);
        match video_check(assets, segs[n - 1]) {
            Ok(Some(a)) => prev.push((n - 1, a)),
            _ => prev,
        }
    }
}

/// The paths of the first `n` exported segments' assets, each once, in the
/// order of first use.
pub open spec fn plan_inputs(assets: Seq<MediaAsset>, sel: Seq<(int, int)>, n: int) -> Seq<Seq<char>>
    decreases n,
{
    if n <= 0 {
        Seq::empty()
    } else {
        let prev = plan_inputs(assets, sel, n - 1);
        let path = assets[sel[n - 1].1].path@;
        if prev.contains(path) {
            prev
        } else {
            prev.push(path)
        }
    }
}

/// The audio stream of the first exported segment at or after `from` whose
/// asset has one.
pub open spec fn first_audio(assets: Seq<MediaAsset>, sel: Seq<(int, int)>, from: int) -> Option<
    AudioStreamInfo,
>
    decreases sel.len() - from,
{
    if from < 0 || from >= sel.len() {
        None
    } else if assets[sel[from].1].audio is Some {
        assets[sel[from].1].audio
    } else {
        first_audio(assets, sel, from + 1)
    }
}

/// The `out` bound that is exported for an audio range: an empty range is
/// extended by one tick, as far as `i64` allows.
pub open spec fn exported_audio_out(src_in: i64, src_out: i64) -> i64 {
    if src_out == src_in && src_out < i64::MAX {
        (src_out + 1) as i64
    } else {
        src_out
    }
}

/// What stops an export with audio at one exported segment, if anything.
pub open spec fn audio_check(asset: MediaAsset, seg: Segment) -> Option<EngineError> {
    if asset.audio is None {
        Some(EngineError::MissingAudioStream { asset_id: asset.id })
    } else if seg.src_in_audio is None || seg.src_out_audio is None {
        Some(EngineError::MissingAudioRange { segment_id: seg.id })
    } else if seg.src_out_audio->0 < seg.src_in_audio->0 {
        Some(
            EngineError::InvalidAudioRange {
                segment_id: seg.id,
                src_in_audio: seg.src_in_audio->0,
                src_out_audio: seg.src_out_audio->0,
            },
        )
    } else {
        None
    }
}

/// The first audio error among the first `n` exported segments.
pub open spec fn first_audio_error(
    assets: Seq<MediaAsset>,
    segs: Seq<Segment>,
    sel: Seq<(int, int)>,
    n: int,
) -> Option<EngineError>
    decreases n,
{
    if n <= 0 {
        None
    } else {
        match first_audio_error(assets, segs, sel, n - 1) {
            Some(e) => Some(e),
            None => audio_check(assets[sel[n - 1].1], segs[sel[n - 1].0]),
        }
    }
}

/// The plan entry for one exported segment.
pub open spec fn export_segment(
    asset: MediaAsset,
    seg: Segment,
    inputs: Seq<Seq<char>>,
    with_audio: bool,
) -> ExportVideoSegment {
    ExportVideoSegment {
        input_index: inputs.index_of(asset.path@) as usize,
        src_in_video: seg.src_in_video->0,
        src_out_video: seg.src_out_video->0,
        src_video_time_base: asset.video->0.time_base,
        src_in_audio: if with_audio {
            Some(seg.src_in_audio->0)
        } else {
            None
        },
        src_out_audio: if with_audio {
            Some(exported_audio_out(seg.src_in_audio->0, seg.src_out_audio->0))
        } else {
            None
        },
        src_audio_time_base: if with_audio {
            Some(asset.audio->0.time_base)
        } else {
            None
        },
    }
}

/// The plan entries for all exported segments.
pub open spec fn export_segments(
    assets: Seq<MediaAsset>,
    segs: Seq<Segment>,
    sel: Seq<(int, int)>,
    inputs: Seq<Seq<char>>,
    with_audio: bool,
) -> Seq<ExportVideoSegment> {
    Seq::new(
        sel.len(),
        |k: int| export_segment(assets[sel[k].1], segs[sel[k].0], inputs, with_audio),
    )
}

/// The export plan of a project, or the error that stops the export.
///
/// Video is checked for every segment before audio is looked at. Audio is
/// exported when some exported segment's asset has an audio stream; its
/// settings are those of the first such asset, and every exported segment
/// must then have an audio range.
pub open spec fn export_plan_spec(assets: Seq<MediaAsset>, segs: Seq<Segment>, output_path: Seq<char>) -> Result<
    ExportPlanView,
    EngineError,
> {
    match first_video_error(assets, segs, segs.len() as int) {
        Some(e) => Err(e),
        None => {
            let sel = video_selected(assets, segs, segs.len() as int);
            let inputs = plan_inputs(assets, sel, sel.len() as int);
            match first_audio(assets, sel, 0) {
                None => Ok(
                    ExportPlanView {
                        inputs,
                        segments: export_segments(assets, segs, sel, inputs, false),
                        audio: None,
                        output_path,
                    },
                ),
                Some(info) => match first_audio_error(assets, segs, sel, sel.len() as int) {
                    Some(e) => Err(e),
                    None => Ok(
                        ExportPlanView {
                            inputs,
                            segments: export_segments(assets, segs, sel, inputs, true),
                            audio: Some(
                                ExportAudioSettings {
                                    sample_rate: info.sample_rate,
                                    channels: info.channels,
                                },
                            ),
                            output_path,
                        },
                    ),
                },
            }
        },
    }
}

/// Every selected pair names a segment among the first `n` and an asset of
/// the project; the segment has a video range that is not empty, and its
/// asset has a video stream. The pairs are in timeline order.
pub proof fn lemma_video_selected(assets: Seq<MediaAsset>, segs: Seq<Segment>, n: int)
    requires
        0 <= n <= segs.len(),
    ensures
        video_selected(assets, segs, n).len() <= n,
        forall|k: int|
            0 <= k < video_selected(assets, segs, n).len() ==> {
                let pair = #[trigger] video_selected(assets, segs, n)[k];
                &&& 0 <= pair.0 < n
                &&& 0 <= pair.1 < assets.len()
                &&& video_check(assets, segs[pair.0]) == Ok::<Option<int>, EngineError>(
                    Some(pair.1),
                )
                &&& assets[pair.1].video is Some
                &&& segs[pair.0].src_in_video is Some
                &&& segs[pair.0].src_out_video is Some
                &&& segs[pair.0].src_in_video->0 < segs[pair.0].src_out_video->0
            },
        forall|k: int, l: int|
            0 <= k < l < video_selected(assets, segs, n).len() ==> (#[trigger] video_selected(
                assets,
                segs,
                n,
            )[k]).0 < (#[trigger] video_selected(assets, segs, n)[l]).0,
    decreases n,
{
    if n > 0 {
        lemma_video_selected(assets, segs, n - 1);
        crate::project::lemma_find_asset_from(assets, segs[n - 1].asset_id, 0);
    }
}

/// A segment is exported exactly when its video check selects it.
pub proof fn lemma_video_selected_complete(assets: Seq<MediaAsset>, segs: Seq<Segment>, n: int, i: int)
    requires
        0 <= i < n <= segs.len(),
    ensures
        (exists|k: int|
            0 <= k < video_selected(assets, segs, n).len() && (#[trigger] video_selected(
                assets,
                segs,
                n,
            )[k]).0 == i) <==> (video_check(assets, segs[i]) is Ok && video_check(
            assets,
            segs[i],
        )->Ok_0 is Some),
    decreases n,
{
    lemma_video_selected(assets, segs, n);
    lemma_video_selected(assets, segs, n - 1);
    let cur = video_selected(assets, segs, n);
    let prev = video_selected(assets, segs, n - 1);
    if i < n - 1 {
        lemma_video_selected_complete(assets, segs, n - 1, i);
        if exists|k: int| 0 <= k < prev.len() && (#[trigger] prev[k]).0 == i {
            let k = choose|k: int| 0 <= k < prev.len() && (#[trigger] prev[k]).0 == i;
            assert(cur[k] == prev[k]);
        }
        if exists|k: int| 0 <= k < cur.len() && (#[trigger] cur[k]).0 == i {
            let k = choose|k: int| 0 <= k < cur.len() && (#[trigger] cur[k]).0 == i;
            if k >= prev.len() {
                assert(cur[k].0 == n - 1);
            }
            assert(prev[k].0 == i);
        }
    } else {
        if video_check(assets, segs[i]) is Ok && video_check(assets, segs[i])->Ok_0 is Some {
            assert(cur[cur.len() - 1].0 == i);
        } else {
            assert(cur == prev);
            if exists|k: int| 0 <= k < cur.len() && (#[trigger] cur[k]).0 == i {
                let k = choose|k: int| 0 <= k < cur.len() && (#[trigger] cur[k]).0 == i;
                assert(prev[k].0 < n - 1);
            }
        }
    }
}

/// The input list names every path of the first `n` exported segments, and
/// no path twice; a shorter prefix of exported segments gives a prefix of it.
pub proof fn lemma_plan_inputs(assets: Seq<MediaAsset>, sel: Seq<(int, int)>, n: int)
    requires
        0 <= n <= sel.len(),
    ensures
        plan_inputs(assets, sel, n).no_duplicates(),
        plan_inputs(assets, sel, n).len() <= n,
        forall|k: int|
            0 <= k < n ==> plan_inputs(assets, sel, n).contains(
                #[trigger] assets[sel[k].1].path@,
            ),
    decreases n,
{
    if n > 0 {
        lemma_plan_inputs(assets, sel, n - 1);
        let prev = plan_inputs(assets, sel, n - 1);
        let cur = plan_inputs(assets, sel, n);
        let path = assets[sel[n - 1].1].path@;
        if prev.contains(path) {
            assert(cur == prev);
        } else {
            assert(cur == prev.push(path));
            assert(cur[cur.len() - 1] == path);
            assert forall|k: int| 0 <= k < n implies cur.contains(
                #[trigger] assets[sel[k].1].path@,
            ) by {
                if k < n - 1 {
                    let w = assets[sel[k].1].path@;
                    assert(prev.contains(w));
                    let j = choose|j: int| 0 <= j < prev.len() && prev[j] == w;
                    assert(cur[j] == w);
                } else {
                    assert(cur[cur.len() - 1] == path);
                }
            }
        }
    }
}

/// In a list without repeats, the position of an element is the index that
/// `index_of` gives.
pub proof fn lemma_index_of_unique(inputs: Seq<Seq<char>>, path: Seq<char>, i: int)
    requires
        inputs.no_duplicates(),
        0 <= i < inputs.len(),
        inputs[i] == path,
    ensures
        inputs.index_of(path) == i,
{
    let j = inputs.index_of(path);
    assert(0 <= j < inputs.len() && inputs[j] == path);
}

/// Without audio among the first exported segments, a search starting at
/// zero continues after them.
pub proof fn lemma_first_audio_skip(assets: Seq<MediaAsset>, sel: Seq<(int, int)>, from: int, k: int)
    requires
        0 <= from <= k <= sel.len(),
        forall|j: int| from <= j < k ==> (#[trigger] assets[sel[j].1]).audio is None,
    ensures
        first_audio(assets, sel, from) == first_audio(assets, sel, k),
    decreases k - from,
{
    if from < k {
        assert(assets[sel[from].1].audio is None);
        lemma_first_audio_skip(assets, sel, from + 1, k);
    }
}

/// A plan leaves out exactly the segments whose video range is empty:
/// it has one entry per segment with a video range that is not empty, in
/// timeline order, and every entry's video range is not empty. When audio
/// is exported, an entry whose segment has an empty audio range below
/// `i64::MAX` keeps the `in` bound and ends one tick later.
pub proof fn lemma_export_skip_policy(assets: Seq<MediaAsset>, segs: Seq<Segment>, output_path: Seq<char>)
    requires
        export_plan_spec(assets, segs, output_path) is Ok,
    ensures
        ({
            let plan = export_plan_spec(assets, segs, output_path)->Ok_0;
            let sel = video_selected(assets, segs, segs.len() as int);
            &&& plan.segments.len() == sel.len()
            &&& forall|i: int|
                0 <= i < segs.len() && segs[i].src_in_video == segs[i].src_out_video
                    ==> !exists|k: int| 0 <= k < sel.len() && (#[trigger] sel[k]).0 == i
            &&& forall|i: int|
                0 <= i < segs.len() && segs[i].src_in_video != segs[i].src_out_video
                    ==> exists|k: int| 0 <= k < sel.len() && (#[trigger] sel[k]).0 == i
            &&& forall|k: int|
                0 <= k < sel.len() ==> {
                    let entry = #[trigger] plan.segments[k];
                    let seg = segs[sel[k].0];
                    &&& 0 <= sel[k].0 < segs.len()
                    &&& entry.src_in_video == seg.src_in_video->0
                    &&& entry.src_out_video == seg.src_out_video->0
                    &&& entry.src_in_video < entry.src_out_video
                    &&& (plan.audio is Some && seg.src_in_audio == seg.src_out_audio
                        && seg.src_in_audio->0 < i64::MAX ==> entry.src_in_audio
                        == seg.src_in_audio && entry.src_out_audio == Some(
                        (seg.src_in_audio->0 + 1) as i64,
                    ))
                }
        }),
{
    let n = segs.len() as int;
    let sel = video_selected(assets, segs, n);
    lemma_video_selected(assets, segs, n);
    lemma_no_video_error(assets, segs, n);
    assert forall|i: int|
        0 <= i < segs.len() && segs[i].src_in_video == segs[i].src_out_video implies !exists|
        k: int,
    | 0 <= k < sel.len() && (#[trigger] sel[k]).0 == i by {
        lemma_video_selected_complete(assets, segs, n, i);
        assert(video_check(assets, segs[i]) is Ok);
    }
    assert forall|i: int|
        0 <= i < segs.len() && segs[i].src_in_video != segs[i].src_out_video implies exists|
        k: int,
    | 0 <= k < sel.len() && (#[trigger] sel[k]).0 == i by {
        lemma_video_selected_complete(assets, segs, n, i);
        assert(video_check(assets, segs[i]) is Ok);
    }
    let plan = export_plan_spec(assets, segs, output_path)->Ok_0;
    if plan.audio is Some {
        lemma_no_audio_error(assets, segs, sel, sel.len() as int);
    }
    assert forall|k: int| 0 <= k < sel.len() implies ({
        let entry = #[trigger] plan.segments[k];
        let seg = segs[sel[k].0];
        &&& 0 <= sel[k].0 < segs.len()
        &&& entry.src_in_video == seg.src_in_video->0
        &&& entry.src_out_video == seg.src_out_video->0
        &&& entry.src_in_video < entry.src_out_video
        &&& (plan.audio is Some && seg.src_in_audio == seg.src_out_audio && seg.src_in_audio->0
            < i64::MAX ==> entry.src_in_audio == seg.src_in_audio && entry.src_out_audio == Some(
            (seg.src_in_audio->0 + 1) as i64,
        ))
    }) by {
        let pair = sel[k];
        assert(0 <= pair.0 < n);
        if plan.audio is Some {
            assert(audio_check(assets[sel[k].1], segs[sel[k].0]) is None);
        }
    }
}

/// When the first `n` segments raise no video error, none of them does.
pub proof fn lemma_no_video_error(assets: Seq<MediaAsset>, segs: Seq<Segment>, n: int)
    requires
        0 <= n <= segs.len(),
        first_video_error(assets, segs, n) is None,
    ensures
        forall|i: int| 0 <= i < n ==> (#[trigger] video_check(assets, segs[i])) is Ok,
    decreases n,
{
    if n > 0 {
        lemma_no_video_error(assets, segs, n - 1);
    }
}

/// When the first `n` exported segments raise no audio error, each has an
/// audio stream and an audio range that does not run backwards.
pub proof fn lemma_no_audio_error(
    assets: Seq<MediaAsset>,
    segs: Seq<Segment>,
    sel: Seq<(int, int)>,
    n: int,
)
    requires
        0 <= n <= sel.len(),
        first_audio_error(assets, segs, sel, n) is None,
    ensures
        forall|k: int|
            0 <= k < n ==> (#[trigger] audio_check(assets[sel[k].1], segs[sel[k].0])) is None,
    decreases n,
{
    if n > 0 {
        lemma_no_audio_error(assets, segs, sel, n - 1);
    }
}


/// `entry` is the plan entry of an exported segment, with its input index
/// stated by what the input list holds at it.
pub open spec fn entry_matches(
    entry: ExportVideoSegment,
    asset: MediaAsset,
    seg: Segment,
    inputs: Seq<Seq<char>>,
    with_audio: bool,
) -> bool {
    &&& entry.input_index < inputs.len()
    &&& inputs[entry.input_index as int] == asset.path@
    &&& entry == ExportVideoSegment {
        input_index: entry.input_index,
        ..export_segment(asset, seg, inputs, with_audio)
    }
}

/// A video error among the first `m` segments is the error of any longer
/// prefix.
pub proof fn lemma_video_error_persists(assets: Seq<MediaAsset>, segs: Seq<Segment>, m: int, n: int)
    requires
        0 <= m <= n,
        first_video_error(assets, segs, m) is Some,
    ensures
        first_video_error(assets, segs, n) == first_video_error(assets, segs, m),
    decreases n - m,
{
    if m < n {
        lemma_video_error_persists(assets, segs, m, n - 1);
    }
}

/// An audio error among the first `m` exported segments is the error of
/// any longer prefix.
pub proof fn lemma_audio_error_persists(
    assets: Seq<MediaAsset>,
    segs: Seq<Segment>,
    sel: Seq<(int, int)>,
    m: int,
    n: int,
)
    requires
        0 <= m <= n,
        first_audio_error(assets, segs, sel, m) is Some,
    ensures
        first_audio_error(assets, segs, sel, n) == first_audio_error(assets, segs, sel, m),
    decreases n - m,
{
    if m < n {
        lemma_audio_error_persists(assets, segs, sel, m, n - 1);
    }
}

/// The input list depends only on the exported segments it was built from.
pub proof fn lemma_plan_inputs_prefix(
    assets: Seq<MediaAsset>,
    sel: Seq<(int, int)>,
    longer: Seq<(int, int)>,
    n: int,
)
    requires
        0 <= n <= sel.len() <= longer.len(),
        forall|k: int| 0 <= k < sel.len() ==> sel[k] == longer[k],
    ensures
        plan_inputs(assets, sel, n) == plan_inputs(assets, longer, n),
    decreases n,
{
    if n > 0 {
        lemma_plan_inputs_prefix(assets, sel, longer, n - 1);
    }
}

/// Finds where `path` stands in `inputs`.
fn position_of_path(inputs: &Vec<String>, path: &String) -> (out: Option<usize>)
    ensures
        match out {
            Some(j) => j < inputs@.len() && inputs@[j as int]@ == path@,
            None => !paths_view(inputs@).contains(path@),
        },
{
    let mut j: usize = 0;
    while j < inputs.len()
        invariant
            j <= inputs@.len(),
            forall|k: int| 0 <= k < j ==> (#[trigger] inputs@[k])@ != path@,
        decreases inputs@.len() - j,
    {
        if inputs[j] == *path {
            return Some(j);
        }
        j += 1;
    }
    assert forall|k: int| 0 <= k < paths_view(inputs@).len() implies paths_view(inputs@)[k]
        != path@ by {
        assert(paths_view(inputs@)[k] == inputs@[k]@);
    }
    None
}

/// Finds the audio stream whose settings the export uses.
fn first_audio_of(project: &Project, selected: &Vec<(usize, usize)>) -> (out: Option<AudioStreamInfo>)
    requires
        forall|k: int|
            0 <= k < selected@.len() ==> (#[trigger] selected@[k]).1 < project.assets@.len(),
    ensures
        out == first_audio(project.assets@, pairs_view(selected@), 0),
{
    let ghost sel = pairs_view(selected@);
    let mut k: usize = 0;
    while k < selected.len()
        invariant
            sel == pairs_view(selected@),
            k <= selected@.len(),
            forall|j: int|
                0 <= j < selected@.len() ==> (#[trigger] selected@[j]).1 < project.assets@.len(),
            forall|j: int| 0 <= j < k ==> (#[trigger] project.assets@[sel[j].1]).audio is None,
        decreases selected@.len() - k,
    {
        let a = selected[k].1;
        assert(sel[k as int].1 == a);
        if let Some(info) = project.assets[a].audio {
            proof {
                lemma_first_audio_skip(project.assets@, sel, 0, k as int);
            }
            return Some(info);
        }
        k += 1;
    }
    proof {
        lemma_first_audio_skip(project.assets@, sel, 0, selected@.len() as int);
    }
    None
}

/// Builds an export plan from the current project timeline.
///
/// Segments are taken in timeline order. A segment whose video range is
/// empty is left out. Inputs are listed once each, in the order of first
/// use. When a kept segment's asset has audio, every kept segment exports
/// its audio range, an empty one extended by one tick.
#[verifier::loop_isolation(false)]
pub fn build_video_export_plan(project: &Project, output_path: String) -> (out: Result<
    ExportVideoPlan,
    EngineError,
>)
    ensures
        match export_plan_spec(project.assets@, project.timeline@, output_path@) {
            Ok(plan) => out is Ok && out->Ok_0@ == plan,
            Err(e) => out == Err::<ExportVideoPlan, EngineError>(e),
        },
{
    let ghost assets = project.assets@;
    let ghost segs = project.timeline@;
    let count = project.timeline.segments.len();
    let mut inputs: Vec<String> = Vec::new();
    let mut segments: Vec<ExportVideoSegment> = Vec::new();
    let mut selected: Vec<(usize, usize)> = Vec::new();
    let mut i: usize = 0;
    assert(paths_view(inputs@) =~= plan_inputs(assets, Seq::empty(), 0));
    assert(pairs_view(selected@) =~= video_selected(assets, segs, 0));
    while i < count
        invariant
            i <= count,
            first_video_error(assets, segs, i as int) is None,
            pairs_view(selected@) == video_selected(assets, segs, i as int),
            paths_view(inputs@) == plan_inputs(
                assets,
                pairs_view(selected@),
                selected@.len() as int,
            ),
            segments@.len() == selected@.len(),
            forall|k: int|
                0 <= k < segments@.len() ==> entry_matches(
                    #[trigger] segments@[k],
                    assets[selected@[k].1 as int],
                    segs[selected@[k].0 as int],
                    paths_view(inputs@),
                    false,
                ),
        decreases count - i,
    {
        let seg = project.timeline.segments[i];
        let ghost sel = pairs_view(selected@);
        let ghost old_inputs = paths_view(inputs@);
        proof {
            lemma_video_selected(assets, segs, i as int);
            lemma_video_selected(assets, segs, i + 1);
        }
        let a = match project.find_asset_index(seg.asset_id) {
            Some(a) => a,
            None => {
                proof {
                    lemma_video_error_persists(assets, segs, i + 1, count as int);
                }
                return Err(EngineError::MissingAsset { asset_id: seg.asset_id });
            },
        };
        let asset = &project.assets[a];
        let video = match asset.video {
            Some(video) => video,
            None => {
                proof {
                    lemma_video_error_persists(assets, segs, i + 1, count as int);
                }
                return Err(EngineError::MissingVideoStream { asset_id: asset.id });
            },
        };
        let src_in_video = match seg.src_in_video {
            Some(v) => v,
            None => {
                proof {
                    lemma_video_error_persists(assets, segs, i + 1, count as int);
                }
                return Err(EngineError::MissingVideoRange { segment_id: seg.id });
            },
        };
        let src_out_video = match seg.src_out_video {
            Some(v) => v,
            None => {
                proof {
                    lemma_video_error_persists(assets, segs, i + 1, count as int);
                }
                return Err(EngineError::MissingVideoRange { segment_id: seg.id });
            },
        };
        if src_out_video < src_in_video {
            proof {
                lemma_video_error_persists(assets, segs, i + 1, count as int);
            }
            return Err(
                EngineError::InvalidVideoRange { segment_id: seg.id, src_in_video, src_out_video },
            );
        }
        if src_out_video != src_in_video {
            let input_index = match position_of_path(&inputs, &asset.path) {
                Some(index) => {
                    assert(old_inputs[index as int] == asset.path@);
                    index
                },
                None => {
                    let index = inputs.len();
                    inputs.push(asset.path.clone());
                    assert(paths_view(inputs@) =~= old_inputs.push(asset.path@));
                    index
                },
            };
            segments.push(
                ExportVideoSegment {
                    input_index,
                    src_in_video,
                    src_out_video,
                    src_video_time_base: video.time_base,
                    src_in_audio: None,
                    src_out_audio: None,
                    src_audio_time_base: None,
                },
            );
            selected.push((i, a));
            proof {
                let new_sel = pairs_view(selected@);
                assert(new_sel =~= sel.push((i as int, a as int)));
                assert(new_sel == video_selected(assets, segs, i + 1));
                lemma_plan_inputs_prefix(assets, sel, new_sel, sel.len() as int);
                assert(paths_view(inputs@) == plan_inputs(assets, new_sel, new_sel.len() as int));
                assert forall|k: int| 0 <= k < segments@.len() implies entry_matches(
                    #[trigger] segments@[k],
                    assets[selected@[k].1 as int],
                    segs[selected@[k].0 as int],
                    paths_view(inputs@),
                    false,
                ) by {
                    if k < segments@.len() - 1 {
                        let idx = segments@[k].input_index as int;
                        assert(paths_view(inputs@)[idx] == old_inputs[idx]);
                    }
                }
            }
        } else {
            assert(pairs_view(selected@) == video_selected(assets, segs, i + 1));
        }
        i += 1;
    }
    let ghost sel = pairs_view(selected@);
    let ghost input_paths = paths_view(inputs@);
    proof {
        lemma_video_selected(assets, segs, count as int);
        lemma_plan_inputs(assets, sel, sel.len() as int);
        assert forall|k: int| 0 <= k < selected@.len() implies (#[trigger] selected@[k]).1
            < project.assets@.len() && selected@[k].0 < segs.len() by {
            assert(sel[k].1 == selected@[k].1 && sel[k].0 == selected@[k].0);
        }
    }
    let mut audio: Option<ExportAudioSettings> = None;
    let with_audio = match first_audio_of(project, &selected) {
        Some(info) => {
            audio = Some(
                ExportAudioSettings { sample_rate: info.sample_rate, channels: info.channels },
            );
            true
        },
        None => false,
    };
    if with_audio {
        let total = selected.len();
        let mut k: usize = 0;
        while k < total
            invariant
                k <= total,
                total == selected@.len(),
                segments@.len() == total,
                first_audio_error(assets, segs, sel, k as int) is None,
                forall|j: int|
                    0 <= j < k ==> entry_matches(
                        #[trigger] segments@[j],
                        assets[selected@[j].1 as int],
                        segs[selected@[j].0 as int],
                        input_paths,
                        true,
                    ),
                forall|j: int|
                    k <= j < total ==> entry_matches(
                        #[trigger] segments@[j],
                        assets[selected@[j].1 as int],
                        segs[selected@[j].0 as int],
                        input_paths,
                        false,
                    ),
            decreases total - k,
        {
            let (si, a) = selected[k];
            assert(sel[k as int].0 == si && sel[k as int].1 == a);
            let seg = project.timeline.segments[si];
            let asset = &project.assets[a];
            let audio_stream = match asset.audio {
                Some(audio_stream) => audio_stream,
                None => {
                    proof {
                        lemma_audio_error_persists(assets, segs, sel, k + 1, total as int);
                    }
                    return Err(EngineError::MissingAudioStream { asset_id: asset.id });
                },
            };
            let src_in_audio = match seg.src_in_audio {
                Some(v) => v,
                None => {
                    proof {
                        lemma_audio_error_persists(assets, segs, sel, k + 1, total as int);
                    }
                    return Err(EngineError::MissingAudioRange { segment_id: seg.id });
                },
            };
            let src_out_audio = match seg.src_out_audio {
                Some(v) => v,
                None => {
                    proof {
                        lemma_audio_error_persists(assets, segs, sel, k + 1, total as int);
                    }
                    return Err(EngineError::MissingAudioRange { segment_id: seg.id });
                },
            };
            if src_out_audio < src_in_audio {
                proof {
                    lemma_audio_error_persists(assets, segs, sel, k + 1, total as int);
                }
                return Err(
                    EngineError::InvalidAudioRange {
                        segment_id: seg.id,
                        src_in_audio,
                        src_out_audio,
                    },
                );
            }
            let exported_out = if src_out_audio == src_in_audio && src_out_audio < i64::MAX {
                src_out_audio + 1
            } else {
                src_out_audio
            };
            let mut entry = segments[k];
            entry.src_in_audio = Some(src_in_audio);
            entry.src_out_audio = Some(exported_out);
            entry.src_audio_time_base = Some(audio_stream.time_base);
            segments[k] = entry;
            k += 1;
        }
    }
    let plan = ExportVideoPlan { inputs, segments, audio, output_path };
    proof {
        assert forall|k: int| 0 <= k < sel.len() implies plan.segments@[k] == export_segment(
            assets[sel[k].1],
            segs[sel[k].0],
            input_paths,
            with_audio,
        ) by {
            assert(entry_matches(
                plan.segments@[k],
                assets[selected@[k].1 as int],
                segs[selected@[k].0 as int],
                input_paths,
                with_audio,
            ));
            lemma_index_of_unique(
                input_paths,
                assets[sel[k].1].path@,
                plan.segments@[k].input_index as int,
            );
        }
        assert(plan.segments@ =~= export_segments(assets, segs, sel, input_paths, with_audio));
    }
    Ok(plan)
}

} // verus!
