//! What the engine exchanges with a media backend: probe results, decoded
//! preview frames, and the backend interface itself.

use vstd::prelude::*;
use std::sync::Arc;
use crate::error::EngineError;
use crate::export::ExportVideoPlan;
use crate::media::mux::{AudioExportSettings, VideoExportRequest, VideoExportSegment};
use crate::media::probe::{MediaInfo, StreamInfo, StreamKind, first_of_kind};
use crate::time::{
    Rational, clamp_i64, rescale, rescale_spec, spec_timeline_time_base, timeline_time_base,
};

verus! {

/// Pixel format for preview frames passed to the UI.
#[derive(Debug, Clone, Copy, PartialEq, Eq, Structural)]
pub enum PreviewPixelFormat {
    Rgba8,
    Nv12,
}

/// Raw preview frame payload. The pixel bytes are shared, not copied, when
/// a frame is cloned.
#[derive(Debug, PartialEq, Eq)]
pub struct PreviewFrame {
    pub width: u32,
    pub height: u32,
    pub format: PreviewPixelFormat,
    pub bytes: Arc<[u8]>,
}

/// `Arc::clone` on a byte buffer: the new handle points at the same
/// allocation, so it holds the same bytes as the one it was made from.
#[verifier::external_body]
fn share_bytes(bytes: &Arc<[u8]>) -> (out: Arc<[u8]>)
    ensures
        out == *bytes,
{
    Arc::clone(bytes)
}

impl Clone for PreviewFrame {
    fn clone(&self) -> (out: Self)
        ensures
            out == *self,
    {
        PreviewFrame {
            width: self.width,
            height: self.height,
            format: self.format,
            bytes: share_bytes(&self.bytes),
        }
    }
}

/// Probed video stream information used by timeline mapping.
#[derive(Debug, Clone, Copy, PartialEq, Eq)]
pub struct ProbedVideoStream {
    pub stream_index: u32,
    pub time_base: Rational,
    pub frame_rate: Option<Rational>,
    pub src_in: i64,
    pub src_out: i64,
    pub width: u32,
    pub height: u32,
}

/// Probed audio stream information used by timeline mapping.
#[derive(Debug, Clone, Copy, PartialEq, Eq)]
pub struct ProbedAudioStream {
    pub stream_index: u32,
    pub time_base: Rational,
    pub src_in: i64,
    pub src_out: i64,
    pub sample_rate: u32,
    pub channels: u16,
}

/// Result of probing one media asset.
#[derive(Debug, PartialEq, Eq)]
pub struct ProbedMedia {
    pub path: String,
    pub duration_tl: i64,
    pub video: Option<ProbedVideoStream>,
    pub audio: Option<ProbedAudioStream>,
}

impl Clone for ProbedMedia {
    fn clone(&self) -> (out: Self)
        ensures
            out == *self,
    {
        ProbedMedia {
            path: self.path.clone(),
            duration_tl: self.duration_tl,
            video: self.video,
            audio: self.audio,
        }
    }
}

/// Media operations required by the engine.
///
/// The engine makes no assumption about what an implementation returns: it
/// checks every probe result before building a project from it.
pub trait MediaBackend {
    /// Probes media information for import.
    fn probe(&self, path: &String) -> Result<ProbedMedia, EngineError>;

    /// Decodes the first frame at or after `source_tl`, a position on the
    /// source clock in timeline ticks.
    fn decode_preview_frame(&self, path: &String, source_tl: i64) -> Result<
        PreviewFrame,
        EngineError,
    >;

    /// Renders an export plan into its output file.
    fn export_video(&self, plan: &ExportVideoPlan) -> Result<(), EngineError>;
}


/// The first stream among the first `n` whose time base is not positive,
/// as the error that reports it.
pub open spec fn first_invalid_stream_time_base(streams: Seq<StreamInfo>, n: int) -> Option<
    EngineError,
>
    decreases n,
{
    if n <= 0 {
        None
    } else {
        match first_invalid_stream_time_base(streams, n - 1) {
            Some(e) => Some(e),
            None => if streams[n - 1].time_base.wf() {
                None
            } else {
                Some(
                    EngineError::InvalidRational {
                        num: streams[n - 1].time_base.num,
                        den: streams[n - 1].time_base.den,
                    },
                )
            },
        }
    }
}

/// The longest duration among the first `n` streams that have one, in
/// timeline ticks.
pub open spec fn longest_stream_tl(streams: Seq<StreamInfo>, n: int) -> Option<int>
    decreases n,
{
    if n <= 0 {
        None
    } else {
        let before = longest_stream_tl(streams, n - 1);
        match streams[n - 1].duration_ts {
            None => before,
            Some(duration_ts) => {
                let tl = rescale_spec(
                    duration_ts as int,
                    streams[n - 1].time_base,
                    spec_timeline_time_base(),
                );
                match before {
                    None => Some(tl),
                    Some(longest) => Some(
                        if tl > longest {
                            tl
                        } else {
                            longest
                        },
                    ),
                }
            },
        }
    }
}

/// The duration that a probe gives: the container's, else the longest
/// stream's.
pub open spec fn probe_duration_tl(info: MediaInfo) -> Option<int> {
    match info.duration_tl {
        Some(duration_tl) => Some(duration_tl as int),
        None => longest_stream_tl(info.streams@, info.streams@.len() as int),
    }
}

/// Where a stream's range begins: at its first timestamp, or at zero.
pub open spec fn stream_src_in(stream: StreamInfo) -> i64 {
    match stream.start_pts {
        Some(start_pts) => start_pts,
        None => 0,
    }
}

/// Where a stream's range ends: its own duration after its beginning, or
/// without one the media's duration on its clock, within `i64`.
pub open spec fn stream_src_out(stream: StreamInfo, duration_tl: i64) -> i64 {
    clamp_i64(
        stream_src_in(stream) + (match stream.duration_ts {
            Some(duration_ts) => duration_ts as int,
            None => rescale_spec(duration_tl as int, spec_timeline_time_base(), stream.time_base),
        }),
    ) as i64
}

/// What the engine imports for what a probe found: the media's duration,
/// at least one tick, and the ranges of its first video stream and its
/// first audio stream. A time base that is not positive, a missing
/// duration, a video stream without a size and an audio stream without
/// sample rate or channel count are errors, looked for in this order.
pub open spec fn probed_media_spec(info: MediaInfo) -> Result<ProbedMedia, EngineError> {
    let streams = info.streams@;
    match first_invalid_stream_time_base(streams, streams.len() as int) {
        Some(e) => Err(e),
        None => match probe_duration_tl(info) {
            None => Err(EngineError::MissingDuration(info.path)),
            Some(found) => {
                let duration_tl = if found < 1 {
                    1i64
                } else {
                    found as i64
                };
                let video = first_of_kind(streams, StreamKind::Video);
                let audio = first_of_kind(streams, StreamKind::Audio);
                if video is Some && (streams[video->0].width is None
                    || streams[video->0].height is None) {
                    Err(EngineError::MissingVideoDimensions(info.path))
                } else if audio is Some && (streams[audio->0].sample_rate is None
                    || streams[audio->0].channels is None) {
                    Err(EngineError::MissingAudioMetadata(info.path))
                } else {
                    Ok(
                        ProbedMedia {
                            path: info.path,
                            duration_tl,
                            video: match video {
                                None => None,
                                Some(v) => Some(
                                    ProbedVideoStream {
                                        stream_index: streams[v].index,
                                        time_base: streams[v].time_base,
                                        frame_rate: streams[v].r_frame_rate,
                                        src_in: stream_src_in(streams[v]),
                                        src_out: stream_src_out(streams[v], duration_tl),
                                        width: streams[v].width->0,
                                        height: streams[v].height->0,
                                    },
                                ),
                            },
                            audio: match audio {
                                None => None,
                                Some(a) => Some(
                                    ProbedAudioStream {
                                        stream_index: streams[a].index,
                                        time_base: streams[a].time_base,
                                        src_in: stream_src_in(streams[a]),
                                        src_out: stream_src_out(streams[a], duration_tl),
                                        sample_rate: streams[a].sample_rate->0,
                                        channels: streams[a].channels->0,
                                    },
                                ),
                            },
                        },
                    )
                }
            },
        },
    }
}

/// An invalid time base among the first `m` streams is the one reported
/// for any longer prefix.
pub proof fn lemma_invalid_stream_time_base_persists(streams: Seq<StreamInfo>, m: int, n: int)
    requires
        0 <= m <= n,
        first_invalid_stream_time_base(streams, m) is Some,
    ensures
        first_invalid_stream_time_base(streams, n) == first_invalid_stream_time_base(streams, m),
    decreases n - m,
{
    if m < n {
        lemma_invalid_stream_time_base_persists(streams, m, n - 1);
    }
}

/// When none of the first `n` streams has an invalid time base, each has a
/// valid one.
pub proof fn lemma_stream_time_bases_valid(streams: Seq<StreamInfo>, n: int)
    requires
        0 <= n <= streams.len(),
        first_invalid_stream_time_base(streams, n) is None,
    ensures
        forall|i: int| 0 <= i < n ==> (#[trigger] streams[i]).time_base.wf(),
    decreases n,
{
    if n > 0 {
        lemma_stream_time_bases_valid(streams, n - 1);
    }
}

/// Finds the first stream whose time base is not positive.
fn check_stream_time_bases(info: &MediaInfo) -> (out: Result<(), EngineError>)
    ensures
        match first_invalid_stream_time_base(info.streams@, info.streams@.len() as int) {
            Some(e) => out == Err::<(), EngineError>(e),
            None => out is Ok && forall|i: int|
                0 <= i < info.streams@.len() ==> (#[trigger] info.streams@[i]).time_base.wf(),
        },
{
    let mut i: usize = 0;
    while i < info.streams.len()
        invariant
            i <= info.streams@.len(),
            first_invalid_stream_time_base(info.streams@, i as int) is None,
        decreases info.streams@.len() - i,
    {
        let time_base = info.streams[i].time_base;
        if time_base.num <= 0 || time_base.den <= 0 {
            proof {
                lemma_invalid_stream_time_base_persists(
                    info.streams@,
                    i + 1,
                    info.streams@.len() as int,
                );
            }
            return Err(EngineError::InvalidRational { num: time_base.num, den: time_base.den });
        }
        i += 1;
    }
    proof {
        lemma_stream_time_bases_valid(info.streams@, info.streams@.len() as int);
    }
    Ok(())
}

/// Derives the media's duration in timeline ticks from what a probe
/// found.
pub fn duration_tl_from_probe(info: &MediaInfo) -> (out: Option<i64>)
    requires
        forall|i: int| 0 <= i < info.streams@.len() ==> (#[trigger] info.streams@[i]).time_base.wf(),
    ensures
        match probe_duration_tl(*info) {
            Some(duration_tl) => out == Some(duration_tl as i64) && i64::MIN <= duration_tl
                <= i64::MAX,
            None => out is None,
        },
{
    if let Some(duration_tl) = info.duration_tl {
        return Some(duration_tl);
    }
    let mut best: Option<i64> = None;
    let mut i: usize = 0;
    while i < info.streams.len()
        invariant
            i <= info.streams@.len(),
            forall|k: int|
                0 <= k < info.streams@.len() ==> (#[trigger] info.streams@[k]).time_base.wf(),
            match longest_stream_tl(info.streams@, i as int) {
                Some(longest) => best == Some(longest as i64) && i64::MIN <= longest <= i64::MAX,
                None => best is None,
            },
        decreases info.streams@.len() - i,
    {
        let stream = &info.streams[i];
        assert(info.streams@[i as int].time_base.wf());
        if let Some(duration_ts) = stream.duration_ts {
            let tl = rescale(duration_ts, stream.time_base, timeline_time_base());
            best = match best {
                None => Some(tl),
                Some(current) => Some(
                    if tl > current {
                        tl
                    } else {
                        current
                    },
                ),
            };
        }
        i += 1;
    }
    best
}

/// Works out the source range of a stream.
fn stream_range(stream: &StreamInfo, duration_tl: i64) -> (out: (i64, i64))
    requires
        stream.time_base.wf(),
    ensures
        out.0 == stream_src_in(*stream),
        out.1 == stream_src_out(*stream, duration_tl),
{
    let src_in = match stream.start_pts {
        Some(start_pts) => start_pts,
        None => 0,
    };
    let length = match stream.duration_ts {
        Some(duration_ts) => duration_ts,
        None => rescale(duration_tl, timeline_time_base(), stream.time_base),
    };
    let end: i128 = src_in as i128 + length as i128;
    let src_out: i64 = if end < i64::MIN as i128 {
        i64::MIN
    } else if end > i64::MAX as i128 {
        i64::MAX
    } else {
        end as i64
    };
    (src_in, src_out)
}

/// Turns what a probe found into what the engine imports.
pub fn probed_media_from_info(info: &MediaInfo) -> (out: Result<ProbedMedia, EngineError>)
    ensures
        out == probed_media_spec(*info),
{
    match check_stream_time_bases(info) {
        Ok(_) => {},
        Err(e) => {
            return Err(e);
        },
    }
    let duration_tl = match duration_tl_from_probe(info) {
        Some(found) => if found < 1 {
            1
        } else {
            found
        },
        None => {
            return Err(EngineError::MissingDuration(info.path.clone()));
        },
    };
    let video = match info.first_video() {
        None => None,
        Some(stream) => {
            let (src_in, src_out) = stream_range(stream, duration_tl);
            match (stream.width, stream.height) {
                (Some(width), Some(height)) => Some(
                    ProbedVideoStream {
                        stream_index: stream.index,
                        time_base: stream.time_base,
                        frame_rate: stream.r_frame_rate,
                        src_in,
                        src_out,
                        width,
                        height,
                    },
                ),
                _ => {
                    return Err(EngineError::MissingVideoDimensions(info.path.clone()));
                },
            }
        },
    };
    let audio = match info.first_audio() {
        None => None,
        Some(stream) => {
            let (src_in, src_out) = stream_range(stream, duration_tl);
            match (stream.sample_rate, stream.channels) {
                (Some(sample_rate), Some(channels)) => Some(
                    ProbedAudioStream {
                        stream_index: stream.index,
                        time_base: stream.time_base,
                        src_in,
                        src_out,
                        sample_rate,
                        channels,
                    },
                ),
                _ => {
                    return Err(EngineError::MissingAudioMetadata(info.path.clone()));
                },
            }
        },
    };
    Ok(ProbedMedia { path: info.path.clone(), duration_tl, video, audio })
}

/// The segment of an export request that stands for a plan's segment.
pub open spec fn request_segment(segment: crate::export::ExportVideoSegment) -> VideoExportSegment {
    VideoExportSegment {
        input_index: segment.input_index,
        src_in_video: segment.src_in_video,
        src_out_video: segment.src_out_video,
        src_video_time_base: segment.src_video_time_base,
        src_in_audio: segment.src_in_audio,
        src_out_audio: segment.src_out_audio,
        src_audio_time_base: segment.src_audio_time_base,
    }
}

/// Writes an export plan as the request that the backend renders: the
/// same inputs, segments, audio settings and output path.
pub fn export_request_from_plan(plan: &ExportVideoPlan) -> (out: VideoExportRequest)
    ensures
        out.inputs@ == plan.inputs@,
        out.segments@ == plan.segments@.map_values(
            |s: crate::export::ExportVideoSegment| request_segment(s),
        ),
        out.audio == (match plan.audio {
            Some(audio) => Some(
                AudioExportSettings { sample_rate: audio.sample_rate, channels: audio.channels },
            ),
            None => None,
        }),
        out.output_path == plan.output_path,
{
    let mut inputs: Vec<String> = Vec::new();
    let mut i: usize = 0;
    while i < plan.inputs.len()
        invariant
            i <= plan.inputs@.len(),
            inputs@ == plan.inputs@.subrange(0, i as int),
        decreases plan.inputs@.len() - i,
    {
        inputs.push(plan.inputs[i].clone());
        assert(inputs@ =~= plan.inputs@.subrange(0, i + 1));
        i += 1;
    }
    assert(inputs@ =~= plan.inputs@);
    let mut segments: Vec<VideoExportSegment> = Vec::new();
    let mut k: usize = 0;
    while k < plan.segments.len()
        invariant
            k <= plan.segments@.len(),
            segments@.len() == k,
            forall|j: int| 0 <= j < k ==> segments@[j] == request_segment(plan.segments@[j]),
        decreases plan.segments@.len() - k,
    {
        let segment = &plan.segments[k];
        segments.push(
            VideoExportSegment {
                input_index: segment.input_index,
                src_in_video: segment.src_in_video,
                src_out_video: segment.src_out_video,
                src_video_time_base: segment.src_video_time_base,
                src_in_audio: segment.src_in_audio,
                src_out_audio: segment.src_out_audio,
                src_audio_time_base: segment.src_audio_time_base,
            },
        );
        k += 1;
    }
    assert(segments@ =~= plan.segments@.map_values(
        |s: crate::export::ExportVideoSegment| request_segment(s),
    ));
    VideoExportRequest {
        inputs,
        segments,
        audio: match plan.audio {
            Some(audio) => Some(
                AudioExportSettings { sample_rate: audio.sample_rate, channels: audio.channels },
            ),
            None => None,
        },
        output_path: plan.output_path.clone(),
    }
}

} // verus!
