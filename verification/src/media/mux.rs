//! Export requests: what makes one valid, and the filter graph that
//! renders it.

use vstd::prelude::*;
use vstd::string::StringExecFns;
use crate::media::error::MediaFfmpegError;
use crate::text::{decimal, push_decimal, push_signed_decimal, push_text, signed_decimal};
use crate::time::Rational;

verus! {

/// Request payload for an export into one file.
#[derive(Debug, Clone, PartialEq, Eq)]
pub struct VideoExportRequest {
    pub inputs: Vec<String>,
    pub segments: Vec<VideoExportSegment>,
    pub audio: Option<AudioExportSettings>,
    pub output_path: String,
}

/// Audio output settings used when audio export is enabled.
#[derive(Debug, Clone, Copy, PartialEq, Eq)]
pub struct AudioExportSettings {
    pub sample_rate: u32,
    pub channels: u16,
}

/// One segment to trim and concatenate into the output stream.
#[derive(Debug, Clone, Copy, PartialEq, Eq)]
pub struct VideoExportSegment {
    pub input_index: usize,
    pub src_in_video: i64,
    pub src_out_video: i64,
    pub src_video_time_base: Rational,
    pub src_in_audio: Option<i64>,
    pub src_out_audio: Option<i64>,
    pub src_audio_time_base: Option<Rational>,
}


/// What is wrong with an export request.
#[derive(Debug, Clone, Copy, PartialEq, Eq)]
pub enum ExportRequestFault {
    InputsEmpty,
    SegmentsEmpty,
    SampleRateZero,
    ChannelsZero,
    ChannelLayoutUnsupported,
    InputIndexOutOfRange,
    VideoRangeNotPositive,
    AudioStartMissing,
    AudioEndMissing,
    AudioTimeBaseMissing,
    AudioRangeNotPositive,
}

impl ExportRequestFault {
    /// The reason that the error for the fault gives.
    pub open spec fn reason_text(self) -> Seq<char> {
        match self {
            ExportRequestFault::InputsEmpty => "export inputs are empty"@,
            ExportRequestFault::SegmentsEmpty => "export segments are empty"@,
            ExportRequestFault::SampleRateZero => "audio sample rate must be positive"@,
            ExportRequestFault::ChannelsZero => "audio channels must be positive"@,
            ExportRequestFault::ChannelLayoutUnsupported => "audio channel layout is unsupported"@,
            ExportRequestFault::InputIndexOutOfRange => "segment input index is out of range"@,
            ExportRequestFault::VideoRangeNotPositive => "segment source range is not positive"@,
            ExportRequestFault::AudioStartMissing => "audio range start is missing"@,
            ExportRequestFault::AudioEndMissing => "audio range end is missing"@,
            ExportRequestFault::AudioTimeBaseMissing => "audio time base is missing"@,
            ExportRequestFault::AudioRangeNotPositive => "audio source range is not positive"@,
        }
    }

    /// The reason that the error for the fault gives.
    pub fn reason(self) -> (out: &'static str)
        ensures
            out@ == self.reason_text(),
    {
        match self {
            ExportRequestFault::InputsEmpty => "export inputs are empty",
            ExportRequestFault::SegmentsEmpty => "export segments are empty",
            ExportRequestFault::SampleRateZero => "audio sample rate must be positive",
            ExportRequestFault::ChannelsZero => "audio channels must be positive",
            ExportRequestFault::ChannelLayoutUnsupported => "audio channel layout is unsupported",
            ExportRequestFault::InputIndexOutOfRange => "segment input index is out of range",
            ExportRequestFault::VideoRangeNotPositive => "segment source range is not positive",
            ExportRequestFault::AudioStartMissing => "audio range start is missing",
            ExportRequestFault::AudioEndMissing => "audio range end is missing",
            ExportRequestFault::AudioTimeBaseMissing => "audio time base is missing",
            ExportRequestFault::AudioRangeNotPositive => "audio source range is not positive",
        }
    }
}

/// The name of the channel layout for a number of channels, for one to
/// eight channels.
pub open spec fn channel_layout_text(channels: u16) -> Option<Seq<char>> {
    if channels == 1 {
        Some("mono"@)
    } else if channels == 2 {
        Some("stereo"@)
    } else if channels == 3 {
        Some("2.1"@)
    } else if channels == 4 {
        Some("quad"@)
    } else if channels == 5 {
        Some("5.0"@)
    } else if channels == 6 {
        Some("5.1"@)
    } else if channels == 7 {
        Some("6.1"@)
    } else if channels == 8 {
        Some("7.1"@)
    } else {
        None
    }
}

/// Names the channel layout for a number of channels.
pub fn channel_layout_for_channels(channels: u16) -> (out: Option<&'static str>)
    ensures
        match channel_layout_text(channels) {
            Some(text) => out is Some && out->0@ == text,
            None => out is None,
        },
{
    match channels {
        1 => Some("mono"),
        2 => Some("stereo"),
        3 => Some("2.1"),
        4 => Some("quad"),
        5 => Some("5.0"),
        6 => Some("5.1"),
        7 => Some("6.1"),
        8 => Some("7.1"),
        _ => None,
    }
}

/// What is wrong with the audio settings of a request, if anything.
pub open spec fn audio_settings_fault(audio: Option<AudioExportSettings>) -> Option<
    ExportRequestFault,
> {
    match audio {
        None => None,
        Some(settings) => if settings.sample_rate == 0 {
            Some(ExportRequestFault::SampleRateZero)
        } else if settings.channels == 0 {
            Some(ExportRequestFault::ChannelsZero)
        } else if channel_layout_text(settings.channels) is None {
            Some(ExportRequestFault::ChannelLayoutUnsupported)
        } else {
            None
        },
    }
}

/// What is wrong with one segment of a request, if anything: its input
/// must exist, its video range must not be empty, and with audio it must
/// have an audio range that is not empty and an audio time base.
pub open spec fn segment_fault(segment: VideoExportSegment, inputs: nat, with_audio: bool) -> Option<
    ExportRequestFault,
> {
    if segment.input_index >= inputs {
        Some(ExportRequestFault::InputIndexOutOfRange)
    } else if segment.src_out_video <= segment.src_in_video {
        Some(ExportRequestFault::VideoRangeNotPositive)
    } else if !with_audio {
        None
    } else if segment.src_in_audio is None {
        Some(ExportRequestFault::AudioStartMissing)
    } else if segment.src_out_audio is None {
        Some(ExportRequestFault::AudioEndMissing)
    } else if segment.src_audio_time_base is None {
        Some(ExportRequestFault::AudioTimeBaseMissing)
    } else if segment.src_out_audio->0 <= segment.src_in_audio->0 {
        Some(ExportRequestFault::AudioRangeNotPositive)
    } else {
        None
    }
}

/// The first fault among the first `n` segments.
pub open spec fn first_segment_fault(
    segments: Seq<VideoExportSegment>,
    inputs: nat,
    with_audio: bool,
    n: int,
) -> Option<ExportRequestFault>
    decreases n,
{
    if n <= 0 {
        None
    } else {
        match first_segment_fault(segments, inputs, with_audio, n - 1) {
            Some(fault) => Some(fault),
            None => segment_fault(segments[n - 1], inputs, with_audio),
        }
    }
}

/// A fault among the first `m` segments is the fault of any longer prefix.
pub proof fn lemma_segment_fault_persists(
    segments: Seq<VideoExportSegment>,
    inputs: nat,
    with_audio: bool,
    m: int,
    n: int,
)
    requires
        0 <= m <= n,
        first_segment_fault(segments, inputs, with_audio, m) is Some,
    ensures
        first_segment_fault(segments, inputs, with_audio, n) == first_segment_fault(
            segments,
            inputs,
            with_audio,
            m,
        ),
    decreases n - m,
{
    if m < n {
        lemma_segment_fault_persists(segments, inputs, with_audio, m, n - 1);
    }
}

/// When the first `n` segments have no fault, none of them has one.
pub proof fn lemma_no_segment_fault(
    segments: Seq<VideoExportSegment>,
    inputs: nat,
    with_audio: bool,
    n: int,
)
    requires
        0 <= n <= segments.len(),
        first_segment_fault(segments, inputs, with_audio, n) is None,
    ensures
        forall|i: int| 0 <= i < n ==> segment_fault(#[trigger] segments[i], inputs, with_audio) is None,
    decreases n,
{
    if n > 0 {
        lemma_no_segment_fault(segments, inputs, with_audio, n - 1);
    }
}

impl VideoExportRequest {
    /// What is wrong with the request, if anything: it needs inputs and
    /// segments, sound audio settings if it has any, and segments without
    /// fault. The first thing found wrong, in this order, is reported.
    pub open spec fn fault(&self) -> Option<ExportRequestFault> {
        if self.inputs@.len() == 0 {
            Some(ExportRequestFault::InputsEmpty)
        } else if self.segments@.len() == 0 {
            Some(ExportRequestFault::SegmentsEmpty)
        } else {
            match audio_settings_fault(self.audio) {
                Some(fault) => Some(fault),
                None => first_segment_fault(
                    self.segments@,
                    self.inputs@.len(),
                    self.audio is Some,
                    self.segments@.len() as int,
                ),
            }
        }
    }
}

/// Checks an export request.
pub fn validate_request(request: &VideoExportRequest) -> (out: Result<(), MediaFfmpegError>)
    ensures
        match request.fault() {
            None => out is Ok,
            Some(fault) => out is Err && out->Err_0 is InvalidExportRequest
                && out->Err_0->InvalidExportRequest_reason@ == fault.reason_text(),
        },
{
    match find_request_fault(request) {
        None => Ok(()),
        Some(fault) => Err(MediaFfmpegError::InvalidExportRequest { reason: fault.reason() }),
    }
}

/// Finds what is wrong with an export request.
pub fn find_request_fault(request: &VideoExportRequest) -> (out: Option<ExportRequestFault>)
    ensures
        out == request.fault(),
{
    if request.inputs.len() == 0 {
        return Some(ExportRequestFault::InputsEmpty);
    }
    if request.segments.len() == 0 {
        return Some(ExportRequestFault::SegmentsEmpty);
    }
    if let Some(audio) = request.audio {
        if audio.sample_rate == 0 {
            return Some(ExportRequestFault::SampleRateZero);
        }
        if audio.channels == 0 {
            return Some(ExportRequestFault::ChannelsZero);
        }
        if channel_layout_for_channels(audio.channels).is_none() {
            return Some(ExportRequestFault::ChannelLayoutUnsupported);
        }
    }
    let with_audio = request.audio.is_some();
    let inputs = request.inputs.len();
    let mut i: usize = 0;
    while i < request.segments.len()
        invariant
            i <= request.segments@.len(),
            inputs == request.inputs@.len(),
            inputs > 0,
            request.segments@.len() > 0,
            audio_settings_fault(request.audio) is None,
            with_audio == (request.audio is Some),
            first_segment_fault(request.segments@, inputs as nat, with_audio, i as int) is None,
        decreases request.segments@.len() - i,
    {
        let segment = &request.segments[i];
        let fault = if segment.input_index >= inputs {
            Some(ExportRequestFault::InputIndexOutOfRange)
        } else if segment.src_out_video <= segment.src_in_video {
            Some(ExportRequestFault::VideoRangeNotPositive)
        } else if !with_audio {
            None
        } else {
            match (segment.src_in_audio, segment.src_out_audio) {
                (None, _) => Some(ExportRequestFault::AudioStartMissing),
                (Some(_), None) => Some(ExportRequestFault::AudioEndMissing),
                (Some(src_in_audio), Some(src_out_audio)) => {
                    if segment.src_audio_time_base.is_none() {
                        Some(ExportRequestFault::AudioTimeBaseMissing)
                    } else if src_out_audio <= src_in_audio {
                        Some(ExportRequestFault::AudioRangeNotPositive)
                    } else {
                        None
                    }
                },
            }
        };
        assert(fault == segment_fault(request.segments@[i as int], inputs as nat, with_audio));
        if fault.is_some() {
            proof {
                lemma_segment_fault_persists(
                    request.segments@,
                    inputs as nat,
                    with_audio,
                    i + 1,
                    request.segments@.len() as int,
                );
            }
            return fault;
        }
        i += 1;
    }
    None
}

/// The filter chain that cuts the video of segment `index` out of its
/// input.
pub open spec fn video_chain_text(segment: VideoExportSegment, index: nat) -> Seq<char> {
    "["@ + decimal(segment.input_index as nat) + ":v:0]settb="@ + signed_decimal(
        segment.src_video_time_base.num as int,
    ) + "/"@ + signed_decimal(segment.src_video_time_base.den as int) + ",trim=start_pts="@
        + signed_decimal(segment.src_in_video as int) + ":end_pts="@ + signed_decimal(
        segment.src_out_video as int,
    ) + ",setpts=PTS-STARTPTS[v"@ + decimal(index) + "]"@
}

/// The filter chain that cuts the audio of segment `index` out of its
/// input and brings it to the output's sample rate and channel layout.
pub open spec fn audio_chain_text(
    segment: VideoExportSegment,
    index: nat,
    audio: AudioExportSettings,
) -> Seq<char> {
    "["@ + decimal(segment.input_index as nat) + ":a:0]asettb="@ + signed_decimal(
        segment.src_audio_time_base->0.num as int,
    ) + "/"@ + signed_decimal(segment.src_audio_time_base->0.den as int) + ",atrim=start_pts="@
        + signed_decimal(segment.src_in_audio->0 as int) + ":end_pts="@ + signed_decimal(
        segment.src_out_audio->0 as int,
    ) + ",asetpts=PTS-STARTPTS,aresample="@ + decimal(audio.sample_rate as nat)
        + ":async=1:first_pts=0,aformat=sample_rates="@ + decimal(audio.sample_rate as nat)
        + ":channel_layouts="@ + channel_layout_text(audio.channels)->0 + "[a"@ + decimal(index)
        + "]"@
}

/// The chains of segment `index`: video, then audio if audio is exported.
pub open spec fn segment_chains_text(
    segment: VideoExportSegment,
    index: nat,
    audio: Option<AudioExportSettings>,
) -> Seq<char> {
    match audio {
        None => video_chain_text(segment, index),
        Some(settings) => video_chain_text(segment, index) + ";"@ + audio_chain_text(
            segment,
            index,
            settings,
        ),
    }
}

/// The chains of the first `n` segments, separated by semicolons.
pub open spec fn chains_text(
    segments: Seq<VideoExportSegment>,
    audio: Option<AudioExportSettings>,
    n: nat,
) -> Seq<char>
    decreases n,
{
    if n == 0 {
        Seq::empty()
    } else if n == 1 {
        segment_chains_text(segments[0], 0, audio)
    } else {
        chains_text(segments, audio, (n - 1) as nat) + ";"@ + segment_chains_text(
            segments[n - 1],
            (n - 1) as nat,
            audio,
        )
    }
}

/// The labels of the first `n` segments' outputs, as the concatenation
/// takes them.
pub open spec fn concat_inputs_text(with_audio: bool, n: nat) -> Seq<char>
    decreases n,
{
    if n == 0 {
        Seq::empty()
    } else {
        concat_inputs_text(with_audio, (n - 1) as nat) + "[v"@ + decimal((n - 1) as nat) + "]"@
            + (if with_audio {
            "[a"@ + decimal((n - 1) as nat) + "]"@
        } else {
            Seq::empty()
        })
    }
}

/// The filter graph of a request: the chains of all segments, and for more
/// than one segment the chain that concatenates them.
pub open spec fn filter_text(request: VideoExportRequest) -> Seq<char> {
    let n = request.segments@.len();
    let chains = chains_text(request.segments@, request.audio, n);
    if n > 1 {
        chains + ";"@ + concat_inputs_text(request.audio is Some, n) + "concat=n="@ + decimal(n)
            + (if request.audio is Some {
            ":v=1:a=1[vout][aout]"@
        } else {
            ":v=1:a=0[vout]"@
        })
    } else {
        chains
    }
}

/// Appends the video chain of segment `index`.
fn push_video_chain(out: &mut String, segment: &VideoExportSegment, index: usize)
    ensures
        final(out)@ == old(out)@ + video_chain_text(*segment, index as nat),
{
    let ghost start = out@;
    let mut chain = String::new();
    push_text(&mut chain, "[");
    push_decimal(&mut chain, segment.input_index as u64);
    push_text(&mut chain, ":v:0]settb=");
    push_signed_decimal(&mut chain, segment.src_video_time_base.num as i64);
    push_text(&mut chain, "/");
    push_signed_decimal(&mut chain, segment.src_video_time_base.den as i64);
    push_text(&mut chain, ",trim=start_pts=");
    push_signed_decimal(&mut chain, segment.src_in_video);
    push_text(&mut chain, ":end_pts=");
    push_signed_decimal(&mut chain, segment.src_out_video);
    push_text(&mut chain, ",setpts=PTS-STARTPTS[v");
    push_decimal(&mut chain, index as u64);
    push_text(&mut chain, "]");
    assert(chain@ =~= video_chain_text(*segment, index as nat));
    push_text(out, chain.as_str());
}

/// Appends the audio chain of segment `index`.
fn push_audio_chain(
    out: &mut String,
    segment: &VideoExportSegment,
    index: usize,
    audio: AudioExportSettings,
)
    requires
        segment.src_in_audio is Some,
        segment.src_out_audio is Some,
        segment.src_audio_time_base is Some,
        channel_layout_text(audio.channels) is Some,
    ensures
        final(out)@ == old(out)@ + audio_chain_text(*segment, index as nat, audio),
{
    let layout = match channel_layout_for_channels(audio.channels) {
        Some(layout) => layout,
        None => "",
    };
    let audio_tb = match segment.src_audio_time_base {
        Some(audio_tb) => audio_tb,
        None => segment.src_video_time_base,
    };
    let src_in_audio = match segment.src_in_audio {
        Some(v) => v,
        None => 0,
    };
    let src_out_audio = match segment.src_out_audio {
        Some(v) => v,
        None => 0,
    };
    let mut chain = String::new();
    push_text(&mut chain, "[");
    push_decimal(&mut chain, segment.input_index as u64);
    push_text(&mut chain, ":a:0]asettb=");
    push_signed_decimal(&mut chain, audio_tb.num as i64);
    push_text(&mut chain, "/");
    push_signed_decimal(&mut chain, audio_tb.den as i64);
    push_text(&mut chain, ",atrim=start_pts=");
    push_signed_decimal(&mut chain, src_in_audio);
    push_text(&mut chain, ":end_pts=");
    push_signed_decimal(&mut chain, src_out_audio);
    push_text(&mut chain, ",asetpts=PTS-STARTPTS,aresample=");
    push_decimal(&mut chain, audio.sample_rate as u64);
    push_text(&mut chain, ":async=1:first_pts=0,aformat=sample_rates=");
    push_decimal(&mut chain, audio.sample_rate as u64);
    push_text(&mut chain, ":channel_layouts=");
    push_text(&mut chain, layout);
    push_text(&mut chain, "[a");
    push_decimal(&mut chain, index as u64);
    push_text(&mut chain, "]");
    assert(chain@ =~= audio_chain_text(*segment, index as nat, audio));
    push_text(out, chain.as_str());
}

/// Appends the chains of segment `index`.
fn push_segment_chains(
    out: &mut String,
    segment: &VideoExportSegment,
    index: usize,
    audio: Option<AudioExportSettings>,
)
    requires
        audio is Some ==> segment.src_in_audio is Some && segment.src_out_audio is Some
            && segment.src_audio_time_base is Some && channel_layout_text(audio->0.channels)
            is Some,
    ensures
        final(out)@ == old(out)@ + segment_chains_text(*segment, index as nat, audio),
{
    let ghost start = out@;
    push_video_chain(out, segment, index);
    if let Some(settings) = audio {
        push_text(out, ";");
        push_audio_chain(out, segment, index, settings);
        assert(out@ =~= start + segment_chains_text(*segment, index as nat, audio));
    }
}

/// Appends the labels of the first `count` segments' outputs.
fn push_concat_inputs(out: &mut String, with_audio: bool, count: usize)
    ensures
        final(out)@ == old(out)@ + concat_inputs_text(with_audio, count as nat),
{
    let ghost base = out@;
    let mut k: usize = 0;
    assert(out@ =~= base + concat_inputs_text(with_audio, 0));
    while k < count
        invariant
            k <= count,
            out@ == base + concat_inputs_text(with_audio, k as nat),
        decreases count - k,
    {
        let ghost before = out@;
        let mut label = String::new();
        push_text(&mut label, "[v");
        push_decimal(&mut label, k as u64);
        push_text(&mut label, "]");
        if with_audio {
            push_text(&mut label, "[a");
            push_decimal(&mut label, k as u64);
            push_text(&mut label, "]");
        }
        push_text(out, label.as_str());
        assert(out@ =~= base + concat_inputs_text(with_audio, (k + 1) as nat));
        k += 1;
    }
}

/// Writes the filter graph that renders a valid request.
pub fn build_filter_complex(request: &VideoExportRequest) -> (out: String)
    requires
        request.fault() is None,
    ensures
        out@ == filter_text(*request),
{
    let mut out = String::new();
    let count = request.segments.len();
    proof {
        lemma_no_segment_fault(
            request.segments@,
            request.inputs@.len(),
            request.audio is Some,
            count as int,
        );
    }
    let mut index: usize = 0;
    assert(out@ =~= chains_text(request.segments@, request.audio, 0));
    while index < count
        invariant
            index <= count,
            count == request.segments@.len(),
            audio_settings_fault(request.audio) is None,
            forall|i: int|
                0 <= i < count ==> segment_fault(
                    #[trigger] request.segments@[i],
                    request.inputs@.len(),
                    request.audio is Some,
                ) is None,
            out@ == chains_text(request.segments@, request.audio, index as nat),
        decreases count - index,
    {
        let ghost before = out@;
        if index > 0 {
            push_text(&mut out, ";");
        }
        assert(segment_fault(
            request.segments@[index as int],
            request.inputs@.len(),
            request.audio is Some,
        ) is None);
        push_segment_chains(&mut out, &request.segments[index], index, request.audio);
        assert(out@ =~= chains_text(request.segments@, request.audio, (index + 1) as nat));
        index += 1;
    }
    if count > 1 {
        let ghost chains = out@;
        let with_audio = request.audio.is_some();
        push_text(&mut out, ";");
        push_concat_inputs(&mut out, with_audio, count);
        push_text(&mut out, "concat=n=");
        push_decimal(&mut out, count as u64);
        if with_audio {
            push_text(&mut out, ":v=1:a=1[vout][aout]");
        } else {
            push_text(&mut out, ":v=1:a=0[vout]");
        }
        assert(out@ =~= filter_text(*request));
    }
    out
}

/// How a failed export names the command that it ran.
pub fn command_for_display(request: &VideoExportRequest) -> (out: String)
    ensures
        out@ == "ffmpeg export "@ + request.output_path@,
{
    let mut out = String::new();
    push_text(&mut out, "ffmpeg export ");
    push_text(&mut out, request.output_path.as_str());
    out
}


/// The label of the video output of a filter graph over `count` segments.
pub open spec fn video_label_text(count: nat) -> Seq<char> {
    if count == 1 {
        "[v0]"@
    } else {
        "[vout]"@
    }
}

/// The label of the audio output of a filter graph over `count` segments.
pub open spec fn audio_label_text(count: nat) -> Seq<char> {
    if count == 1 {
        "[a0]"@
    } else {
        "[aout]"@
    }
}

/// The arguments that name the first `n` inputs.
pub open spec fn input_arguments(inputs: Seq<String>, n: nat) -> Seq<Seq<char>>
    decreases n,
{
    if n == 0 {
        Seq::empty()
    } else {
        input_arguments(inputs, (n - 1) as nat).push("-i"@).push(inputs[n - 1]@)
    }
}

/// The arguments that choose the audio of the output, or none.
pub open spec fn audio_arguments(audio: Option<AudioExportSettings>, count: nat) -> Seq<Seq<char>> {
    match audio {
        Some(settings) => seq![
            "-map"@,
            audio_label_text(count),
            "-c:a"@,
            "aac"@,
            "-ar"@,
            decimal(settings.sample_rate as nat),
            "-ac"@,
            decimal(settings.channels as nat),
        ],
        None => seq!["-an"@],
    }
}

/// The arguments with which the encoder renders a request.
pub open spec fn export_arguments_spec(request: VideoExportRequest) -> Seq<Seq<char>> {
    let count = request.segments@.len();
    seq!["-hide_banner"@, "-v"@, "error"@, "-y"@, "-copyts"@] + input_arguments(
        request.inputs@,
        request.inputs@.len(),
    ) + seq![
        "-filter_complex"@,
        filter_text(request),
        "-map"@,
        video_label_text(count),
        "-c:v"@,
        "libx264"@,
        "-pix_fmt"@,
        "yuv420p"@,
    ] + audio_arguments(request.audio, count) + seq![request.output_path@]
}

/// The character sequences of a list of arguments.
pub open spec fn arguments_view(arguments: Seq<String>) -> Seq<Seq<char>> {
    arguments.map_values(|a: String| a@)
}

/// Appends one argument.
fn push_argument(arguments: &mut Vec<String>, text: &str)
    ensures
        arguments_view(final(arguments)@) == arguments_view(old(arguments)@).push(text@),
{
    arguments.push(String::from_str(text));
    assert(arguments_view(arguments@) =~= arguments_view(old(arguments)@).push(text@));
}

/// Lists the arguments with which the encoder renders a valid request.
pub fn export_arguments(request: &VideoExportRequest) -> (out: Vec<String>)
    requires
        request.fault() is None,
    ensures
        arguments_view(out@) == export_arguments_spec(*request),
{
    let count = request.segments.len();
    let mut arguments: Vec<String> = Vec::new();
    assert(arguments_view(arguments@) =~= Seq::<Seq<char>>::empty());
    push_argument(&mut arguments, "-hide_banner");
    push_argument(&mut arguments, "-v");
    push_argument(&mut arguments, "error");
    push_argument(&mut arguments, "-y");
    push_argument(&mut arguments, "-copyts");
    let ghost head = arguments_view(arguments@);
    assert(head =~= seq!["-hide_banner"@, "-v"@, "error"@, "-y"@, "-copyts"@]);
    let mut i: usize = 0;
    while i < request.inputs.len()
        invariant
            i <= request.inputs@.len(),
            arguments_view(arguments@) == head + input_arguments(request.inputs@, i as nat),
        decreases request.inputs@.len() - i,
    {
        push_argument(&mut arguments, "-i");
        push_argument(&mut arguments, request.inputs[i].as_str());
        assert(arguments_view(arguments@) =~= head + input_arguments(
            request.inputs@,
            (i + 1) as nat,
        ));
        i += 1;
    }
    let filter = build_filter_complex(request);
    push_argument(&mut arguments, "-filter_complex");
    push_argument(&mut arguments, filter.as_str());
    push_argument(&mut arguments, "-map");
    push_argument(
        &mut arguments,
        if count == 1 {
            "[v0]"
        } else {
            "[vout]"
        },
    );
    push_argument(&mut arguments, "-c:v");
    push_argument(&mut arguments, "libx264");
    push_argument(&mut arguments, "-pix_fmt");
    push_argument(&mut arguments, "yuv420p");
    let ghost middle = arguments_view(arguments@);
    assert(middle =~= head + input_arguments(request.inputs@, request.inputs@.len()) + seq![
        "-filter_complex"@,
        filter_text(*request),
        "-map"@,
        video_label_text(count as nat),
        "-c:v"@,
        "libx264"@,
        "-pix_fmt"@,
        "yuv420p"@,
    ]);
    match request.audio {
        Some(settings) => {
            let mut rate = String::new();
            push_decimal(&mut rate, settings.sample_rate as u64);
            let mut channels = String::new();
            push_decimal(&mut channels, settings.channels as u64);
            push_argument(&mut arguments, "-map");
            push_argument(
                &mut arguments,
                if count == 1 {
                    "[a0]"
                } else {
                    "[aout]"
                },
            );
            push_argument(&mut arguments, "-c:a");
            push_argument(&mut arguments, "aac");
            push_argument(&mut arguments, "-ar");
            push_argument(&mut arguments, rate.as_str());
            push_argument(&mut arguments, "-ac");
            push_argument(&mut arguments, channels.as_str());
            assert(arguments_view(arguments@) =~= middle + audio_arguments(
                request.audio,
                count as nat,
            ));
        },
        None => {
            push_argument(&mut arguments, "-an");
            assert(arguments_view(arguments@) =~= middle + audio_arguments(
                request.audio,
                count as nat,
            ));
        },
    }
    push_argument(&mut arguments, request.output_path.as_str());
    assert(arguments_view(arguments@) =~= export_arguments_spec(*request));
    arguments
}

} // verus!
