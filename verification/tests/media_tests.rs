use engine::error::EngineError;
use engine::export::{ExportAudioSettings, ExportVideoPlan, ExportVideoSegment};
use engine::media::decode::{rgba_len, select_timestamp_at_or_after};
use engine::media::error::MediaFfmpegError;
use engine::media::mux::{
    build_filter_complex, channel_layout_for_channels, command_for_display, export_arguments,
    find_request_fault, validate_request, AudioExportSettings, ExportRequestFault,
    VideoExportRequest, VideoExportSegment,
};
use engine::media::probe::{MediaInfo, StreamInfo, StreamKind};
use engine::preview::{
    duration_tl_from_probe, export_request_from_plan, probed_media_from_info, ProbedAudioStream,
    ProbedMedia, ProbedVideoStream,
};
use engine::text::{is_white_space_char, trim};
use engine::time::Rational;

#[test]
fn build_filter_complex_for_two_segments_uses_trim_setpts_and_concat() {
    let request = VideoExportRequest {
        inputs: vec![String::from("in.mp4")],
        segments: vec![
            VideoExportSegment {
                input_index: 0,
                src_in_video: 90_000,
                src_out_video: 120_000,
                src_video_time_base: Rational::new(1, 90_000).expect("valid"),
                src_in_audio: None,
                src_out_audio: None,
                src_audio_time_base: None,
            },
            VideoExportSegment {
                input_index: 0,
                src_in_video: 120_000,
                src_out_video: 198_000,
                src_video_time_base: Rational::new(1, 90_000).expect("valid"),
                src_in_audio: None,
                src_out_audio: None,
                src_audio_time_base: None,
            },
        ],
        audio: None,
        output_path: String::from("out.mp4"),
    };

    let filter = build_filter_complex(&request);
    assert_eq!(
        filter,
        "[0:v:0]settb=1/90000,trim=start_pts=90000:end_pts=120000,setpts=PTS-STARTPTS[v0];\
[0:v:0]settb=1/90000,trim=start_pts=120000:end_pts=198000,setpts=PTS-STARTPTS[v1];\
[v0][v1]concat=n=2:v=1:a=0[vout]"
    );
}

#[test]
fn build_filter_complex_for_two_segments_with_audio_uses_av_concat() {
    let request = VideoExportRequest {
        inputs: vec![String::from("in.mp4")],
        segments: vec![
            VideoExportSegment {
                input_index: 0,
                src_in_video: 90_000,
                src_out_video: 120_000,
                src_video_time_base: Rational::new(1, 90_000).expect("valid"),
                src_in_audio: Some(48_000),
                src_out_audio: Some(64_000),
                src_audio_time_base: Some(Rational::new(1, 48_000).expect("valid")),
            },
            VideoExportSegment {
                input_index: 0,
                src_in_video: 120_000,
                src_out_video: 198_000,
                src_video_time_base: Rational::new(1, 90_000).expect("valid"),
                src_in_audio: Some(64_000),
                src_out_audio: Some(105_600),
                src_audio_time_base: Some(Rational::new(1, 48_000).expect("valid")),
            },
        ],
        audio: Some(AudioExportSettings {
            sample_rate: 48_000,
            channels: 2,
        }),
        output_path: String::from("out.mp4"),
    };

    let filter = build_filter_complex(&request);
    assert_eq!(
        filter,
        "[0:v:0]settb=1/90000,trim=start_pts=90000:end_pts=120000,setpts=PTS-STARTPTS[v0];\
[0:a:0]asettb=1/48000,atrim=start_pts=48000:end_pts=64000,asetpts=PTS-STARTPTS,aresample=48000:async=1:first_pts=0,aformat=sample_rates=48000:channel_layouts=stereo[a0];\
[0:v:0]settb=1/90000,trim=start_pts=120000:end_pts=198000,setpts=PTS-STARTPTS[v1];\
[0:a:0]asettb=1/48000,atrim=start_pts=64000:end_pts=105600,asetpts=PTS-STARTPTS,aresample=48000:async=1:first_pts=0,aformat=sample_rates=48000:channel_layouts=stereo[a1];\
[v0][a0][v1][a1]concat=n=2:v=1:a=1[vout][aout]"
    );
}

#[test]
fn validate_request_rejects_unsupported_audio_channel_layout() {
    let request = VideoExportRequest {
        inputs: vec![String::from("in.mp4")],
        segments: vec![VideoExportSegment {
            input_index: 0,
            src_in_video: 90_000,
            src_out_video: 120_000,
            src_video_time_base: Rational::new(1, 90_000).expect("valid"),
            src_in_audio: Some(48_000),
            src_out_audio: Some(64_000),
            src_audio_time_base: Some(Rational::new(1, 48_000).expect("valid")),
        }],
        audio: Some(AudioExportSettings {
            sample_rate: 48_000,
            channels: 9,
        }),
        output_path: String::from("out.mp4"),
    };

    let result = validate_request(&request);
    assert!(matches!(
        result,
        Err(MediaFfmpegError::InvalidExportRequest {
            reason: "audio channel layout is unsupported"
        })
    ));
}

fn av_segment() -> VideoExportSegment {
    VideoExportSegment {
        input_index: 0,
        src_in_video: 10,
        src_out_video: 20,
        src_video_time_base: Rational::new(1, 25).expect("valid"),
        src_in_audio: Some(-5),
        src_out_audio: Some(7),
        src_audio_time_base: Some(Rational::new(1, 8_000).expect("valid")),
    }
}

fn av_request(segments: Vec<VideoExportSegment>) -> VideoExportRequest {
    VideoExportRequest {
        inputs: vec![String::from("a.mp4"), String::from("b c.mp4")],
        segments,
        audio: Some(AudioExportSettings { sample_rate: 8_000, channels: 1 }),
        output_path: String::from("out.mp4"),
    }
}

#[test]
fn a_request_is_checked_in_a_fixed_order() {
    let good = av_request(vec![av_segment()]);
    assert_eq!(find_request_fault(&good), None);
    assert!(validate_request(&good).is_ok());

    let cases: Vec<(VideoExportRequest, ExportRequestFault, &str)> = vec![
        (
            VideoExportRequest { inputs: vec![], segments: vec![], ..av_request(vec![]) },
            ExportRequestFault::InputsEmpty,
            "export inputs are empty",
        ),
        (av_request(vec![]), ExportRequestFault::SegmentsEmpty, "export segments are empty"),
        (
            VideoExportRequest {
                audio: Some(AudioExportSettings { sample_rate: 0, channels: 0 }),
                ..av_request(vec![av_segment()])
            },
            ExportRequestFault::SampleRateZero,
            "audio sample rate must be positive",
        ),
        (
            VideoExportRequest {
                audio: Some(AudioExportSettings { sample_rate: 1, channels: 0 }),
                ..av_request(vec![av_segment()])
            },
            ExportRequestFault::ChannelsZero,
            "audio channels must be positive",
        ),
        (
            av_request(vec![VideoExportSegment { input_index: 2, src_out_video: 0, ..av_segment() }]),
            ExportRequestFault::InputIndexOutOfRange,
            "segment input index is out of range",
        ),
        (
            av_request(vec![VideoExportSegment { src_out_video: 10, src_in_audio: None, ..av_segment() }]),
            ExportRequestFault::VideoRangeNotPositive,
            "segment source range is not positive",
        ),
        (
            av_request(vec![VideoExportSegment {
                src_in_audio: None,
                src_out_audio: None,
                ..av_segment()
            }]),
            ExportRequestFault::AudioStartMissing,
            "audio range start is missing",
        ),
        (
            av_request(vec![VideoExportSegment {
                src_out_audio: None,
                src_audio_time_base: None,
                ..av_segment()
            }]),
            ExportRequestFault::AudioEndMissing,
            "audio range end is missing",
        ),
        (
            av_request(vec![VideoExportSegment {
                src_audio_time_base: None,
                src_out_audio: Some(-5),
                ..av_segment()
            }]),
            ExportRequestFault::AudioTimeBaseMissing,
            "audio time base is missing",
        ),
        (
            av_request(vec![VideoExportSegment { src_out_audio: Some(-5), ..av_segment() }]),
            ExportRequestFault::AudioRangeNotPositive,
            "audio source range is not positive",
        ),
        (
            av_request(vec![
                av_segment(),
                VideoExportSegment { src_out_audio: Some(-6), ..av_segment() },
                VideoExportSegment { input_index: 9, ..av_segment() },
            ]),
            ExportRequestFault::AudioRangeNotPositive,
            "audio source range is not positive",
        ),
    ];
    for (request, fault, reason) in cases {
        assert_eq!(find_request_fault(&request), Some(fault));
        assert_eq!(fault.reason(), reason);
        match validate_request(&request) {
            Err(MediaFfmpegError::InvalidExportRequest { reason: found }) => {
                assert_eq!(found, reason)
            }
            other => panic!("expected an invalid request, got {other:?}"),
        }
    }

    // Without audio settings the audio fields of a segment do not count.
    let silent = VideoExportRequest {
        audio: None,
        ..av_request(vec![VideoExportSegment { src_in_audio: None, ..av_segment() }])
    };
    assert!(validate_request(&silent).is_ok());
}

#[test]
fn channel_layouts_are_named_for_one_to_eight_channels() {
    let names = ["mono", "stereo", "2.1", "quad", "5.0", "5.1", "6.1", "7.1"];
    for (index, name) in names.iter().enumerate() {
        assert_eq!(channel_layout_for_channels(index as u16 + 1), Some(*name));
    }
    assert_eq!(channel_layout_for_channels(0), None);
    assert_eq!(channel_layout_for_channels(9), None);
    assert_eq!(channel_layout_for_channels(u16::MAX), None);
}

#[test]
fn a_single_segment_needs_no_concatenation() {
    let request = av_request(vec![VideoExportSegment { input_index: 1, ..av_segment() }]);
    assert_eq!(
        build_filter_complex(&request),
        "[1:v:0]settb=1/25,trim=start_pts=10:end_pts=20,setpts=PTS-STARTPTS[v0];\
[1:a:0]asettb=1/8000,atrim=start_pts=-5:end_pts=7,asetpts=PTS-STARTPTS,aresample=8000:async=1:first_pts=0,aformat=sample_rates=8000:channel_layouts=mono[a0]"
    );
    assert_eq!(command_for_display(&request), "ffmpeg export out.mp4");
    assert_eq!(
        export_arguments(&request),
        vec![
            "-hide_banner",
            "-v",
            "error",
            "-y",
            "-copyts",
            "-i",
            "a.mp4",
            "-i",
            "b c.mp4",
            "-filter_complex",
            build_filter_complex(&request).as_str(),
            "-map",
            "[v0]",
            "-c:v",
            "libx264",
            "-pix_fmt",
            "yuv420p",
            "-map",
            "[a0]",
            "-c:a",
            "aac",
            "-ar",
            "8000",
            "-ac",
            "1",
            "out.mp4",
        ]
    );
}

#[test]
fn several_segments_without_audio_are_concatenated_and_muted() {
    let request = VideoExportRequest {
        audio: None,
        ..av_request(vec![av_segment(); 11])
    };
    let filter = build_filter_complex(&request);
    assert!(filter.ends_with(
        ";[v0][v1][v2][v3][v4][v5][v6][v7][v8][v9][v10]concat=n=11:v=1:a=0[vout]"
    ));
    assert_eq!(filter.matches(';').count(), 11);
    let arguments = export_arguments(&request);
    assert_eq!(arguments[arguments.len() - 2..], ["-an", "out.mp4"]);
    assert_eq!(arguments[11..13], ["-map", "[vout]"]);
}

#[test]
fn the_frame_at_or_after_the_target_is_chosen() {
    assert_eq!(select_timestamp_at_or_after(&[], 5), None);
    assert_eq!(select_timestamp_at_or_after(&[0, 10, 20], 10), Some(10));
    assert_eq!(select_timestamp_at_or_after(&[0, 10, 20], 11), Some(20));
    assert_eq!(select_timestamp_at_or_after(&[0, 10, 20], -3), Some(0));
    assert_eq!(select_timestamp_at_or_after(&[0, 10, 20], 21), Some(20));
    // The order given counts, not the order of the values.
    assert_eq!(select_timestamp_at_or_after(&[30, 10, 20], 15), Some(30));
    assert_eq!(select_timestamp_at_or_after(&[3, 1, 2], 9), Some(2));
}

#[test]
fn the_size_of_a_frame_is_counted_without_overflow() {
    assert_eq!(rgba_len(2, 1), Some(8));
    assert_eq!(rgba_len(0, 7), Some(0));
    assert_eq!(rgba_len(1920, 1080), Some(8_294_400));
    assert_eq!(rgba_len(u32::MAX, u32::MAX), None);
}

#[test]
fn media_errors_have_their_texts() {
    let cases: Vec<(MediaFfmpegError, &str)> = vec![
        (MediaFfmpegError::InvalidRational { num: 0, den: -2 }, "invalid rational 0/-2"),
        (MediaFfmpegError::InvalidTimestamp { source_tl: -1 }, "invalid timestamp: -1"),
        (
            MediaFfmpegError::MissingVideoStream(String::from("a.wav")),
            "video stream not found: a.wav",
        ),
        (
            MediaFfmpegError::MissingVideoDimensions(String::from("a.mp4")),
            "video dimensions missing: a.mp4",
        ),
        (
            MediaFfmpegError::InvalidExportRequest { reason: "export inputs are empty" },
            "invalid export request: export inputs are empty",
        ),
        (
            MediaFfmpegError::Io {
                context: "run ffprobe stream probe",
                source: String::from("No such file"),
            },
            "run ffprobe stream probe: No such file",
        ),
        (
            MediaFfmpegError::CommandFailed {
                command: String::from("ffmpeg export out.mp4"),
                status: String::from("exit status: 1"),
                stderr: String::from(" \n\tbad input\u{3000}\r\n"),
            },
            "command failed (exit status: 1): ffmpeg export out.mp4; stderr: bad input",
        ),
        (MediaFfmpegError::Utf8(String::from("invalid utf-8")), "utf8 decode error: invalid utf-8"),
        (
            MediaFfmpegError::Parse { context: "time_base", value: String::from("x/y") },
            "parse error (time_base): x/y",
        ),
    ];
    for (error, text) in cases {
        assert_eq!(error.message(), text);
    }
    let wrapped = EngineError::from(MediaFfmpegError::Utf8(String::from("x")));
    assert_eq!(wrapped.message(), "media backend error: utf8 decode error: x");
}

#[test]
fn trim_agrees_with_the_standard_library() {
    let samples = [
        "",
        " ",
        "a",
        "  a b  ",
        "\t\n\x0b\x0c\r x \u{85}\u{a0}",
        "\u{1680}\u{2000}\u{200a}\u{2028}\u{2029}\u{202f}\u{205f}\u{3000}",
        "\u{200b}x\u{200b}",
        "\u{feff} x",
        "é \u{3000}",
        "\u{1c}\u{1f}",
    ];
    for sample in samples {
        assert_eq!(trim(sample), sample.trim(), "{sample:?}");
    }
    for code in 0..=0x3100u32 {
        if let Some(c) = char::from_u32(code) {
            assert_eq!(is_white_space_char(c), c.is_whitespace(), "U+{code:04X}");
        }
    }
}

fn stream(index: u32, kind: StreamKind) -> StreamInfo {
    StreamInfo {
        index,
        kind,
        codec_name: None,
        time_base: Rational::new(1, 90_000).expect("valid"),
        width: Some(640),
        height: Some(360),
        r_frame_rate: Some(Rational::new(25, 1).expect("valid")),
        sample_rate: Some(48_000),
        channels: Some(2),
        channel_layout: None,
        start_pts: Some(900),
        duration_ts: Some(90_000),
    }
}

fn info(streams: Vec<StreamInfo>, duration_tl: Option<i64>) -> MediaInfo {
    MediaInfo { path: String::from("clip.mkv"), streams, duration_tl }
}

#[test]
fn a_probe_becomes_the_ranges_of_the_first_video_and_audio_stream() {
    let found = info(
        vec![
            stream(0, StreamKind::Other),
            StreamInfo {
                time_base: Rational::new(1, 48_000).expect("valid"),
                start_pts: None,
                duration_ts: None,
                ..stream(1, StreamKind::Audio)
            },
            stream(2, StreamKind::Video),
            StreamInfo { start_pts: Some(5), ..stream(3, StreamKind::Video) },
            stream(4, StreamKind::Audio),
        ],
        Some(2_000_000),
    );
    assert_eq!(found.first_video().expect("video").index, 2);
    assert_eq!(found.first_audio().expect("audio").index, 1);
    assert_eq!(
        probed_media_from_info(&found).expect("probed"),
        ProbedMedia {
            path: String::from("clip.mkv"),
            duration_tl: 2_000_000,
            video: Some(ProbedVideoStream {
                stream_index: 2,
                time_base: Rational::new(1, 90_000).expect("valid"),
                frame_rate: Some(Rational::new(25, 1).expect("valid")),
                src_in: 900,
                src_out: 90_900,
                width: 640,
                height: 360,
            }),
            audio: Some(ProbedAudioStream {
                stream_index: 1,
                time_base: Rational::new(1, 48_000).expect("valid"),
                src_in: 0,
                src_out: 96_000,
                sample_rate: 48_000,
                channels: 2,
            }),
        }
    );
}

#[test]
fn a_probe_without_a_container_duration_takes_the_longest_stream() {
    let found = info(
        vec![
            StreamInfo { duration_ts: Some(45_000), ..stream(0, StreamKind::Video) },
            StreamInfo { duration_ts: None, ..stream(1, StreamKind::Audio) },
            StreamInfo {
                time_base: Rational::new(1, 1_000).expect("valid"),
                duration_ts: Some(750),
                ..stream(2, StreamKind::Other)
            },
        ],
        None,
    );
    assert_eq!(duration_tl_from_probe(&found), Some(750_000));
    let probed = probed_media_from_info(&found).expect("probed");
    assert_eq!(probed.duration_tl, 750_000);
    assert_eq!(probed.video.expect("video").src_out, 45_900);
    // 750_000 microseconds are 67_500 ticks of 1/90000 s.
    assert_eq!(probed.audio.expect("audio").src_out, 900 + 67_500);

    assert_eq!(duration_tl_from_probe(&info(vec![], Some(-4))), Some(-4));
    assert_eq!(probed_media_from_info(&info(vec![], Some(-4))).expect("probed").duration_tl, 1);
    assert_eq!(probed_media_from_info(&info(vec![], Some(0))).expect("probed").duration_tl, 1);
}

#[test]
fn a_probe_is_refused_for_what_it_lacks() {
    let no_duration =
        info(vec![StreamInfo { duration_ts: None, ..stream(0, StreamKind::Video) }], None);
    assert_eq!(duration_tl_from_probe(&no_duration), None);
    assert!(matches!(
        probed_media_from_info(&no_duration),
        Err(EngineError::MissingDuration(path)) if path == "clip.mkv"
    ));

    for sizeless in [
        StreamInfo { width: None, ..stream(0, StreamKind::Video) },
        StreamInfo { height: None, ..stream(0, StreamKind::Video) },
    ] {
        let found = info(
            vec![sizeless, StreamInfo { channels: None, ..stream(1, StreamKind::Audio) }],
            Some(10),
        );
        assert!(matches!(
            probed_media_from_info(&found),
            Err(EngineError::MissingVideoDimensions(path)) if path == "clip.mkv"
        ));
    }
    for mute in [
        StreamInfo { sample_rate: None, ..stream(1, StreamKind::Audio) },
        StreamInfo { channels: None, ..stream(1, StreamKind::Audio) },
    ] {
        let found = info(vec![stream(0, StreamKind::Video), mute], Some(10));
        assert!(matches!(
            probed_media_from_info(&found),
            Err(EngineError::MissingAudioMetadata(path)) if path == "clip.mkv"
        ));
    }
    // A second video stream without a size does not matter.
    let found = info(
        vec![stream(0, StreamKind::Video), StreamInfo { width: None, ..stream(1, StreamKind::Video) }],
        Some(10),
    );
    assert!(probed_media_from_info(&found).is_ok());

    let bad = info(
        vec![
            stream(0, StreamKind::Video),
            StreamInfo { time_base: Rational { num: -1, den: 25 }, ..stream(1, StreamKind::Other) },
        ],
        None,
    );
    assert!(matches!(
        probed_media_from_info(&bad),
        Err(EngineError::InvalidRational { num: -1, den: 25 })
    ));
}

#[test]
fn a_stream_range_stays_within_the_integer_range() {
    let found = info(
        vec![StreamInfo {
            start_pts: Some(i64::MAX - 5),
            duration_ts: Some(100),
            ..stream(0, StreamKind::Video)
        }],
        Some(10),
    );
    let video = probed_media_from_info(&found).expect("probed").video.expect("video");
    assert_eq!(video.src_in, i64::MAX - 5);
    assert_eq!(video.src_out, i64::MAX);
}

#[test]
fn a_plan_is_rendered_as_it_stands() {
    let plan = ExportVideoPlan {
        inputs: vec![String::from("a.mp4"), String::from("b.mp4")],
        segments: vec![ExportVideoSegment {
            input_index: 1,
            src_in_video: 3,
            src_out_video: 9,
            src_video_time_base: Rational::new(1, 25).expect("valid"),
            src_in_audio: Some(1),
            src_out_audio: Some(2),
            src_audio_time_base: Some(Rational::new(1, 8_000).expect("valid")),
        }],
        audio: Some(ExportAudioSettings { sample_rate: 8_000, channels: 2 }),
        output_path: String::from("o.mp4"),
    };
    assert_eq!(
        export_request_from_plan(&plan),
        VideoExportRequest {
            inputs: vec![String::from("a.mp4"), String::from("b.mp4")],
            segments: vec![VideoExportSegment {
                input_index: 1,
                src_in_video: 3,
                src_out_video: 9,
                src_video_time_base: Rational::new(1, 25).expect("valid"),
                src_in_audio: Some(1),
                src_out_audio: Some(2),
                src_audio_time_base: Some(Rational::new(1, 8_000).expect("valid")),
            }],
            audio: Some(AudioExportSettings { sample_rate: 8_000, channels: 2 }),
            output_path: String::from("o.mp4"),
        }
    );
}
