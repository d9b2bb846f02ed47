use engine::error::EngineError;
use engine::export::{
    build_video_export_plan, ExportAudioSettings, ExportVideoPlan, ExportVideoSegment,
};
use engine::project::{
    AudioStreamInfo, MediaAsset, Project, ProjectSettings, VideoStreamInfo,
};
use engine::time::Rational;
use engine::timeline::{Segment, Timeline};

fn tb(den: i32) -> Rational {
    Rational::new(1, den).expect("valid rational")
}

fn video_asset(id: u64, path: &str) -> MediaAsset {
    MediaAsset {
        id,
        path: String::from(path),
        video_stream_index: Some(0),
        audio_stream_index: None,
        video: Some(VideoStreamInfo { time_base: tb(90_000), frame_rate: None, width: 16, height: 9 }),
        audio: None,
        duration_tl: 1_000,
    }
}

fn av_asset(id: u64, path: &str, sample_rate: u32, channels: u16) -> MediaAsset {
    MediaAsset {
        audio_stream_index: Some(1),
        audio: Some(AudioStreamInfo { time_base: tb(sample_rate as i32), sample_rate, channels }),
        ..video_asset(id, path)
    }
}

fn video_segment(id: u64, asset_id: u64, range: (i64, i64)) -> Segment {
    Segment {
        id,
        asset_id,
        src_in_video: Some(range.0),
        src_out_video: Some(range.1),
        src_in_audio: None,
        src_out_audio: None,
        timeline_start: (id as i64) * 100,
        timeline_duration: 100,
    }
}

fn av_segment(id: u64, asset_id: u64, video: (i64, i64), audio: (i64, i64)) -> Segment {
    Segment {
        src_in_audio: Some(audio.0),
        src_out_audio: Some(audio.1),
        ..video_segment(id, asset_id, video)
    }
}

fn project(assets: Vec<MediaAsset>, segments: Vec<Segment>) -> Project {
    Project {
        assets,
        timeline: Timeline { segments },
        settings: ProjectSettings { export_settings: None },
    }
}

fn plan(project: &Project) -> Result<ExportVideoPlan, EngineError> {
    build_video_export_plan(project, String::from("out.mp4"))
}

fn video_entry(input_index: usize, range: (i64, i64)) -> ExportVideoSegment {
    ExportVideoSegment {
        input_index,
        src_in_video: range.0,
        src_out_video: range.1,
        src_video_time_base: tb(90_000),
        src_in_audio: None,
        src_out_audio: None,
        src_audio_time_base: None,
    }
}

#[test]
fn export_plan_lists_each_input_once_in_order_of_first_use() {
    let project = project(
        vec![video_asset(1, "b.mp4"), video_asset(2, "a.mp4"), video_asset(3, "b.mp4")],
        vec![
            video_segment(1, 2, (0, 10)),
            video_segment(2, 1, (10, 20)),
            video_segment(3, 2, (20, 30)),
            video_segment(4, 3, (30, 40)),
        ],
    );
    let plan = plan(&project).expect("plan");
    assert_eq!(plan.inputs, vec![String::from("a.mp4"), String::from("b.mp4")]);
    assert_eq!(
        plan.segments,
        vec![
            video_entry(0, (0, 10)),
            video_entry(1, (10, 20)),
            video_entry(0, (20, 30)),
            video_entry(1, (30, 40)),
        ]
    );
    assert_eq!(plan.audio, None);
    assert_eq!(plan.output_path, "out.mp4");
}

#[test]
fn export_plan_of_an_empty_timeline_is_empty() {
    let plan = plan(&project(vec![video_asset(1, "a.mp4")], vec![])).expect("plan");
    assert!(plan.inputs.is_empty());
    assert!(plan.segments.is_empty());
    assert_eq!(plan.audio, None);
}

#[test]
fn export_plan_leaves_out_segments_with_an_empty_video_range() {
    let project = project(
        vec![video_asset(1, "a.mp4"), video_asset(2, "b.mp4")],
        vec![
            video_segment(1, 2, (5, 5)),
            video_segment(2, 1, (10, 20)),
            video_segment(3, 1, (20, 20)),
        ],
    );
    let plan = plan(&project).expect("plan");
    // The asset of a segment that is left out is no input.
    assert_eq!(plan.inputs, vec![String::from("a.mp4")]);
    assert_eq!(plan.segments, vec![video_entry(0, (10, 20))]);
}

#[test]
fn export_plan_extends_an_empty_audio_range_by_one_tick() {
    let project = project(
        vec![av_asset(1, "a.mp4", 48_000, 2)],
        vec![
            av_segment(1, 1, (0, 10), (300, 300)),
            av_segment(2, 1, (10, 20), (300, 400)),
            av_segment(3, 1, (20, 30), (i64::MAX, i64::MAX)),
        ],
    );
    let plan = plan(&project).expect("plan");
    assert_eq!(plan.audio, Some(ExportAudioSettings { sample_rate: 48_000, channels: 2 }));
    let audio: Vec<(Option<i64>, Option<i64>)> =
        plan.segments.iter().map(|s| (s.src_in_audio, s.src_out_audio)).collect();
    assert_eq!(
        audio,
        vec![
            (Some(300), Some(301)),
            (Some(300), Some(400)),
            (Some(i64::MAX), Some(i64::MAX)),
        ]
    );
    assert!(plan.segments.iter().all(|s| s.src_audio_time_base == Some(tb(48_000))));
}

#[test]
fn export_plan_takes_audio_settings_from_the_first_asset_with_audio() {
    let project = project(
        vec![av_asset(1, "a.mp4", 44_100, 1), av_asset(2, "b.mp4", 48_000, 6)],
        vec![av_segment(1, 2, (0, 10), (0, 5)), av_segment(2, 1, (0, 10), (0, 5))],
    );
    let plan = plan(&project).expect("plan");
    assert_eq!(plan.audio, Some(ExportAudioSettings { sample_rate: 48_000, channels: 6 }));
    assert_eq!(plan.segments[0].src_audio_time_base, Some(tb(48_000)));
    assert_eq!(plan.segments[1].src_audio_time_base, Some(tb(44_100)));
}

#[test]
fn export_plan_ignores_audio_of_segments_that_are_left_out() {
    // The only asset with audio belongs to a segment with an empty video
    // range, so the export has no audio at all.
    let project = project(
        vec![av_asset(1, "a.mp4", 48_000, 2), video_asset(2, "b.mp4")],
        vec![av_segment(1, 1, (7, 7), (0, 5)), video_segment(2, 2, (0, 10))],
    );
    let plan = plan(&project).expect("plan");
    assert_eq!(plan.audio, None);
    assert_eq!(plan.segments, vec![video_entry(0, (0, 10))]);
}

#[test]
fn export_plan_reports_video_errors_in_timeline_order() {
    let assets = vec![video_asset(1, "a.mp4"), MediaAsset { video: None, ..video_asset(2, "b.wav") }];

    let result = plan(&project(assets.clone(), vec![video_segment(1, 9, (0, 10))]));
    assert!(matches!(result, Err(EngineError::MissingAsset { asset_id: 9 })));

    let result = plan(&project(assets.clone(), vec![video_segment(1, 2, (0, 10))]));
    assert!(matches!(result, Err(EngineError::MissingVideoStream { asset_id: 2 })));

    let mut no_in = video_segment(4, 1, (0, 10));
    no_in.src_in_video = None;
    let result = plan(&project(assets.clone(), vec![no_in]));
    assert!(matches!(result, Err(EngineError::MissingVideoRange { segment_id: 4 })));

    let mut no_out = video_segment(5, 1, (0, 10));
    no_out.src_out_video = None;
    let result = plan(&project(assets.clone(), vec![no_out]));
    assert!(matches!(result, Err(EngineError::MissingVideoRange { segment_id: 5 })));

    let result = plan(&project(assets.clone(), vec![video_segment(6, 1, (10, 9))]));
    assert!(matches!(
        result,
        Err(EngineError::InvalidVideoRange { segment_id: 6, src_in_video: 10, src_out_video: 9 })
    ));

    // The first segment at fault decides, also behind good and empty ones.
    let result = plan(&project(
        assets,
        vec![
            video_segment(1, 1, (0, 10)),
            video_segment(2, 1, (3, 3)),
            video_segment(3, 1, (10, 9)),
            video_segment(4, 9, (0, 10)),
        ],
    ));
    assert!(matches!(result, Err(EngineError::InvalidVideoRange { segment_id: 3, .. })));
}

#[test]
fn export_plan_reports_audio_errors_after_all_video_checks() {
    let assets = vec![av_asset(1, "a.mp4", 48_000, 2), video_asset(2, "b.mp4")];

    let result = plan(&project(
        assets.clone(),
        vec![video_segment(1, 2, (0, 10)), av_segment(2, 1, (0, 10), (0, 5))],
    ));
    assert!(matches!(result, Err(EngineError::MissingAudioStream { asset_id: 2 })));

    let mut no_in = av_segment(3, 1, (0, 10), (0, 5));
    no_in.src_in_audio = None;
    let result = plan(&project(assets.clone(), vec![no_in]));
    assert!(matches!(result, Err(EngineError::MissingAudioRange { segment_id: 3 })));

    let mut no_out = av_segment(4, 1, (0, 10), (0, 5));
    no_out.src_out_audio = None;
    let result = plan(&project(assets.clone(), vec![no_out]));
    assert!(matches!(result, Err(EngineError::MissingAudioRange { segment_id: 4 })));

    let result = plan(&project(assets.clone(), vec![av_segment(5, 1, (0, 10), (6, 5))]));
    assert!(matches!(
        result,
        Err(EngineError::InvalidAudioRange { segment_id: 5, src_in_audio: 6, src_out_audio: 5 })
    ));

    // A video fault of a later segment comes before an audio fault of an
    // earlier one.
    let result = plan(&project(
        assets,
        vec![av_segment(5, 1, (0, 10), (6, 5)), video_segment(6, 1, (10, 9))],
    ));
    assert!(matches!(result, Err(EngineError::InvalidVideoRange { segment_id: 6, .. })));
}
