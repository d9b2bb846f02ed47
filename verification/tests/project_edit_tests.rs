use engine::api::{MediaAssetSummary, SegmentSummary};
use engine::error::EngineError;
use engine::preview::{ProbedAudioStream, ProbedMedia, ProbedVideoStream};
use engine::project::{
    ensure_non_empty_duration, normalize_playhead, shift_stream_point, AudioStreamInfo, MediaAsset,
    Project, ProjectSettings, VideoStreamInfo,
};
use engine::time::Rational;
use engine::timeline::{Segment, Timeline};

fn tb(den: i32) -> Rational {
    Rational::new(1, den).expect("valid rational")
}

fn av_asset(id: u64, path: &str) -> MediaAsset {
    MediaAsset {
        id,
        path: String::from(path),
        video_stream_index: Some(0),
        audio_stream_index: Some(1),
        video: Some(VideoStreamInfo { time_base: tb(90_000), frame_rate: None, width: 16, height: 9 }),
        audio: Some(AudioStreamInfo { time_base: tb(48_000), sample_rate: 48_000, channels: 2 }),
        duration_tl: 1_200_000,
    }
}

fn av_segment(id: u64, start: i64, duration: i64) -> Segment {
    Segment {
        id,
        asset_id: 1,
        src_in_video: Some(90_000),
        src_out_video: Some(198_000),
        src_in_audio: Some(48_000),
        src_out_audio: Some(105_600),
        timeline_start: start,
        timeline_duration: duration,
    }
}

fn project_with(segments: Vec<Segment>) -> Project {
    Project {
        assets: vec![av_asset(1, "assets/demo.mp4")],
        timeline: Timeline { segments },
        settings: ProjectSettings { export_settings: None },
    }
}

#[test]
fn move_segment_stays_between_its_neighbours() {
    let original = project_with(vec![
        av_segment(1, 0, 100),
        av_segment(2, 200, 100),
        av_segment(3, 500, 100),
    ]);
    for (wanted, expected) in [
        (450, 400),
        (400, 400),
        (399, 399),
        (10, 100),
        (100, 100),
        (-50, 100),
        (i64::MIN, 100),
        (i64::MAX, 400),
    ] {
        let mut project = original.clone();
        project.move_segment(2, wanted).expect("move should succeed");
        let moved = project.timeline.segments[1];
        assert_eq!(moved.timeline_start, expected, "asked for {wanted}");
        assert_eq!(moved, Segment { timeline_start: expected, ..original.timeline.segments[1] });
        assert_eq!(project.timeline.segments[0], original.timeline.segments[0]);
        assert_eq!(project.timeline.segments[2], original.timeline.segments[2]);
    }
}

#[test]
fn move_segment_reports_an_unknown_id() {
    let original = project_with(vec![av_segment(1, 0, 100)]);
    let mut project = original.clone();
    let result = project.move_segment(9, 50);
    assert!(matches!(result, Err(EngineError::SegmentIdNotFound { segment_id: 9 })));
    assert_eq!(project, original);
}

#[test]
fn move_first_segment_may_start_at_zero() {
    let mut project = project_with(vec![av_segment(1, 40, 100), av_segment(2, 200, 100)]);
    project.move_segment(1, -1).expect("move should succeed");
    assert_eq!(project.timeline.segments[0].timeline_start, 0);
    project.move_segment(1, 150).expect("move should succeed");
    assert_eq!(project.timeline.segments[0].timeline_start, 100);
}

#[test]
fn trim_segment_end_moves_the_out_bounds() {
    let mut project = project_with(vec![av_segment(1, 0, 1_200_000)]);
    project.trim_segment_end(1, 600_000).expect("trim end should succeed");
    let trimmed = project.timeline.segments[0];
    assert_eq!(trimmed.timeline_start, 0);
    assert_eq!(trimmed.timeline_duration, 600_000);
    assert_eq!(trimmed.src_in_video, Some(90_000));
    assert_eq!(trimmed.src_out_video, Some(144_000));
    assert_eq!(trimmed.src_in_audio, Some(48_000));
    assert_eq!(trimmed.src_out_audio, Some(76_800));
}

#[test]
fn trim_keeps_at_least_one_tick() {
    let mut project = project_with(vec![av_segment(1, 0, 1_200_000)]);
    project.trim_segment_end(1, -5).expect("trim end should succeed");
    let trimmed = project.timeline.segments[0];
    assert_eq!(trimmed.timeline_start, 0);
    assert_eq!(trimmed.timeline_duration, 1);
    assert_eq!(trimmed.src_out_video, Some(90_000));
    assert_eq!(trimmed.src_out_audio, Some(48_000));

    let mut project = project_with(vec![av_segment(1, 0, 1_200_000)]);
    project.trim_segment_start(1, 5_000_000).expect("trim start should succeed");
    let trimmed = project.timeline.segments[0];
    assert_eq!(trimmed.timeline_start, 1_199_999);
    assert_eq!(trimmed.timeline_duration, 1);
    assert_eq!(trimmed.src_in_video, Some(198_000));
    assert_eq!(trimmed.src_in_audio, Some(105_600));
    assert_eq!(trimmed.src_out_video, Some(198_000));
}

#[test]
fn trim_does_not_cross_the_adjacent_segment() {
    let original = project_with(vec![av_segment(1, 0, 100), av_segment(2, 200, 100)]);

    let mut project = original.clone();
    project.trim_segment_start(2, 50).expect("trim start should succeed");
    assert_eq!(project.timeline.segments[1].timeline_start, 100);
    assert_eq!(project.timeline.segments[1].timeline_duration, 200);
    assert_eq!(project.timeline.segments[0], original.timeline.segments[0]);

    let mut project = original.clone();
    project.trim_segment_end(1, 1_000).expect("trim end should succeed");
    assert_eq!(project.timeline.segments[0].timeline_start, 0);
    assert_eq!(project.timeline.segments[0].timeline_duration, 200);
    assert_eq!(project.timeline.segments[1], original.timeline.segments[1]);

    let mut project = original.clone();
    project.trim_segment_end(2, i64::MAX).expect("trim end should succeed");
    assert_eq!(project.timeline.segments[1].timeline_duration, i64::MAX - 200);
    assert_eq!(project.timeline.duration_tl(), i64::MAX);
}

#[test]
fn trim_reports_unknown_segment_and_unknown_asset() {
    let mut original = project_with(vec![av_segment(1, 0, 100)]);
    original.timeline.segments[0].asset_id = 77;

    let mut project = original.clone();
    assert!(matches!(
        project.trim_segment_start(5, 10),
        Err(EngineError::SegmentIdNotFound { segment_id: 5 })
    ));
    assert!(matches!(
        project.trim_segment_end(5, 10),
        Err(EngineError::SegmentIdNotFound { segment_id: 5 })
    ));
    assert!(matches!(
        project.trim_segment_start(1, 10),
        Err(EngineError::MissingAsset { asset_id: 77 })
    ));
    assert!(matches!(
        project.trim_segment_end(1, 10),
        Err(EngineError::MissingAsset { asset_id: 77 })
    ));
    assert_eq!(project, original);
}

#[test]
fn shift_stream_point_holds_at_zero_and_at_the_top() {
    assert_eq!(shift_stream_point(Some(5), -100, Some(tb(90_000))), Some(0));
    assert_eq!(shift_stream_point(Some(5), 100, Some(tb(90_000))), Some(14));
    assert_eq!(shift_stream_point(Some(i64::MAX), 100, Some(tb(90_000))), Some(i64::MAX));
    assert_eq!(shift_stream_point(Some(-7), 0, Some(tb(90_000))), Some(0));
    assert_eq!(shift_stream_point(Some(-7), 100, None), Some(-7));
    assert_eq!(shift_stream_point(None, 100, Some(tb(90_000))), None);
}

#[test]
fn project_split_reports_boundary_before_anything_else() {
    let mut original = project_with(vec![av_segment(1, 0, 100), av_segment(2, 100, 100)]);
    original.timeline.segments[1].asset_id = 77;

    let mut project = original.clone();
    assert!(matches!(
        project.split(100, 9),
        Err(EngineError::SplitPointAtBoundary { at_tl: 100 })
    ));
    assert!(matches!(
        project.split(200, 9),
        Err(EngineError::SplitPointAtBoundary { at_tl: 200 })
    ));
    assert!(matches!(project.split(201, 9), Err(EngineError::SegmentNotFound { at_tl: 201 })));
    assert!(matches!(project.split(150, 9), Err(EngineError::MissingAsset { asset_id: 77 })));
    assert_eq!(project, original);
}

#[test]
fn project_split_uses_the_clocks_of_the_asset() {
    let mut project = project_with(vec![av_segment(1, 0, 1_200_000)]);
    project.split(333_333, 2).expect("split should succeed");
    assert_eq!(
        project.timeline.segments,
        vec![
            Segment {
                timeline_duration: 333_333,
                src_out_video: Some(120_000),
                src_out_audio: Some(64_000),
                ..av_segment(1, 0, 0)
            },
            Segment {
                id: 2,
                timeline_start: 333_333,
                timeline_duration: 866_667,
                src_in_video: Some(120_000),
                src_in_audio: Some(64_000),
                ..av_segment(1, 0, 0)
            },
        ]
    );
    assert_eq!(project.duration_tl(), 1_200_000);
}

#[test]
fn project_cut_removes_and_closes_up() {
    let mut project = project_with(vec![
        av_segment(1, 0, 100),
        av_segment(2, 100, 100),
        av_segment(3, 300, 100),
    ]);
    project.cut(150).expect("cut should succeed");
    assert_eq!(project.timeline.segments, vec![av_segment(1, 0, 100), av_segment(3, 200, 100)]);
    assert!(matches!(project.cut(150), Err(EngineError::SegmentNotFound { at_tl: 150 })));
}

#[test]
fn preview_request_maps_the_tick_onto_the_source_clock() {
    let project = project_with(vec![av_segment(1, 0, 1_200_000)]);
    let request = project.preview_request_at(500_000).expect("request");
    assert_eq!(request.path, "assets/demo.mp4");
    assert_eq!(request.source_tl, 1_500_000);

    // Ticks that fall on one tick of the video clock ask for the same frame.
    let first = project.preview_request_at(533_328).expect("request").source_tl;
    for t_tl in 533_329..=533_338 {
        assert_eq!(project.preview_request_at(t_tl).expect("request").source_tl, first);
    }
    assert_eq!(first, 1_533_333);
}

#[test]
fn preview_request_never_asks_for_a_time_before_zero() {
    let mut project = project_with(vec![av_segment(1, 0, 1_200_000)]);
    project.timeline.segments[0].src_in_video = Some(-9_000);
    assert_eq!(project.preview_request_at(0).expect("request").source_tl, 0);
    assert_eq!(project.preview_request_at(100_000).expect("request").source_tl, 0);
    assert_eq!(project.preview_request_at(200_000).expect("request").source_tl, 100_000);
}

#[test]
fn preview_request_reports_gap_missing_asset_and_missing_video() {
    let mut project = project_with(vec![av_segment(1, 0, 100), av_segment(2, 200, 100)]);
    assert!(matches!(
        project.preview_request_at(150),
        Err(EngineError::SegmentNotFound { at_tl: 150 })
    ));
    project.timeline.segments[1].src_in_video = None;
    assert!(matches!(
        project.preview_request_at(250),
        Err(EngineError::MissingVideoStream { asset_id: 1 })
    ));
    project.assets[0].video = None;
    assert!(matches!(
        project.preview_request_at(50),
        Err(EngineError::MissingVideoStream { asset_id: 1 })
    ));
    project.timeline.segments[0].asset_id = 4;
    assert!(matches!(
        project.preview_request_at(50),
        Err(EngineError::MissingAsset { asset_id: 4 })
    ));
}

fn probed(duration_tl: i64) -> ProbedMedia {
    ProbedMedia {
        path: String::from("clip.mov"),
        duration_tl,
        video: Some(ProbedVideoStream {
            stream_index: 2,
            time_base: tb(90_000),
            frame_rate: Some(Rational::new(25, 1).expect("valid rational")),
            src_in: 10,
            src_out: 900,
            width: 640,
            height: 360,
        }),
        audio: Some(ProbedAudioStream {
            stream_index: 5,
            time_base: tb(44_100),
            src_in: 20,
            src_out: 800,
            sample_rate: 44_100,
            channels: 1,
        }),
    }
}

#[test]
fn from_single_asset_builds_one_segment_over_the_whole_duration() {
    let project = Project::from_single_asset(7, 11, probed(10_000)).expect("project");
    assert_eq!(
        project.assets,
        vec![MediaAsset {
            id: 7,
            path: String::from("clip.mov"),
            video_stream_index: Some(2),
            audio_stream_index: Some(5),
            video: Some(VideoStreamInfo {
                time_base: tb(90_000),
                frame_rate: Some(Rational::new(25, 1).expect("valid rational")),
                width: 640,
                height: 360,
            }),
            audio: Some(AudioStreamInfo { time_base: tb(44_100), sample_rate: 44_100, channels: 1 }),
            duration_tl: 10_000,
        }]
    );
    assert_eq!(
        project.timeline.segments,
        vec![Segment {
            id: 11,
            asset_id: 7,
            src_in_video: Some(10),
            src_out_video: Some(900),
            src_in_audio: Some(20),
            src_out_audio: Some(800),
            timeline_start: 0,
            timeline_duration: 10_000,
        }]
    );
    assert_eq!(project.settings, ProjectSettings { export_settings: None });
}

#[test]
fn from_single_asset_leaves_ranges_unset_for_missing_streams() {
    let mut silent = probed(10_000);
    silent.audio = None;
    let project = Project::from_single_asset(1, 1, silent).expect("project");
    assert_eq!(project.assets[0].audio, None);
    assert_eq!(project.assets[0].audio_stream_index, None);
    assert_eq!(project.timeline.segments[0].src_in_audio, None);
    assert_eq!(project.timeline.segments[0].src_out_audio, None);
    assert_eq!(project.timeline.segments[0].src_in_video, Some(10));

    let mut blind = probed(10_000);
    blind.video = None;
    let project = Project::from_single_asset(1, 1, blind).expect("project");
    assert_eq!(project.assets[0].video, None);
    assert_eq!(project.timeline.segments[0].src_in_video, None);
    assert_eq!(project.timeline.segments[0].src_out_video, None);
    assert_eq!(project.timeline.segments[0].src_out_audio, Some(800));
}

#[test]
fn from_single_asset_refuses_what_no_project_can_hold() {
    for duration_tl in [0, -1, i64::MIN] {
        let result = Project::from_single_asset(1, 1, probed(duration_tl));
        assert!(matches!(result, Err(EngineError::MissingDuration(path)) if path == "clip.mov"));
    }
    let mut bad_video = probed(5);
    bad_video.video.as_mut().expect("video").time_base = Rational { num: 1, den: 0 };
    bad_video.audio.as_mut().expect("audio").time_base = Rational { num: -1, den: 3 };
    assert!(matches!(
        Project::from_single_asset(1, 1, bad_video),
        Err(EngineError::InvalidRational { num: 1, den: 0 })
    ));
    let mut bad_audio = probed(5);
    bad_audio.audio.as_mut().expect("audio").time_base = Rational { num: -1, den: 3 };
    assert!(matches!(
        Project::from_single_asset(1, 1, bad_audio),
        Err(EngineError::InvalidRational { num: -1, den: 3 })
    ));
}

#[test]
fn snapshot_lists_assets_and_segments_in_order() {
    let mut project = project_with(vec![av_segment(1, 0, 100), av_segment(2, 150, 100)]);
    project.assets.push(MediaAsset { video: None, ..av_asset(2, "b.wav") });
    let snapshot = project.snapshot(4_000);
    assert_eq!(
        snapshot.assets,
        vec![
            MediaAssetSummary {
                id: 1,
                path: String::from("assets/demo.mp4"),
                has_video: true,
                has_audio: true,
                duration_tl: 1_200_000,
            },
            MediaAssetSummary {
                id: 2,
                path: String::from("b.wav"),
                has_video: false,
                has_audio: true,
                duration_tl: 1_200_000,
            },
        ]
    );
    assert_eq!(
        snapshot.segments,
        vec![
            SegmentSummary {
                id: 1,
                asset_id: 1,
                timeline_start: 0,
                timeline_duration: 100,
                src_in_video: Some(90_000),
                src_out_video: Some(198_000),
                src_in_audio: Some(48_000),
                src_out_audio: Some(105_600),
            },
            SegmentSummary {
                id: 2,
                asset_id: 1,
                timeline_start: 150,
                timeline_duration: 100,
                src_in_video: Some(90_000),
                src_out_video: Some(198_000),
                src_in_audio: Some(48_000),
                src_out_audio: Some(105_600),
            },
        ]
    );
    assert_eq!(snapshot.duration_tl, 250);
    assert_eq!(snapshot.preview_bucket_tl, 4_000);
}

#[test]
fn asset_lookup_takes_the_first_asset_with_the_id() {
    let mut project = project_with(vec![]);
    project.assets.push(av_asset(1, "second.mp4"));
    assert_eq!(project.asset_by_id(1).expect("asset").path, "assets/demo.mp4");
    assert_eq!(project.find_asset_index(1), Some(0));
    assert_eq!(project.find_asset_index(2), None);
    assert!(matches!(project.asset_by_id(2), Err(EngineError::MissingAsset { asset_id: 2 })));
}

#[test]
fn normalize_playhead_clamps_into_the_timeline() {
    assert_eq!(normalize_playhead(-5, 100), 0);
    assert_eq!(normalize_playhead(0, 100), 0);
    assert_eq!(normalize_playhead(99, 100), 99);
    assert_eq!(normalize_playhead(100, 100), 99);
    assert_eq!(normalize_playhead(i64::MAX, i64::MAX), i64::MAX - 1);
    assert_eq!(normalize_playhead(7, -3), 0);
    assert_eq!(normalize_playhead(7, 1), 0);
}

#[test]
fn ensure_non_empty_duration_needs_a_duration_and_gives_at_least_one_tick() {
    let path = String::from("a.mp4");
    assert!(matches!(
        ensure_non_empty_duration(&path, None),
        Err(EngineError::MissingDuration(p)) if p == "a.mp4"
    ));
    assert_eq!(ensure_non_empty_duration(&path, Some(0)).expect("duration"), 1);
    assert_eq!(ensure_non_empty_duration(&path, Some(-9)).expect("duration"), 1);
    assert_eq!(ensure_non_empty_duration(&path, Some(1)).expect("duration"), 1);
    assert_eq!(ensure_non_empty_duration(&path, Some(77)).expect("duration"), 77);
}
