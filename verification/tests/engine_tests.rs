use std::sync::{Arc, Mutex};

use engine::api::{
    frame_duration_tl_from_frame_rate, finish_export, prefetch_offsets,
    preview_bucket_tl_for_project, Command, Engine, Event, ExportSettings, ScrubDirection,
    DEFAULT_PREVIEW_CACHE_BUCKET_TL,
};
use engine::error::EngineError;
use engine::media::error::MediaFfmpegError;
use engine::export::ExportVideoPlan;
use engine::preview::{
    MediaBackend, PreviewFrame, PreviewPixelFormat, ProbedAudioStream, ProbedMedia,
    ProbedVideoStream,
};
use engine::project::{MediaAsset, Project, ProjectSettings, VideoStreamInfo};
use engine::time::Rational;
use engine::timeline::Timeline;

fn tb(num: i32, den: i32) -> Rational {
    Rational::new(num, den).expect("valid rational")
}

fn media(duration_tl: i64) -> ProbedMedia {
    ProbedMedia {
        path: String::from("demo.mp4"),
        duration_tl,
        video: Some(ProbedVideoStream {
            stream_index: 0,
            time_base: tb(1, 1_000_000),
            frame_rate: Some(tb(1_000, 1)),
            src_in: 0,
            src_out: duration_tl,
            width: 2,
            height: 1,
        }),
        audio: Some(ProbedAudioStream {
            stream_index: 1,
            time_base: tb(1, 48_000),
            src_in: 0,
            src_out: 48_000,
            sample_rate: 48_000,
            channels: 2,
        }),
    }
}

/// A backend that answers from a script and records what it was asked.
struct Scripted {
    probe: Mutex<Result<ProbedMedia, String>>,
    failing_decodes: Mutex<Vec<i64>>,
    fail_export: bool,
    decoded: Arc<Mutex<Vec<i64>>>,
}

impl Scripted {
    fn new(probe: ProbedMedia) -> Self {
        Scripted {
            probe: Mutex::new(Ok(probe)),
            failing_decodes: Mutex::new(Vec::new()),
            fail_export: false,
            decoded: Arc::new(Mutex::new(Vec::new())),
        }
    }
}

impl MediaBackend for Scripted {
    fn probe(&self, _path: &String) -> Result<ProbedMedia, EngineError> {
        match &*self.probe.lock().expect("lock probe") {
            Ok(probed) => Ok(probed.clone()),
            Err(text) => Err(EngineError::Media(MediaFfmpegError::Utf8(text.clone()))),
        }
    }

    fn decode_preview_frame(&self, _path: &String, source_tl: i64) -> Result<PreviewFrame, EngineError> {
        self.decoded.lock().expect("lock decoded").push(source_tl);
        if self.failing_decodes.lock().expect("lock failing").contains(&source_tl) {
            return Err(EngineError::Media(MediaFfmpegError::Utf8(String::from("no frame"))));
        }
        Ok(PreviewFrame {
            width: 2,
            height: 1,
            format: PreviewPixelFormat::Rgba8,
            bytes: Arc::from(vec![(source_tl % 251) as u8; 8]),
        })
    }

    fn export_video(&self, _plan: &ExportVideoPlan) -> Result<(), EngineError> {
        if self.fail_export {
            Err(EngineError::Media(MediaFfmpegError::Utf8(String::from("disk full"))))
        } else {
            Ok(())
        }
    }
}

fn import(engine: &mut Engine<Scripted>) -> Vec<Event> {
    engine
        .handle_command(Command::Import { path: String::from("demo.mp4") })
        .expect("import should succeed")
}

fn set_playhead(engine: &mut Engine<Scripted>, t_tl: i64) -> Vec<Event> {
    engine.handle_command(Command::SetPlayhead { t_tl }).expect("set playhead should succeed")
}

fn segment_ids(events: &[Event]) -> Vec<u64> {
    match &events[0] {
        Event::ProjectChanged(snapshot) => snapshot.segments.iter().map(|s| s.id).collect(),
        other => panic!("expected ProjectChanged, got {other:?}"),
    }
}

#[test]
fn commands_need_a_project() {
    let mut engine = Engine::new(Scripted::new(media(10_000)));
    let commands = vec![
        Command::SetPlayhead { t_tl: 0 },
        Command::Split { at_tl: 5 },
        Command::Cut { at_tl: 5 },
        Command::MoveSegment { segment_id: 1, new_start_tl: 0 },
        Command::TrimSegmentStart { segment_id: 1, new_start_tl: 0 },
        Command::TrimSegmentEnd { segment_id: 1, new_end_tl: 5 },
        Command::Export { path: String::from("out.mp4"), settings: ExportSettings::default() },
    ];
    for command in commands {
        assert!(matches!(engine.handle_command(command), Err(EngineError::ProjectNotLoaded)));
    }
    assert_eq!(engine.handle_command(Command::CancelExport).expect("no-op"), vec![]);
}

#[test]
fn a_failed_import_keeps_the_project_and_uses_no_id() {
    let backend = Scripted::new(media(10_000));
    let mut engine = Engine::new(backend);
    import(&mut engine);
    engine.handle_command(Command::Split { at_tl: 4_000 }).expect("split should succeed");

    // A probe result without a duration cannot become a project.
    let result = engine.apply_import(media(0));
    assert!(matches!(result, Err(EngineError::MissingDuration(path)) if path == "demo.mp4"));
    let mut broken = media(10_000);
    broken.video.as_mut().expect("video").time_base = Rational { num: 0, den: 1 };
    let result = engine.apply_import(broken);
    assert!(matches!(result, Err(EngineError::InvalidRational { num: 0, den: 1 })));

    // The old project is still there, and the next ids are the next ones.
    let events = engine.handle_command(Command::Split { at_tl: 2_000 }).expect("split");
    assert_eq!(segment_ids(&events), vec![1, 3, 2]);
    let events = import(&mut engine);
    assert_eq!(segment_ids(&events), vec![4]);
    match &events[0] {
        Event::ProjectChanged(snapshot) => assert_eq!(snapshot.assets[0].id, 2),
        other => panic!("expected ProjectChanged, got {other:?}"),
    }
}

#[test]
fn a_probe_failure_is_handed_on() {
    let backend = Scripted::new(media(10_000));
    *backend.probe.lock().expect("lock probe") = Err(String::from("unreadable"));
    let mut engine = Engine::new(backend);
    let result = engine.handle_command(Command::Import { path: String::from("x.mp4") });
    assert!(matches!(result, Err(EngineError::Media(MediaFfmpegError::Utf8(text))) if text == "unreadable"));
    assert!(matches!(
        engine.handle_command(Command::SetPlayhead { t_tl: 0 }),
        Err(EngineError::ProjectNotLoaded)
    ));
}

#[test]
fn a_hit_while_scrubbing_forward_warms_the_next_bucket() {
    let backend = Scripted::new(media(100_000));
    let decoded = Arc::clone(&backend.decoded);
    let mut engine = Engine::new(backend);
    import(&mut engine);

    // Buckets are 1_000 ticks wide: 1_000 frames per second.
    set_playhead(&mut engine, 5_000);
    set_playhead(&mut engine, 6_000);
    assert_eq!(*decoded.lock().expect("lock"), vec![5_000, 6_000]);

    // Still forward, and in the bucket that was just decoded.
    let events = set_playhead(&mut engine, 6_500);
    assert_eq!(events.len(), 2);
    assert_eq!(events[0], Event::PlayheadChanged { t_tl: 6_500 });
    assert_eq!(*decoded.lock().expect("lock"), vec![5_000, 6_000, 7_500]);

    // Forward again onto the warmed bucket: the one after it is next.
    set_playhead(&mut engine, 7_000);
    assert_eq!(*decoded.lock().expect("lock"), vec![5_000, 6_000, 7_500, 8_000]);
}

#[test]
fn a_hit_while_scrubbing_backward_warms_the_bucket_before() {
    let backend = Scripted::new(media(100_000));
    let decoded = Arc::clone(&backend.decoded);
    let mut engine = Engine::new(backend);
    import(&mut engine);

    set_playhead(&mut engine, 9_000);
    set_playhead(&mut engine, 8_000);
    set_playhead(&mut engine, 7_999);
    assert_eq!(*decoded.lock().expect("lock"), vec![9_000, 8_000, 7_999]);
    // Backward within bucket 7: bucket 6 is warmed.
    set_playhead(&mut engine, 7_200);
    assert_eq!(*decoded.lock().expect("lock"), vec![9_000, 8_000, 7_999, 6_200]);
}

#[test]
fn a_resting_playhead_warms_both_sides_skipping_what_is_cached_or_before_zero() {
    let backend = Scripted::new(media(100_000));
    let decoded = Arc::clone(&backend.decoded);
    let mut engine = Engine::new(backend);
    import(&mut engine);

    set_playhead(&mut engine, 500);
    // Resting on bucket 0: the bucket after it comes first, the one before
    // would be before zero, then two after, and so on.
    set_playhead(&mut engine, 500);
    set_playhead(&mut engine, 500);
    set_playhead(&mut engine, 500);
    assert_eq!(*decoded.lock().expect("lock"), vec![500, 1_500, 2_500, 3_500]);
}

#[test]
fn a_failed_prefetch_tries_the_next_offset() {
    let backend = Scripted::new(media(100_000));
    let decoded = Arc::clone(&backend.decoded);
    backend.failing_decodes.lock().expect("lock").extend([6_500, 4_500]);
    let mut engine = Engine::new(backend);
    import(&mut engine);

    set_playhead(&mut engine, 5_500);
    let events = set_playhead(&mut engine, 5_500);
    assert_eq!(events.len(), 2);
    assert_eq!(*decoded.lock().expect("lock"), vec![5_500, 6_500, 4_500, 7_500]);
}

#[test]
fn a_failed_decode_is_handed_on_and_leaves_the_playhead_moved() {
    let backend = Scripted::new(media(100_000));
    backend.failing_decodes.lock().expect("lock").push(5_000);
    let decoded = Arc::clone(&backend.decoded);
    let mut engine = Engine::new(backend);
    import(&mut engine);

    let result = engine.handle_command(Command::SetPlayhead { t_tl: 5_000 });
    assert!(matches!(result, Err(EngineError::Media(MediaFfmpegError::Utf8(text))) if text == "no frame"));
    // Nothing was cached: the same position is decoded again.
    let result = engine.handle_command(Command::SetPlayhead { t_tl: 5_000 });
    assert!(result.is_err());
    assert_eq!(*decoded.lock().expect("lock"), vec![5_000, 5_000]);
}

#[test]
fn the_playhead_is_kept_on_the_timeline() {
    let backend = Scripted::new(media(100_000));
    let mut engine = Engine::new(backend);
    import(&mut engine);
    assert_eq!(set_playhead(&mut engine, -5)[0], Event::PlayheadChanged { t_tl: 0 });
    assert_eq!(set_playhead(&mut engine, 100_000)[0], Event::PlayheadChanged { t_tl: 99_999 });
    assert_eq!(set_playhead(&mut engine, i64::MAX)[0], Event::PlayheadChanged { t_tl: 99_999 });
}

#[test]
fn a_playhead_in_a_gap_is_reported_without_a_frame() {
    let backend = Scripted::new(media(100_000));
    let decoded = Arc::clone(&backend.decoded);
    let mut engine = Engine::new(backend);
    import(&mut engine);
    engine.handle_command(Command::Split { at_tl: 40_000 }).expect("split");
    engine
        .handle_command(Command::MoveSegment { segment_id: 2, new_start_tl: 50_000 })
        .expect("move");

    let events = set_playhead(&mut engine, 45_000);
    assert_eq!(events, vec![Event::PlayheadChanged { t_tl: 45_000 }]);
    assert!(decoded.lock().expect("lock").is_empty());
}

#[test]
fn an_edit_brings_the_playhead_back_onto_the_timeline() {
    let backend = Scripted::new(media(100_000));
    let decoded = Arc::clone(&backend.decoded);
    let mut engine = Engine::new(backend);
    import(&mut engine);
    engine.handle_command(Command::Split { at_tl: 40_000 }).expect("split");
    set_playhead(&mut engine, 90_000);
    engine.handle_command(Command::Cut { at_tl: 40_000 }).expect("cut");

    // The timeline now ends at 40_000; the playhead rests on its last tick.
    // Asking for the same tick again is a move by nothing on a cold cache.
    let events = set_playhead(&mut engine, 39_999);
    assert_eq!(events[0], Event::PlayheadChanged { t_tl: 39_999 });
    assert_eq!(*decoded.lock().expect("lock"), vec![90_000, 39_999]);
}

#[test]
fn export_reports_all_segments_or_the_error_of_the_backend() {
    let mut engine = Engine::new(Scripted::new(media(100_000)));
    import(&mut engine);
    engine.handle_command(Command::Split { at_tl: 40_000 }).expect("split");
    let events = engine
        .handle_command(Command::Export {
            path: String::from("out.mp4"),
            settings: ExportSettings::default(),
        })
        .expect("export should succeed");
    assert_eq!(
        events,
        vec![
            Event::ExportProgress { done: 2, total: 2 },
            Event::ExportFinished { path: String::from("out.mp4") },
        ]
    );

    let mut failing = Scripted::new(media(100_000));
    failing.fail_export = true;
    let mut engine = Engine::new(failing);
    import(&mut engine);
    let result = engine.handle_command(Command::Export {
        path: String::from("out.mp4"),
        settings: ExportSettings::default(),
    });
    assert!(matches!(result, Err(EngineError::Media(MediaFfmpegError::Utf8(text))) if text == "disk full"));

    let events = finish_export(String::from("o.mp4"), 3, Ok(())).expect("events");
    assert_eq!(events[0], Event::ExportProgress { done: 3, total: 3 });
    assert!(matches!(
        finish_export(String::from("o.mp4"), 3, Err(EngineError::ProjectNotLoaded)),
        Err(EngineError::ProjectNotLoaded)
    ));
}

#[test]
fn an_export_without_a_plan_does_not_reach_the_backend() {
    let mut probe = media(100_000);
    probe.video = None;
    let mut engine = Engine::new(Scripted::new(probe));
    import(&mut engine);
    let result = engine.handle_command(Command::Export {
        path: String::from("out.mp4"),
        settings: ExportSettings::default(),
    });
    assert!(matches!(result, Err(EngineError::MissingVideoStream { asset_id: 1 })));
}

#[test]
fn edits_report_unknown_segments() {
    let mut engine = Engine::new(Scripted::new(media(100_000)));
    import(&mut engine);
    assert!(matches!(
        engine.handle_command(Command::MoveSegment { segment_id: 5, new_start_tl: 0 }),
        Err(EngineError::SegmentIdNotFound { segment_id: 5 })
    ));
    assert!(matches!(
        engine.handle_command(Command::TrimSegmentStart { segment_id: 5, new_start_tl: 0 }),
        Err(EngineError::SegmentIdNotFound { segment_id: 5 })
    ));
    assert!(matches!(
        engine.handle_command(Command::TrimSegmentEnd { segment_id: 5, new_end_tl: 0 }),
        Err(EngineError::SegmentIdNotFound { segment_id: 5 })
    ));
    assert!(matches!(
        engine.handle_command(Command::Cut { at_tl: 100_000 }),
        Err(EngineError::SegmentNotFound { at_tl: 100_000 })
    ));
    assert!(matches!(
        engine.handle_command(Command::Split { at_tl: 100_001 }),
        Err(EngineError::SegmentNotFound { at_tl: 100_001 })
    ));
}

#[test]
fn prefetch_offsets_follow_the_direction() {
    assert_eq!(prefetch_offsets(ScrubDirection::Forward), (1..=18).collect::<Vec<i64>>());
    assert_eq!(
        prefetch_offsets(ScrubDirection::Backward),
        (1..=18).map(|offset| -offset).collect::<Vec<i64>>()
    );
    let idle = prefetch_offsets(ScrubDirection::Unknown);
    assert_eq!(idle.len(), 240);
    assert_eq!(idle[..6], [1, -1, 2, -2, 3, -3]);
    assert_eq!(idle[238..], [120, -120]);
}

#[test]
fn frame_duration_is_rounded_to_the_nearest_tick() {
    assert_eq!(frame_duration_tl_from_frame_rate(tb(30_000, 1_001)), 33_367);
    assert_eq!(frame_duration_tl_from_frame_rate(tb(25, 1)), 40_000);
    assert_eq!(frame_duration_tl_from_frame_rate(tb(24_000, 1_001)), 41_708);
    assert_eq!(frame_duration_tl_from_frame_rate(tb(3, 1)), 333_333);
    assert_eq!(frame_duration_tl_from_frame_rate(tb(i32::MAX, 1)), 1);
    assert_eq!(frame_duration_tl_from_frame_rate(tb(1, i32::MAX)), 2_147_483_647_000_000);
    assert_eq!(frame_duration_tl_from_frame_rate(Rational { num: 0, den: 7 }), 7_000_000);
    assert_eq!(frame_duration_tl_from_frame_rate(Rational { num: -4, den: 7 }), 7_000_000);
    assert_eq!(frame_duration_tl_from_frame_rate(Rational { num: 25, den: 0 }), 1);
    assert_eq!(frame_duration_tl_from_frame_rate(Rational { num: 25, den: -1 }), 1);
}

fn video_only(id: u64, time_base: Rational, frame_rate: Option<Rational>) -> MediaAsset {
    MediaAsset {
        id,
        path: String::from("v.mp4"),
        video_stream_index: Some(0),
        audio_stream_index: None,
        video: Some(VideoStreamInfo { time_base, frame_rate, width: 2, height: 2 }),
        audio: None,
        duration_tl: 10,
    }
}

fn bucket_of(assets: Vec<MediaAsset>) -> i64 {
    preview_bucket_tl_for_project(&Project {
        assets,
        timeline: Timeline { segments: vec![] },
        settings: ProjectSettings { export_settings: None },
    })
}

#[test]
fn the_preview_bucket_is_the_shortest_frame_of_the_project() {
    assert_eq!(bucket_of(vec![]), DEFAULT_PREVIEW_CACHE_BUCKET_TL);
    assert_eq!(DEFAULT_PREVIEW_CACHE_BUCKET_TL, 33_333);
    let silent = MediaAsset { video: None, ..video_only(1, tb(1, 90_000), None) };
    assert_eq!(bucket_of(vec![silent.clone()]), 33_333);
    assert_eq!(bucket_of(vec![video_only(1, tb(1, 90_000), Some(tb(25, 1)))]), 40_000);
    // Without a frame rate one tick of the video clock counts, at least one
    // timeline tick.
    assert_eq!(bucket_of(vec![video_only(1, tb(1, 90_000), None)]), 11);
    assert_eq!(bucket_of(vec![video_only(1, tb(1, 2_000_000_000), None)]), 1);
    assert_eq!(bucket_of(vec![video_only(1, tb(1, 25), None)]), 40_000);
    assert_eq!(
        bucket_of(vec![
            video_only(1, tb(1, 90_000), Some(tb(25, 1))),
            silent,
            video_only(2, tb(1, 90_000), Some(tb(60, 1))),
            video_only(3, tb(1, 90_000), Some(tb(30, 1))),
        ]),
        16_667
    );
}
