use engine::error::EngineError;
use engine::persistence::{
    validate_audio_segment_range, validate_segment_ranges, validate_video_segment_range,
    ProjectFile, ProjectFileIssue, PROJECT_FILE_SCHEMA_VERSION,
};
use engine::project::{
    AudioStreamInfo, MediaAsset, Project, ProjectExportSettings, ProjectSettings, VideoStreamInfo,
};
use engine::time::Rational;
use engine::timeline::{Segment, Timeline};

fn asset(id: u64) -> MediaAsset {
    MediaAsset {
        id,
        path: String::from("assets/demo.mp4"),
        video_stream_index: Some(3),
        audio_stream_index: Some(7),
        video: Some(VideoStreamInfo {
            time_base: Rational::new(1, 90_000).expect("valid rational"),
            frame_rate: None,
            width: 1920,
            height: 1080,
        }),
        audio: Some(AudioStreamInfo {
            time_base: Rational::new(1, 48_000).expect("valid rational"),
            sample_rate: 48_000,
            channels: 2,
        }),
        duration_tl: 1_200_000,
    }
}

fn segment(id: u64, start: i64, duration: i64) -> Segment {
    Segment {
        id,
        asset_id: 1,
        src_in_video: Some(90_000),
        src_out_video: Some(198_000),
        src_in_audio: Some(48_000),
        src_out_audio: Some(105_600),
        timeline_start: start,
        timeline_duration: duration,
    }
}

fn project(assets: Vec<MediaAsset>, segments: Vec<Segment>) -> Project {
    Project {
        assets,
        timeline: Timeline { segments },
        settings: ProjectSettings {
            export_settings: Some(ProjectExportSettings {
                container: String::from("mp4"),
                video_codec: String::from("h264"),
                audio_codec: String::from("aac"),
            }),
        },
    }
}

fn reason_of(project: &Project) -> String {
    match project.validate_for_persistence() {
        Err(EngineError::InvalidProjectFile { reason }) => reason,
        other => panic!("expected an invalid project file, got {other:?}"),
    }
}

#[test]
fn a_sound_project_may_be_persisted_and_comes_back_unchanged() {
    let original = project(vec![asset(1)], vec![segment(1, 0, 1_200_000)]);
    assert!(original.validate_for_persistence().is_ok());
    let file = original.to_project_file().expect("file");
    assert_eq!(file.schema_version, 1);
    assert_eq!(PROJECT_FILE_SCHEMA_VERSION, 1);
    assert_eq!(file.assets, original.assets);
    assert_eq!(file.segments, original.timeline.segments);
    assert_eq!(file.settings, original.settings);
    assert_eq!(Project::from_project_file(file).expect("project"), original);
}

#[test]
fn persistence_accepts_gaps_and_empty_source_ranges() {
    let mut gappy = project(vec![asset(1)], vec![segment(1, 0, 100), segment(2, 1_500, 200)]);
    gappy.timeline.segments[0].src_out_video = gappy.timeline.segments[0].src_in_video;
    gappy.timeline.segments[0].src_out_audio = gappy.timeline.segments[0].src_in_audio;
    assert!(gappy.validate_for_persistence().is_ok());
    // Touching segments are no overlap.
    let touching = project(vec![asset(1)], vec![segment(1, 0, 100), segment(2, 100, 200)]);
    assert!(touching.validate_for_persistence().is_ok());
    assert!(project(vec![], vec![]).validate_for_persistence().is_ok());
}

#[test]
fn persistence_names_the_fault_of_an_asset() {
    let good = vec![segment(1, 0, 100)];
    assert_eq!(
        reason_of(&project(vec![asset(1), asset(2), asset(1)], good.clone())),
        "duplicate asset id 1"
    );
    let no_index = MediaAsset { video_stream_index: None, ..asset(1) };
    assert_eq!(
        reason_of(&project(vec![no_index], good.clone())),
        "asset 1 is missing video stream index"
    );
    let no_video = MediaAsset { video: None, ..asset(1) };
    assert_eq!(
        reason_of(&project(vec![no_video], good.clone())),
        "asset 1 has video stream index without video stream"
    );
    let no_index = MediaAsset { audio_stream_index: None, ..asset(18_446_744_073_709_551_615) };
    assert_eq!(
        reason_of(&project(vec![no_index], good.clone())),
        "asset 18446744073709551615 is missing audio stream index"
    );
    let no_audio = MediaAsset { audio: None, ..asset(40) };
    assert_eq!(
        reason_of(&project(vec![no_audio], good)),
        "asset 40 has audio stream index without audio stream"
    );
}

#[test]
fn persistence_names_the_fault_of_a_segment() {
    let assets = vec![asset(1)];
    assert_eq!(
        reason_of(&project(assets.clone(), vec![segment(1, 0, 100), segment(1, 100, 1)])),
        "duplicate segment id 1"
    );
    assert_eq!(
        reason_of(&project(assets.clone(), vec![segment(2, -1, 100)])),
        "segment 2 starts at negative timeline -1"
    );
    assert_eq!(
        reason_of(&project(assets.clone(), vec![segment(2, i64::MIN, 100)])),
        "segment 2 starts at negative timeline -9223372036854775808"
    );
    assert_eq!(
        reason_of(&project(assets.clone(), vec![segment(3, 0, 0)])),
        "segment 3 has non-positive duration 0"
    );
    assert_eq!(
        reason_of(&project(assets.clone(), vec![segment(3, 0, -20)])),
        "segment 3 has non-positive duration -20"
    );
    assert_eq!(
        reason_of(&project(assets.clone(), vec![segment(4, 2, i64::MAX - 1)])),
        "segment 4 timeline range overflowed i64"
    );
    assert_eq!(
        reason_of(&project(assets.clone(), vec![segment(5, 0, 100), segment(6, 99, 10)])),
        "segment 6 overlaps previous segment at 99"
    );
    assert!(project(assets, vec![segment(4, 1, i64::MAX - 1)]).validate_for_persistence().is_ok());
}

#[test]
fn persistence_reports_asset_and_range_errors_as_they_are() {
    let assets = vec![asset(1), MediaAsset { video: None, video_stream_index: None, ..asset(2) }];

    let stray = Segment { asset_id: 9, ..segment(1, 0, 100) };
    assert!(matches!(
        project(assets.clone(), vec![stray]).validate_for_persistence(),
        Err(EngineError::MissingAsset { asset_id: 9 })
    ));
    let backward = Segment { src_out_video: Some(5), ..segment(3, 0, 100) };
    assert!(matches!(
        project(assets.clone(), vec![backward]).validate_for_persistence(),
        Err(EngineError::InvalidVideoRange {
            segment_id: 3,
            src_in_video: 90_000,
            src_out_video: 5
        })
    ));
    let half = Segment { src_out_video: None, ..segment(3, 0, 100) };
    assert!(matches!(
        project(assets.clone(), vec![half]).validate_for_persistence(),
        Err(EngineError::MissingVideoRange { segment_id: 3 })
    ));
    let ranged = Segment { asset_id: 2, ..segment(3, 0, 100) };
    assert!(matches!(
        project(assets.clone(), vec![ranged]).validate_for_persistence(),
        Err(EngineError::MissingVideoStream { asset_id: 2 })
    ));
    let backward = Segment { src_in_audio: Some(105_601), ..segment(3, 0, 100) };
    assert!(matches!(
        project(assets.clone(), vec![backward]).validate_for_persistence(),
        Err(EngineError::InvalidAudioRange {
            segment_id: 3,
            src_in_audio: 105_601,
            src_out_audio: 105_600
        })
    ));
    let half = Segment { src_in_audio: None, ..segment(3, 0, 100) };
    assert!(matches!(
        project(assets.clone(), vec![half]).validate_for_persistence(),
        Err(EngineError::MissingAudioRange { segment_id: 3 })
    ));
    let audio_only = Segment {
        asset_id: 2,
        src_in_video: None,
        src_out_video: None,
        ..segment(3, 0, 100)
    };
    assert!(project(assets, vec![audio_only]).validate_for_persistence().is_ok());
}

#[test]
fn persistence_checks_all_assets_before_any_segment() {
    let faulty = project(vec![asset(1), asset(1)], vec![segment(1, -5, 100)]);
    assert_eq!(reason_of(&faulty), "duplicate asset id 1");
    // Within a segment the repeated id comes before the negative start.
    let faulty = project(vec![asset(1)], vec![segment(1, 0, 100), segment(1, -5, 0)]);
    assert_eq!(reason_of(&faulty), "duplicate segment id 1");
    // An overlap is looked for last.
    let faulty = project(
        vec![asset(1)],
        vec![segment(1, 0, 100), Segment { asset_id: 3, ..segment(2, 50, 100) }],
    );
    assert!(matches!(
        faulty.validate_for_persistence(),
        Err(EngineError::MissingAsset { asset_id: 3 })
    ));
    assert!(faulty.to_project_file().is_err());
}

#[test]
fn range_checks_need_a_stream_for_a_range_and_a_range_for_a_stream() {
    let with_streams = asset(1);
    let without = MediaAsset {
        video: None,
        audio: None,
        video_stream_index: None,
        audio_stream_index: None,
        ..asset(2)
    };
    let ranged = segment(1, 0, 100);
    let bare = Segment {
        src_in_video: None,
        src_out_video: None,
        src_in_audio: None,
        src_out_audio: None,
        ..segment(2, 0, 100)
    };
    assert!(validate_segment_ranges(&with_streams, &ranged).is_ok());
    assert!(validate_segment_ranges(&without, &bare).is_ok());
    assert!(matches!(
        validate_video_segment_range(&with_streams, &bare),
        Err(EngineError::MissingVideoRange { segment_id: 2 })
    ));
    assert!(matches!(
        validate_audio_segment_range(&with_streams, &bare),
        Err(EngineError::MissingAudioRange { segment_id: 2 })
    ));
    assert!(matches!(
        validate_video_segment_range(&without, &ranged),
        Err(EngineError::MissingVideoStream { asset_id: 2 })
    ));
    assert!(matches!(
        validate_audio_segment_range(&without, &ranged),
        Err(EngineError::MissingAudioStream { asset_id: 2 })
    ));
    // Video is looked at before audio.
    assert!(matches!(
        validate_segment_ranges(&without, &ranged),
        Err(EngineError::MissingVideoStream { asset_id: 2 })
    ));
}

#[test]
fn a_document_is_refused_for_its_version_and_for_bad_time_bases() {
    let sound = project(vec![asset(1)], vec![segment(1, 0, 100)]);

    let mut file = ProjectFile::from_project(&sound);
    file.schema_version = 2;
    match Project::from_project_file(file) {
        Err(EngineError::InvalidProjectFile { reason }) => {
            assert_eq!(reason, "unsupported project schema version 2")
        }
        other => panic!("expected a version error, got {other:?}"),
    }

    // The version is looked at before the structure.
    let mut file = ProjectFile::from_project(&sound);
    file.schema_version = 0;
    file.segments.push(segment(1, 0, 100));
    match Project::from_project_file(file) {
        Err(EngineError::InvalidProjectFile { reason }) => {
            assert_eq!(reason, "unsupported project schema version 0")
        }
        other => panic!("expected a version error, got {other:?}"),
    }

    let mut file = ProjectFile::from_project(&sound);
    file.assets[0].video.as_mut().expect("video").time_base = Rational { num: 1, den: 0 };
    file.schema_version = 2;
    assert!(matches!(
        Project::from_project_file(file),
        Err(EngineError::InvalidRational { num: 1, den: 0 })
    ));

    let mut file = ProjectFile::from_project(&sound);
    file.segments.push(segment(1, 100, 100));
    match Project::from_project_file(file) {
        Err(EngineError::InvalidProjectFile { reason }) => {
            assert_eq!(reason, "duplicate segment id 1")
        }
        other => panic!("expected a structural error, got {other:?}"),
    }
}

#[test]
fn issue_reasons_and_errors_agree() {
    let issue = ProjectFileIssue::Overlap { segment_id: 12, timeline_start: 340 };
    assert_eq!(issue.reason(), "segment 12 overlaps previous segment at 340");
    match issue.into_error() {
        EngineError::InvalidProjectFile { reason } => {
            assert_eq!(reason, "segment 12 overlaps previous segment at 340")
        }
        other => panic!("expected an invalid project file, got {other:?}"),
    }
}
