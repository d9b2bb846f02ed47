use engine::error::EngineError;
use engine::time::Rational;
use engine::timeline::{Segment, Timeline};

#[test]
fn split_at_timeline_end_is_reported_as_boundary() {
    let mut timeline = Timeline {
        segments: vec![Segment {
            id: 1,
            asset_id: 1,
            src_in_video: Some(0),
            src_out_video: Some(100),
            src_in_audio: None,
            src_out_audio: None,
            timeline_start: 0,
            timeline_duration: 1_000,
        }],
    };

    let result = timeline.split_segment(1_000, 2, None, None);
    assert!(matches!(
        result,
        Err(EngineError::SplitPointAtBoundary { at_tl: 1_000 })
    ));
}

#[test]
fn cut_at_boundary_removes_segment_starting_at_boundary() {
    let mut timeline = Timeline {
        segments: vec![
            Segment {
                id: 1,
                asset_id: 1,
                src_in_video: Some(0),
                src_out_video: Some(10),
                src_in_audio: None,
                src_out_audio: None,
                timeline_start: 0,
                timeline_duration: 100,
            },
            Segment {
                id: 2,
                asset_id: 1,
                src_in_video: Some(10),
                src_out_video: Some(20),
                src_in_audio: None,
                src_out_audio: None,
                timeline_start: 100,
                timeline_duration: 100,
            },
        ],
    };

    let removed = timeline.cut_segment(100).expect("cut should succeed");
    assert_eq!(removed.id, 2);
    assert_eq!(timeline.segments.len(), 1);
    assert_eq!(timeline.duration_tl(), 100);
    assert_eq!(timeline.segments[0].timeline_start, 0);
}

#[test]
fn cut_middle_segment_shifts_following_segments_left() {
    let mut timeline = Timeline {
        segments: vec![
            Segment {
                id: 1,
                asset_id: 1,
                src_in_video: Some(0),
                src_out_video: Some(10),
                src_in_audio: None,
                src_out_audio: None,
                timeline_start: 0,
                timeline_duration: 100,
            },
            Segment {
                id: 2,
                asset_id: 1,
                src_in_video: Some(10),
                src_out_video: Some(20),
                src_in_audio: None,
                src_out_audio: None,
                timeline_start: 100,
                timeline_duration: 100,
            },
            Segment {
                id: 3,
                asset_id: 1,
                src_in_video: Some(20),
                src_out_video: Some(30),
                src_in_audio: None,
                src_out_audio: None,
                timeline_start: 200,
                timeline_duration: 100,
            },
        ],
    };

    let removed = timeline.cut_segment(150).expect("cut should succeed");
    assert_eq!(removed.id, 2);
    assert_eq!(timeline.segments.len(), 2);
    assert_eq!(timeline.segments[1].id, 3);
    assert_eq!(timeline.segments[1].timeline_start, 100);
    assert_eq!(timeline.duration_tl(), 200);
}


fn seg(id: u64, start: i64, duration: i64, video: Option<(i64, i64)>) -> Segment {
    Segment {
        id,
        asset_id: 1,
        src_in_video: video.map(|range| range.0),
        src_out_video: video.map(|range| range.1),
        src_in_audio: None,
        src_out_audio: None,
        timeline_start: start,
        timeline_duration: duration,
    }
}

fn video_tb() -> Option<Rational> {
    Some(Rational::new(1, 90_000).expect("valid rational"))
}

#[test]
fn split_keeps_pieces_adjacent_and_duration_unchanged() {
    let mut timeline = Timeline {
        segments: vec![
            seg(1, 0, 400_000, Some((0, 36_000))),
            seg(2, 500_000, 700_000, Some((36_000, 99_000))),
        ],
    };
    let before = timeline.duration_tl();

    timeline
        .split_segment(833_333, 9, video_tb(), None)
        .expect("split should succeed");

    assert_eq!(timeline.segments.len(), 3);
    assert_eq!(timeline.segments[0], seg(1, 0, 400_000, Some((0, 36_000))));
    let left = timeline.segments[1];
    let right = timeline.segments[2];
    assert_eq!(left.id, 2);
    assert_eq!(right.id, 9);
    assert_eq!(left.timeline_start, 500_000);
    assert_eq!(left.timeline_start + left.timeline_duration, right.timeline_start);
    assert_eq!(right.timeline_start, 833_333);
    assert_eq!(right.timeline_start + right.timeline_duration, 1_200_000);
    // 333_333 microseconds are 30_000 ticks of 1/90000 s.
    assert_eq!(left.src_in_video, Some(36_000));
    assert_eq!(left.src_out_video, Some(66_000));
    assert_eq!(right.src_in_video, Some(66_000));
    assert_eq!(right.src_out_video, Some(99_000));
    assert_eq!(timeline.duration_tl(), before);
}

#[test]
fn split_at_any_segment_start_or_end_is_refused_and_changes_nothing() {
    let original = Timeline {
        segments: vec![
            seg(1, 0, 400_000, Some((0, 36_000))),
            seg(2, 500_000, 700_000, Some((36_000, 99_000))),
        ],
    };
    for at_tl in [0, 400_000, 500_000, 1_200_000] {
        let mut timeline = original.clone();
        let result = timeline.split_segment(at_tl, 9, video_tb(), None);
        assert!(matches!(
            result,
            Err(EngineError::SplitPointAtBoundary { at_tl: t }) if t == at_tl
        ));
        assert_eq!(timeline, original);
    }
}

#[test]
fn split_in_a_gap_or_outside_the_timeline_finds_no_segment() {
    let original = Timeline {
        segments: vec![seg(1, 0, 400_000, None), seg(2, 500_000, 700_000, None)],
    };
    for at_tl in [-1, 400_001, 450_000, 499_999, 1_200_001, i64::MAX, i64::MIN] {
        let mut timeline = original.clone();
        let result = timeline.split_segment(at_tl, 9, None, None);
        assert!(matches!(
            result,
            Err(EngineError::SegmentNotFound { at_tl: t }) if t == at_tl
        ));
        assert_eq!(timeline, original);
    }
}

#[test]
fn split_keeps_the_source_boundary_inside_the_range() {
    // The range is shorter than the timeline duration suggests: the
    // boundary stops at the end of the range.
    let mut timeline = Timeline { segments: vec![seg(1, 0, 1_000_000, Some((100, 130)))] };
    timeline
        .split_segment(500_000, 2, video_tb(), None)
        .expect("split should succeed");
    assert_eq!(timeline.segments[0].src_out_video, Some(130));
    assert_eq!(timeline.segments[1].src_in_video, Some(130));
    assert_eq!(timeline.segments[1].src_out_video, Some(130));
}

#[test]
fn split_without_a_time_base_keeps_both_source_bounds() {
    let mut timeline = Timeline { segments: vec![seg(1, 0, 1_000, Some((5, 50)))] };
    timeline.split_segment(400, 2, None, None).expect("split should succeed");
    assert_eq!(timeline.segments[0].src_in_video, Some(5));
    assert_eq!(timeline.segments[0].src_out_video, Some(50));
    assert_eq!(timeline.segments[1].src_in_video, Some(5));
    assert_eq!(timeline.segments[1].src_out_video, Some(50));
}

#[test]
fn split_of_a_backward_source_range_is_refused() {
    let original = Timeline { segments: vec![seg(4, 0, 1_000, Some((50, 5)))] };
    let mut timeline = original.clone();
    let result = timeline.split_segment(400, 2, video_tb(), None);
    assert!(matches!(
        result,
        Err(EngineError::InvalidVideoRange {
            segment_id: 4,
            src_in_video: 50,
            src_out_video: 5
        })
    ));
    assert_eq!(timeline, original);

    let mut audio = Timeline { segments: vec![seg(4, 0, 1_000, None)] };
    audio.segments[0].src_in_audio = Some(9);
    audio.segments[0].src_out_audio = Some(8);
    let result = audio.split_segment(400, 2, None, Some(Rational::new(1, 48_000).expect("valid")));
    assert!(matches!(
        result,
        Err(EngineError::InvalidAudioRange {
            segment_id: 4,
            src_in_audio: 9,
            src_out_audio: 8
        })
    ));
}

#[test]
fn cut_prefers_the_segment_that_starts_at_the_tick() {
    // Tick 100 is inside no other segment, but it is both the end of the
    // first segment and the start of the second: the second one goes.
    let mut timeline = Timeline {
        segments: vec![seg(1, 0, 100, None), seg(2, 100, 50, None), seg(3, 150, 10, None)],
    };
    let removed = timeline.cut_segment(100).expect("cut should succeed");
    assert_eq!(removed, seg(2, 100, 50, None));
    assert_eq!(timeline.segments, vec![seg(1, 0, 100, None), seg(3, 100, 10, None)]);
}

#[test]
fn cut_shifts_later_segments_and_leaves_other_gaps_alone() {
    let mut timeline = Timeline {
        segments: vec![
            seg(1, 0, 100, None),
            seg(2, 150, 100, None),
            seg(3, 250, 100, None),
            seg(4, 400, 100, None),
        ],
    };
    let before = timeline.duration_tl();
    let removed = timeline.cut_segment(199).expect("cut should succeed");
    assert_eq!(removed.id, 2);
    assert_eq!(
        timeline.segments,
        vec![seg(1, 0, 100, None), seg(3, 150, 100, None), seg(4, 300, 100, None)]
    );
    assert_eq!(timeline.duration_tl(), before - 100);
}

#[test]
fn cut_in_a_gap_finds_no_segment() {
    let original = Timeline { segments: vec![seg(1, 0, 100, None), seg(2, 150, 100, None)] };
    for at_tl in [-1, 100, 120, 149, 250, 251] {
        let mut timeline = original.clone();
        let result = timeline.cut_segment(at_tl);
        assert!(matches!(result, Err(EngineError::SegmentNotFound { at_tl: t }) if t == at_tl));
        assert_eq!(timeline, original);
    }
}

#[test]
fn find_segment_index_covers_start_and_excludes_end() {
    let timeline = Timeline { segments: vec![seg(1, 0, 100, None), seg(2, 150, 100, None)] };
    assert_eq!(timeline.find_segment_index(0), Some(0));
    assert_eq!(timeline.find_segment_index(99), Some(0));
    assert_eq!(timeline.find_segment_index(100), None);
    assert_eq!(timeline.find_segment_index(150), Some(1));
    assert_eq!(timeline.find_segment_index(249), Some(1));
    assert_eq!(timeline.find_segment_index(250), None);
    assert_eq!(timeline.find_segment_index_by_id(2), Some(1));
    assert_eq!(timeline.find_segment_index_by_id(3), None);
    assert!(timeline.is_boundary_split_point(100));
    assert!(timeline.is_boundary_split_point(150));
    assert!(!timeline.is_boundary_split_point(120));
    assert_eq!(Timeline { segments: vec![] }.duration_tl(), 0);
    assert_eq!(timeline.duration_tl(), 250);
}
