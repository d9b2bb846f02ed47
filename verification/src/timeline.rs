//! The single-track timeline: an ordered list of segments and the
//! timestamp-exact split and cut operations on it.
//!
//! A timeline is viewed as the sequence of its segments. Every operation is
//! stated as a function from the sequence before to the sequence after.

use vstd::prelude::*;
use crate::error::EngineError;
use crate::time::{Rational, rescale, rescale_spec, timeline_time_base, spec_timeline_time_base};

verus! {

/// One contiguous timeline interval that plays a sub-range of one asset.
///
/// Source ranges are half-open and counted in the stream's own time base.
#[derive(Debug, Clone, Copy, PartialEq, Eq)]
pub struct Segment {
    pub id: u64,
    pub asset_id: u64,
    pub src_in_video: Option<i64>,
    pub src_out_video: Option<i64>,
    pub src_in_audio: Option<i64>,
    pub src_out_audio: Option<i64>,
    pub timeline_start: i64,
    pub timeline_duration: i64,
}

/// Ordered list of segments on the single track.
#[derive(Debug, Clone, PartialEq, Eq)]
pub struct Timeline {
    pub segments: Vec<Segment>,
}

impl Segment {
    /// First tick after the segment.
    pub open spec fn end_tl(self) -> int {
        self.timeline_start + self.timeline_duration
    }

    /// Whether tick `t` lies in `[start, end)`.
    pub open spec fn covers(self, t: int) -> bool {
        self.timeline_start <= t < self.end_tl()
    }

    /// Whether tick `t` is the segment's first tick or its end.
    pub open spec fn has_boundary(self, t: int) -> bool {
        t == self.timeline_start || t == self.end_tl()
    }

    /// A segment starts at a non-negative tick, lasts at least one tick and
    /// ends within the `i64` range.
    pub open spec fn wf(self) -> bool {
        &&& self.timeline_start >= 0
        &&& self.timeline_duration > 0
        &&& self.end_tl() <= i64::MAX
    }
}

/// Every segment is well formed and each one ends before or where the next
/// one starts.
pub open spec fn timeline_wf(segs: Seq<Segment>) -> bool {
    &&& forall|i: int| 0 <= i < segs.len() ==> (#[trigger] segs[i]).wf()
    &&& forall|i: int, j: int|
        0 <= i < j < segs.len() ==> (#[trigger] segs[i]).end_tl() <= (
        #[trigger] segs[j]).timeline_start
}

/// End of the last segment, or zero for an empty timeline.
pub open spec fn duration_of(segs: Seq<Segment>) -> int {
    if segs.len() == 0 {
        0
    } else {
        segs.last().end_tl()
    }
}

/// Index of the first segment at or after `from` that covers tick `t`.
pub open spec fn find_covering_from(segs: Seq<Segment>, t: int, from: int) -> Option<int>
    decreases segs.len() - from,
{
    if from < 0 || from >= segs.len() {
        None
    } else if segs[from].covers(t) {
        Some(from)
    } else {
        find_covering_from(segs, t, from + 1)
    }
}

/// Index of the first segment that covers tick `t`.
pub open spec fn find_covering(segs: Seq<Segment>, t: int) -> Option<int> {
    find_covering_from(segs, t, 0)
}

/// Index of the first segment at or after `from` that starts exactly at `t`.
pub open spec fn find_starting_from(segs: Seq<Segment>, t: int, from: int) -> Option<int>
    decreases segs.len() - from,
{
    if from < 0 || from >= segs.len() {
        None
    } else if segs[from].timeline_start == t {
        Some(from)
    } else {
        find_starting_from(segs, t, from + 1)
    }
}

/// Index of the first segment at or after `from` whose id is `id`.
pub open spec fn find_id_from(segs: Seq<Segment>, id: u64, from: int) -> Option<int>
    decreases segs.len() - from,
{
    if from < 0 || from >= segs.len() {
        None
    } else if segs[from].id == id {
        Some(from)
    } else {
        find_id_from(segs, id, from + 1)
    }
}

/// Index of the first segment whose id is `id`.
pub open spec fn find_id(segs: Seq<Segment>, id: u64) -> Option<int> {
    find_id_from(segs, id, 0)
}

/// Whether tick `t` is the start or the end of some segment.
pub open spec fn is_boundary(segs: Seq<Segment>, t: int) -> bool {
    exists|i: int| 0 <= i < segs.len() && (#[trigger] segs[i]).has_boundary(t)
}

/// The segment that a cut at `t` removes: the first one that starts exactly
/// at `t`, and only if there is none, the first one that covers `t`.
pub open spec fn cut_target(segs: Seq<Segment>, t: int) -> Option<int> {
    match find_starting_from(segs, t, 0) {
        Some(i) => Some(i),
        None => find_covering(segs, t),
    }
}

/// `v` limited to `[lo, hi]`.
pub open spec fn clamp_int(v: int, lo: int, hi: int) -> int
    recommends
        lo <= hi,
{
    if v < lo {
        lo
    } else if v > hi {
        hi
    } else {
        v
    }
}

/// The source timestamp at which a stream range is divided when the first
/// `left_duration_tl` timeline ticks go to the left piece.
pub open spec fn split_point(src_in: i64, src_out: i64, left_duration_tl: int, tb: Rational) -> int {
    clamp_int(
        src_in + rescale_spec(left_duration_tl, spec_timeline_time_base(), tb),
        src_in as int,
        src_out as int,
    )
}

/// New `out` bound of the left piece and new `in` bound of the right piece.
/// A stream without a range or without a time base keeps both bounds.
pub open spec fn split_stream_range_spec(
    src_in: Option<i64>,
    src_out: Option<i64>,
    left_duration_tl: int,
    tb: Option<Rational>,
) -> (Option<i64>, Option<i64>) {
    if src_in is Some && src_out is Some && tb is Some {
        let p = split_point(src_in->0, src_out->0, left_duration_tl, tb->0) as i64;
        (Some(p), Some(p))
    } else {
        (src_out, src_in)
    }
}

/// Whether a stream range would be divided and runs backwards.
pub open spec fn range_inverted(src_in: Option<i64>, src_out: Option<i64>, tb: Option<Rational>) -> bool {
    src_in is Some && src_out is Some && tb is Some && src_in->0 > src_out->0
}

/// Left piece of `seg` split at tick `at`: same id, shortened.
pub open spec fn split_left(seg: Segment, at: int, vtb: Option<Rational>, atb: Option<Rational>) -> Segment {
    let left = at - seg.timeline_start;
    Segment {
        timeline_duration: left as i64,
        src_out_video: split_stream_range_spec(seg.src_in_video, seg.src_out_video, left, vtb).0,
        src_out_audio: split_stream_range_spec(seg.src_in_audio, seg.src_out_audio, left, atb).0,
        ..seg
    }
}

/// Right piece of `seg` split at tick `at`: new id, starts at `at`.
pub open spec fn split_right(
    seg: Segment,
    at: int,
    new_id: u64,
    vtb: Option<Rational>,
    atb: Option<Rational>,
) -> Segment {
    let left = at - seg.timeline_start;
    Segment {
        id: new_id,
        timeline_start: at as i64,
        timeline_duration: (seg.timeline_duration - left) as i64,
        src_in_video: split_stream_range_spec(seg.src_in_video, seg.src_out_video, left, vtb).1,
        src_in_audio: split_stream_range_spec(seg.src_in_audio, seg.src_out_audio, left, atb).1,
        ..seg
    }
}

/// The segment list after segment `index` was split at tick `at`.
pub open spec fn split_model(
    segs: Seq<Segment>,
    index: int,
    at: int,
    new_id: u64,
    vtb: Option<Rational>,
    atb: Option<Rational>,
) -> Seq<Segment> {
    segs.update(index, split_left(segs[index], at, vtb, atb)).insert(
        index + 1,
        split_right(segs[index], at, new_id, vtb, atb),
    )
}

/// What a split at tick `at` does: the new segment list, or the reason for
/// refusing it.
pub open spec fn split_outcome(
    segs: Seq<Segment>,
    at: i64,
    new_id: u64,
    vtb: Option<Rational>,
    atb: Option<Rational>,
) -> Result<Seq<Segment>, EngineError> {
    if is_boundary(segs, at as int) {
        Err(EngineError::SplitPointAtBoundary { at_tl: at })
    } else {
        match find_covering(segs, at as int) {
            None => Err(EngineError::SegmentNotFound { at_tl: at }),
            Some(i) => {
                let seg = segs[i];
                if range_inverted(seg.src_in_video, seg.src_out_video, vtb) {
                    Err(
                        EngineError::InvalidVideoRange {
                            segment_id: seg.id,
                            src_in_video: seg.src_in_video->0,
                            src_out_video: seg.src_out_video->0,
                        },
                    )
                } else if range_inverted(seg.src_in_audio, seg.src_out_audio, atb) {
                    Err(
                        EngineError::InvalidAudioRange {
                            segment_id: seg.id,
                            src_in_audio: seg.src_in_audio->0,
                            src_out_audio: seg.src_out_audio->0,
                        },
                    )
                } else {
                    Ok(split_model(segs, i, at as int, new_id, vtb, atb))
                }
            },
        }
    }
}

/// `seg` moved left by `by` ticks.
pub open spec fn shifted_left(seg: Segment, by: int) -> Segment {
    Segment { timeline_start: (seg.timeline_start - by) as i64, ..seg }
}

/// The segment list after segment `index` was removed and every later
/// segment moved left by the removed duration.
pub open spec fn cut_model(segs: Seq<Segment>, index: int) -> Seq<Segment> {
    Seq::new(
        (segs.len() - 1) as nat,
        |j: int|
            if j < index {
                segs[j]
            } else {
                shifted_left(segs[j + 1], segs[index].timeline_duration as int)
            },
    )
}

/// A search from `from` returns the least matching index at or after it.
pub proof fn lemma_find_covering_from(segs: Seq<Segment>, t: int, from: int)
    requires
        0 <= from <= segs.len(),
    ensures
        match find_covering_from(segs, t, from) {
            Some(i) => from <= i < segs.len() && segs[i].covers(t) && forall|j: int|
                from <= j < i ==> !(#[trigger] segs[j]).covers(t),
            None => forall|j: int| from <= j < segs.len() ==> !(#[trigger] segs[j]).covers(t),
        },
    decreases segs.len() - from,
{
    if from < segs.len() && !segs[from].covers(t) {
        lemma_find_covering_from(segs, t, from + 1);
    }
}

/// A search from `from` returns the least matching index at or after it.
pub proof fn lemma_find_starting_from(segs: Seq<Segment>, t: int, from: int)
    requires
        0 <= from <= segs.len(),
    ensures
        match find_starting_from(segs, t, from) {
            Some(i) => from <= i < segs.len() && segs[i].timeline_start == t && forall|j: int|
                from <= j < i ==> (#[trigger] segs[j]).timeline_start != t,
            None => forall|j: int|
                from <= j < segs.len() ==> (#[trigger] segs[j]).timeline_start != t,
        },
    decreases segs.len() - from,
{
    if from < segs.len() && segs[from].timeline_start != t {
        lemma_find_starting_from(segs, t, from + 1);
    }
}

/// A search from `from` returns the least matching index at or after it.
pub proof fn lemma_find_id_from(segs: Seq<Segment>, id: u64, from: int)
    requires
        0 <= from <= segs.len(),
    ensures
        match find_id_from(segs, id, from) {
            Some(i) => from <= i < segs.len() && segs[i].id == id && forall|j: int|
                from <= j < i ==> (#[trigger] segs[j]).id != id,
            None => forall|j: int| from <= j < segs.len() ==> (#[trigger] segs[j]).id != id,
        },
    decreases segs.len() - from,
{
    if from < segs.len() && segs[from].id != id {
        lemma_find_id_from(segs, id, from + 1);
    }
}

/// On a well-formed timeline at most one segment covers a tick, so the
/// search finds the only one.
pub proof fn lemma_covering_unique(segs: Seq<Segment>, t: int, i: int)
    requires
        timeline_wf(segs),
        0 <= i < segs.len(),
        segs[i].covers(t),
    ensures
        find_covering(segs, t) == Some(i),
{
    lemma_find_covering_from(segs, t, 0);
    let found = find_covering(segs, t);
    assert(found is Some);
    let k = found->0;
    if k < i {
        assert(segs[k].end_tl() <= segs[i].timeline_start);
    }
}

/// Splitting keeps the two pieces adjacent, makes them span exactly the
/// range of the segment they came from, leaves every other segment as it
/// was, and leaves the total duration unchanged.
pub proof fn lemma_split_contiguity(
    segs: Seq<Segment>,
    at: i64,
    new_id: u64,
    vtb: Option<Rational>,
    atb: Option<Rational>,
)
    requires
        timeline_wf(segs),
        split_outcome(segs, at, new_id, vtb, atb) is Ok,
    ensures
        ({
            let after = split_outcome(segs, at, new_id, vtb, atb)->Ok_0;
            let i = find_covering(segs, at as int)->0;
            &&& 0 <= i < segs.len()
            &&& after.len() == segs.len() + 1
            &&& after[i].timeline_start == segs[i].timeline_start
            &&& after[i].end_tl() == after[i + 1].timeline_start
            &&& after[i + 1].timeline_start == at
            &&& after[i + 1].end_tl() == segs[i].end_tl()
            &&& after[i].timeline_duration + after[i + 1].timeline_duration
                == segs[i].timeline_duration
            &&& after[i].id == segs[i].id
            &&& after[i + 1].id == new_id
            &&& forall|j: int| 0 <= j < i ==> after[j] == segs[j]
            &&& forall|j: int| i < j < segs.len() ==> after[j + 1] == segs[j]
            &&& duration_of(after) == duration_of(segs)
            &&& timeline_wf(after)
        }),
{
    lemma_find_covering_from(segs, at as int, 0);
    let i = find_covering(segs, at as int)->0;
    let after = split_model(segs, i, at as int, new_id, vtb, atb);
    assert(segs[i].wf());
    assert(!segs[i].has_boundary(at as int));
    lemma_split_model_wf(segs, i, at, new_id, vtb, atb);
}

/// The split of a well-formed timeline strictly inside segment `i` is well
/// formed.
pub proof fn lemma_split_model_wf(
    segs: Seq<Segment>,
    i: int,
    at: i64,
    new_id: u64,
    vtb: Option<Rational>,
    atb: Option<Rational>,
)
    requires
        timeline_wf(segs),
        0 <= i < segs.len(),
        segs[i].timeline_start < at < segs[i].end_tl(),
    ensures
        timeline_wf(split_model(segs, i, at as int, new_id, vtb, atb)),
{
    let after = split_model(segs, i, at as int, new_id, vtb, atb);
    assert(segs[i].wf());
    assert forall|k: int| 0 <= k < after.len() implies (#[trigger] after[k]).wf() by {
        if k < i {
            assert(after[k] == segs[k]);
        } else if k > i + 1 {
            assert(after[k] == segs[k - 1]);
        }
    }
    assert forall|k: int, l: int| 0 <= k < l < after.len() implies (#[trigger] after[k]).end_tl() <= (
    #[trigger] after[l]).timeline_start by {
        let ok = if k <= i {
            k
        } else {
            k - 1
        };
        let ol = if l <= i {
            l
        } else {
            l - 1
        };
        assert(after[k].end_tl() <= segs[ok].end_tl());
        assert(after[l].timeline_start >= segs[ol].timeline_start);
        if ok < ol {
            assert(segs[ok].end_tl() <= segs[ol].timeline_start);
        }
    }
}

/// A split at the start or the end of any segment is refused, whatever
/// else holds of the tick.
pub proof fn lemma_split_boundary_rejected(
    segs: Seq<Segment>,
    at: i64,
    new_id: u64,
    vtb: Option<Rational>,
    atb: Option<Rational>,
    i: int,
)
    requires
        0 <= i < segs.len(),
        segs[i].has_boundary(at as int),
    ensures
        split_outcome(segs, at, new_id, vtb, atb) == Err::<Seq<Segment>, EngineError>(
            EngineError::SplitPointAtBoundary { at_tl: at },
        ),
{
}

/// After a cut every segment before the removed one is untouched, every
/// segment after it starts earlier by exactly the removed duration and is
/// otherwise untouched, and the timeline stays well formed.
pub proof fn lemma_cut_contiguity(segs: Seq<Segment>, index: int)
    requires
        timeline_wf(segs),
        0 <= index < segs.len(),
    ensures
        ({
            let after = cut_model(segs, index);
            let removed = segs[index].timeline_duration;
            &&& after.len() == segs.len() - 1
            &&& forall|j: int| 0 <= j < index ==> after[j] == segs[j]
            &&& forall|j: int|
                index <= j < after.len() ==> {
                    &&& (#[trigger] after[j]).timeline_start == segs[j + 1].timeline_start
                        - removed
                    &&& after[j].timeline_duration == segs[j + 1].timeline_duration
                    &&& after[j].id == segs[j + 1].id
                }
            &&& timeline_wf(after)
        }),
{
    let after = cut_model(segs, index);
    let removed = segs[index].timeline_duration as int;
    assert(segs[index].wf());
    assert forall|j: int| index <= j < after.len() implies (#[trigger] after[j]).timeline_start
        == segs[j + 1].timeline_start - removed && after[j].wf() by {
        assert(segs[j + 1].wf());
        assert(segs[index].end_tl() <= segs[j + 1].timeline_start);
    }
    assert forall|k: int| 0 <= k < after.len() implies (#[trigger] after[k]).wf() by {
        if k < index {
            assert(segs[k].wf());
        }
    }
    assert forall|k: int, l: int| 0 <= k < l < after.len() implies (#[trigger] after[k]).end_tl() <= (
    #[trigger] after[l]).timeline_start by {
        if l < index {
            assert(segs[k].end_tl() <= segs[l].timeline_start);
        } else if k < index {
            assert(segs[k].end_tl() <= segs[index].timeline_start);
            assert(segs[index].end_tl() <= segs[l + 1].timeline_start);
        } else {
            assert(segs[k + 1].end_tl() <= segs[l + 1].timeline_start);
        }
    }
}

/// A cut shortens the timeline by exactly the removed duration whenever a
/// segment follows the removed one, or the removed one begins where the
/// segment before it ends (at zero, if it is the first).
pub proof fn lemma_cut_duration(segs: Seq<Segment>, index: int)
    requires
        timeline_wf(segs),
        0 <= index < segs.len(),
        index + 1 < segs.len() || segs[index].timeline_start == (if index == 0 {
            0
        } else {
            segs[index - 1].end_tl()
        }),
    ensures
        duration_of(cut_model(segs, index)) == duration_of(segs)
            - segs[index].timeline_duration,
{
    lemma_cut_contiguity(segs, index);
    let after = cut_model(segs, index);
    if index + 1 < segs.len() {
        assert(after.last() == after[after.len() - 1]);
        assert(after[after.len() - 1].timeline_start == segs[segs.len() - 1].timeline_start
            - segs[index].timeline_duration);
    } else if index > 0 {
        assert(after.last() == segs[index - 1]);
    }
}

impl View for Timeline {
    type V = Seq<Segment>;

    open spec fn view(&self) -> Seq<Segment> {
        self.segments@
    }
}

impl Timeline {
    /// The timeline's segments satisfy [`timeline_wf`].
    pub open spec fn wf(&self) -> bool {
        timeline_wf(self@)
    }

    /// Returns total timeline duration in timeline ticks.
    pub fn duration_tl(&self) -> (out: i64)
        requires
            self.wf(),
        ensures
            out == duration_of(self@),
    {
        let n = self.segments.len();
        if n == 0 {
            0
        } else {
            let last = &self.segments[n - 1];
            assert(self@[n - 1].wf());
            last.timeline_start + last.timeline_duration
        }
    }

    /// Finds the index of the segment that contains `t_tl`.
    pub fn find_segment_index(&self, t_tl: i64) -> (out: Option<usize>)
        requires
            self.wf(),
        ensures
            out is Some <==> exists|i: int| 0 <= i < self@.len() && (#[trigger] self@[i]).covers(
                t_tl as int,
            ),
            out is Some ==> out->0 < self@.len() && self@[out->0 as int].covers(t_tl as int),
            out is Some ==> find_covering(self@, t_tl as int) == Some(out->0 as int),
            out is None ==> find_covering(self@, t_tl as int) is None,
    {
        let mut i: usize = 0;
        proof {
            lemma_find_covering_from(self@, t_tl as int, 0);
        }
        while i < self.segments.len()
            invariant
                self.wf(),
                i <= self@.len(),
                forall|j: int| 0 <= j < i ==> !(#[trigger] self@[j]).covers(t_tl as int),
            decreases self@.len() - i,
        {
            let seg = &self.segments[i];
            assert(self@[i as int].wf());
            let end = seg.timeline_start + seg.timeline_duration;
            if seg.timeline_start <= t_tl && t_tl < end {
                proof {
                    lemma_covering_unique(self@, t_tl as int, i as int);
                }
                return Some(i);
            }
            i += 1;
        }
        proof {
            lemma_find_covering_from(self@, t_tl as int, 0);
        }
        None
    }

    /// Finds the index of the first segment with the given id.
    pub fn find_segment_index_by_id(&self, segment_id: u64) -> (out: Option<usize>)
        ensures
            out is Some <==> exists|i: int| 0 <= i < self@.len() && (#[trigger] self@[i]).id
                == segment_id,
            out is Some ==> out->0 < self@.len() && self@[out->0 as int].id == segment_id,
            out is Some ==> find_id(self@, segment_id) == Some(out->0 as int),
            out is None ==> find_id(self@, segment_id) is None,
    {
        let mut i: usize = 0;
        proof {
            lemma_find_id_from(self@, segment_id, 0);
        }
        while i < self.segments.len()
            invariant
                i <= self@.len(),
                forall|j: int| 0 <= j < i ==> (#[trigger] self@[j]).id != segment_id,
                match find_id_from(self@, segment_id, 0) {
                    Some(k) => 0 <= k < self@.len() && self@[k].id == segment_id && forall|j: int|
                        0 <= j < k ==> (#[trigger] self@[j]).id != segment_id,
                    None => forall|j: int|
                        0 <= j < self@.len() ==> (#[trigger] self@[j]).id != segment_id,
                },
            decreases self@.len() - i,
        {
            if self.segments[i].id == segment_id {
                return Some(i);
            }
            i += 1;
        }
        None
    }

    /// Whether `at_tl` is the start or the end of some segment.
    pub fn is_boundary_split_point(&self, at_tl: i64) -> (out: bool)
        requires
            self.wf(),
        ensures
            out == is_boundary(self@, at_tl as int),
    {
        let mut i: usize = 0;
        while i < self.segments.len()
            invariant
                self.wf(),
                i <= self@.len(),
                forall|j: int| 0 <= j < i ==> !(#[trigger] self@[j]).has_boundary(at_tl as int),
            decreases self@.len() - i,
        {
            let seg = &self.segments[i];
            assert(self@[i as int].wf());
            let end = seg.timeline_start + seg.timeline_duration;
            if at_tl == seg.timeline_start || at_tl == end {
                assert(self@[i as int].has_boundary(at_tl as int));
                return true;
            }
            i += 1;
        }
        false
    }

    /// Finds the segment that a cut at `at_tl` removes.
    pub fn find_cut_segment_index(&self, at_tl: i64) -> (out: Option<usize>)
        requires
            self.wf(),
        ensures
            out is Some ==> cut_target(self@, at_tl as int) == Some(out->0 as int) && out->0
                < self@.len(),
            out is None ==> cut_target(self@, at_tl as int) is None,
    {
        let mut i: usize = 0;
        proof {
            lemma_find_starting_from(self@, at_tl as int, 0);
        }
        while i < self.segments.len()
            invariant
                i <= self@.len(),
                forall|j: int| 0 <= j < i ==> (#[trigger] self@[j]).timeline_start != at_tl,
                match find_starting_from(self@, at_tl as int, 0) {
                    Some(k) => 0 <= k < self@.len() && self@[k].timeline_start == at_tl
                        && forall|j: int|
                        0 <= j < k ==> (#[trigger] self@[j]).timeline_start != at_tl,
                    None => forall|j: int|
                        0 <= j < self@.len() ==> (#[trigger] self@[j]).timeline_start != at_tl,
                },
            decreases self@.len() - i,
        {
            if self.segments[i].timeline_start == at_tl {
                return Some(i);
            }
            i += 1;
        }
        let found = self.find_segment_index(at_tl);
        proof {
            lemma_find_covering_from(self@, at_tl as int, 0);
        }
        found
    }

    /// Splits one segment into two at timeline timestamp `at_tl`.
    ///
    /// The left piece keeps the id, the right piece gets `next_segment_id`,
    /// and both share one source boundary per stream. The timeline is left
    /// unchanged when the split is refused: at a segment boundary, in a gap,
    /// or on a source range that runs backwards.
    pub fn split_segment(
        &mut self,
        at_tl: i64,
        next_segment_id: u64,
        video_time_base: Option<Rational>,
        audio_time_base: Option<Rational>,
    ) -> (out: Result<(), EngineError>)
        requires
            old(self).wf(),
            video_time_base is Some ==> video_time_base->0.wf(),
            audio_time_base is Some ==> audio_time_base->0.wf(),
        ensures
            final(self).wf(),
            match split_outcome(
                old(self)@,
                at_tl,
                next_segment_id,
                video_time_base,
                audio_time_base,
            ) {
                Ok(after) => out is Ok && final(self)@ == after,
                Err(e) => out == Err::<(), EngineError>(e) && final(self)@ == old(self)@,
            },
    {
        if self.is_boundary_split_point(at_tl) {
            return Err(EngineError::SplitPointAtBoundary { at_tl });
        }
        let index = match self.find_segment_index(at_tl) {
            Some(index) => index,
            None => {
                return Err(EngineError::SegmentNotFound { at_tl });
            },
        };
        let current = self.segments[index];
        proof {
            lemma_find_covering_from(self@, at_tl as int, 0);
            assert(self@[index as int].wf());
            assert(!self@[index as int].has_boundary(at_tl as int));
        }
        if let Some(e) = inverted_range_error(&current, video_time_base, audio_time_base) {
            return Err(e);
        }
        let left_duration = at_tl - current.timeline_start;
        let right_duration = current.timeline_duration - left_duration;

        let (left_video_out, right_video_in) = split_stream_range(
            current.src_in_video,
            current.src_out_video,
            left_duration,
            video_time_base,
        );
        let (left_audio_out, right_audio_in) = split_stream_range(
            current.src_in_audio,
            current.src_out_audio,
            left_duration,
            audio_time_base,
        );

        let left = Segment {
            timeline_duration: left_duration,
            src_out_video: left_video_out,
            src_out_audio: left_audio_out,
            ..current
        };
        let right = Segment {
            id: next_segment_id,
            src_in_video: right_video_in,
            src_in_audio: right_audio_in,
            timeline_start: at_tl,
            timeline_duration: right_duration,
            ..current
        };
        proof {
            lemma_split_model_wf(
                self@,
                index as int,
                at_tl,
                next_segment_id,
                video_time_base,
                audio_time_base,
            );
        }
        let count = self.segments.len();
        assert(index < count);
        let right_index: usize = index + 1;
        self.segments[index] = left;
        self.segments.insert(right_index, right);
        Ok(())
    }

    /// Cuts one segment at timeline timestamp `at_tl`.
    ///
    /// The segment that starts exactly at `at_tl` is removed if there is
    /// one, else the segment that contains `at_tl`. Every later segment
    /// moves left by the removed duration. Returns the removed segment.
    pub fn cut_segment(&mut self, at_tl: i64) -> (out: Result<Segment, EngineError>)
        requires
            old(self).wf(),
        ensures
            final(self).wf(),
            match cut_target(old(self)@, at_tl as int) {
                Some(i) => 0 <= i < old(self)@.len() && out == Ok::<Segment, EngineError>(
                    old(self)@[i],
                ) && final(self)@ == cut_model(old(self)@, i),
                None => out == Err::<Segment, EngineError>(
                    EngineError::SegmentNotFound { at_tl },
                ) && final(self)@ == old(self)@,
            },
    {
        let index = match self.find_cut_segment_index(at_tl) {
            Some(index) => index,
            None => {
                return Err(EngineError::SegmentNotFound { at_tl });
            },
        };
        let ghost before = self@;
        proof {
            lemma_cut_contiguity(before, index as int);
        }
        let removed = self.segments.remove(index);
        let removed_duration = removed.timeline_duration;
        let mut j: usize = index;
        while j < self.segments.len()
            invariant
                timeline_wf(before),
                0 <= index < before.len(),
                index <= j <= self@.len(),
                self@.len() == before.len() - 1,
                removed_duration == before[index as int].timeline_duration,
                forall|k: int| 0 <= k < j ==> (#[trigger] self@[k]) == cut_model(
                    before,
                    index as int,
                )[k],
                forall|k: int| j <= k < self@.len() ==> (#[trigger] self@[k]) == before[k + 1],
            decreases self@.len() - j,
        {
            let mut seg = self.segments[j];
            proof {
                assert(before[index as int].wf());
                assert(before[j + 1].wf());
                assert(before[index as int].end_tl() <= before[j + 1].timeline_start);
            }
            seg.timeline_start = seg.timeline_start - removed_duration;
            self.segments[j] = seg;
            j += 1;
        }
        assert(self@ =~= cut_model(before, index as int));
        Ok(removed)
    }
}

/// Reports the first stream range of `seg` that a split would have to
/// divide although it runs backwards.
fn inverted_range_error(seg: &Segment, vtb: Option<Rational>, atb: Option<Rational>) -> (out: Option<
    EngineError,
>)
    ensures
        out == (if range_inverted(seg.src_in_video, seg.src_out_video, vtb) {
            Some(
                EngineError::InvalidVideoRange {
                    segment_id: seg.id,
                    src_in_video: seg.src_in_video->0,
                    src_out_video: seg.src_out_video->0,
                },
            )
        } else if range_inverted(seg.src_in_audio, seg.src_out_audio, atb) {
            Some(
                EngineError::InvalidAudioRange {
                    segment_id: seg.id,
                    src_in_audio: seg.src_in_audio->0,
                    src_out_audio: seg.src_out_audio->0,
                },
            )
        } else {
            None
        }),
{
    if let (Some(src_in_video), Some(src_out_video), Some(_)) = (
        seg.src_in_video,
        seg.src_out_video,
        vtb,
    ) {
        if src_in_video > src_out_video {
            return Some(
                EngineError::InvalidVideoRange { segment_id: seg.id, src_in_video, src_out_video },
            );
        }
    }
    if let (Some(src_in_audio), Some(src_out_audio), Some(_)) = (
        seg.src_in_audio,
        seg.src_out_audio,
        atb,
    ) {
        if src_in_audio > src_out_audio {
            return Some(
                EngineError::InvalidAudioRange { segment_id: seg.id, src_in_audio, src_out_audio },
            );
        }
    }
    None
}

/// Divides one stream range where the left piece's timeline duration ends,
/// keeping the division inside the range.
pub fn split_stream_range(
    src_in: Option<i64>,
    src_out: Option<i64>,
    left_duration_tl: i64,
    time_base: Option<Rational>,
) -> (out: (Option<i64>, Option<i64>))
    requires
        time_base is Some ==> time_base->0.wf(),
        !range_inverted(src_in, src_out, time_base),
    ensures
        out == split_stream_range_spec(src_in, src_out, left_duration_tl as int, time_base),
        src_in is Some && src_out is Some && time_base is Some ==> out.0 == out.1 && src_in->0
            <= out.0->0 <= src_out->0,
{
    match (src_in, src_out, time_base) {
        (Some(i), Some(o), Some(tb)) => {
            let delta = rescale(left_duration_tl, timeline_time_base(), tb);
            let target: i128 = i as i128 + delta as i128;
            let split: i64 = if target < i as i128 {
                i
            } else if target > o as i128 {
                o
            } else {
                target as i64
            };
            (Some(split), Some(split))
        },
        _ => (src_out, src_in),
    }
}

} // verus!
