//! Choosing the frame to decode.

use vstd::prelude::*;
use vstd::string::StringExecFns;
use crate::media::error::MediaFfmpegError;
use crate::media::probe::{ParseFault, is_absent, is_blank, reports_parse};
use crate::text::{
    decimal, find_char, first_index_from, lines, lines_spec, parse_integer, parse_integer_spec,
    push_decimal, push_signed_decimal, push_text, push_wide_decimal, same_text, signed_decimal, texts_view, trim,
};
use crate::time::{Rational, rescale, rescale_spec, spec_timeline_time_base, timeline_time_base};

verus! {

/// A decoded video frame in RGBA format.
#[derive(Debug, Clone, PartialEq, Eq)]
pub struct DecodedVideoFrame {
    pub width: u32,
    pub height: u32,
    pub rgba: Vec<u8>,
    pub best_effort_timestamp: i64,
    pub time_base: Rational,
}

/// The timestamp of the frame to decode for `target`: the first one at or
/// after it, in the order given, or the last one when all come before it.
pub open spec fn select_timestamp_spec(timestamps: Seq<i64>, target: i64) -> Option<i64> {
    if exists|i: int| 0 <= i < timestamps.len() && #[trigger] timestamps[i] >= target {
        Some(
            timestamps[choose|i: int|
                0 <= i < timestamps.len() && #[trigger] timestamps[i] >= target && forall|j: int|
                    0 <= j < i ==> #[trigger] timestamps[j] < target],
        )
    } else if timestamps.len() > 0 {
        Some(timestamps.last())
    } else {
        None
    }
}

/// Picks the timestamp of the frame to decode for `target`.
pub fn select_timestamp_at_or_after(timestamps: &[i64], target: i64) -> (out: Option<i64>)
    ensures
        out == select_timestamp_spec(timestamps@, target),
        timestamps@.len() == 0 <==> out is None,
{
    let mut i: usize = 0;
    while i < timestamps.len()
        invariant
            i <= timestamps@.len(),
            forall|j: int| 0 <= j < i ==> #[trigger] timestamps@[j] < target,
        decreases timestamps@.len() - i,
    {
        if timestamps[i] >= target {
            proof {
                let chosen = choose|k: int|
                    0 <= k < timestamps@.len() && #[trigger] timestamps@[k] >= target
                        && forall|j: int| 0 <= j < k ==> #[trigger] timestamps@[j] < target;
                assert(timestamps@[i as int] >= target);
                assert(chosen == i);
            }
            return Some(timestamps[i]);
        }
        i += 1;
    }
    if timestamps.len() > 0 {
        Some(timestamps[timestamps.len() - 1])
    } else {
        None
    }
}

/// The number of bytes of an RGBA frame of the given size, when it can be
/// counted in `usize`.
pub fn rgba_len(width: u32, height: u32) -> (out: Option<usize>)
    ensures
        out is Some <==> width * height * 4 <= usize::MAX,
        out is Some ==> out->0 == width * height * 4,
{
    assert(0 <= width * height <= 0xFFFF_FFFF * 0xFFFF_FFFF) by (nonlinear_arith)
        requires
            0 <= width <= 0xFFFF_FFFF,
            0 <= height <= 0xFFFF_FFFF,
    ;
    let area: u128 = (width as u128) * (height as u128);
    let bytes: u128 = area * 4;
    if bytes <= usize::MAX as u128 {
        Some(bytes as usize)
    } else {
        None
    }
}


/// The timestamp that a line of the frame listing gives: what stands
/// before its first comma, read as a 64-bit integer. A blank line and an
/// absent timestamp give none, and a text that writes no such integer is
/// the error.
pub open spec fn line_timestamp(line: Seq<char>) -> Result<Option<int>, Seq<char>> {
    let raw = line.subrange(0, first_index_from(line, ',', 0));
    if is_blank(line) || is_absent(raw) {
        Ok(None)
    } else {
        match parse_integer_spec(raw, i64::MIN as int, i64::MAX as int, true) {
            Some(v) => Ok(Some(v)),
            None => Err(raw),
        }
    }
}

/// The first text among the first `n` lines that should be a timestamp
/// and is none.
pub open spec fn first_timestamp_fault(lines: Seq<Seq<char>>, n: int) -> Option<Seq<char>>
    decreases n,
{
    if n <= 0 {
        None
    } else {
        match first_timestamp_fault(lines, n - 1) {
            Some(raw) => Some(raw),
            None => match line_timestamp(lines[n - 1]) {
                Err(raw) => Some(raw),
                Ok(_) => None,
            },
        }
    }
}

/// The timestamps that the first `n` lines give, in their order.
pub open spec fn line_timestamps(lines: Seq<Seq<char>>, n: int) -> Seq<i64>
    decreases n,
{
    if n <= 0 {
        Seq::empty()
    } else {
        match line_timestamp(lines[n - 1]) {
            Ok(Some(v)) => line_timestamps(lines, n - 1).push(v as i64),
            _ => line_timestamps(lines, n - 1),
        }
    }
}

/// A fault among the first `m` lines is the first fault of any longer
/// prefix.
pub proof fn lemma_timestamp_fault_persists(lines: Seq<Seq<char>>, m: int, n: int)
    requires
        0 <= m <= n,
        first_timestamp_fault(lines, m) is Some,
    ensures
        first_timestamp_fault(lines, n) == first_timestamp_fault(lines, m),
    decreases n - m,
{
    if m < n {
        lemma_timestamp_fault_persists(lines, m, n - 1);
    }
}

/// Reads the probe tool's frame listing: one timestamp per line, before
/// the first comma.
pub fn parse_frame_timestamps(listing: &str) -> (out: Result<Vec<i64>, MediaFfmpegError>)
    ensures
        match first_timestamp_fault(lines_spec(listing@), lines_spec(listing@).len() as int) {
            Some(raw) => out is Err && reports_parse(
                out->Err_0,
                ParseFault { context: "best_effort_timestamp"@, value: raw },
            ),
            None => out is Ok && out->Ok_0@ == line_timestamps(
                lines_spec(listing@),
                lines_spec(listing@).len() as int,
            ),
        },
{
    let found = lines(listing);
    let ghost texts = lines_spec(listing@);
    let mut timestamps: Vec<i64> = Vec::new();
    let mut i: usize = 0;
    while i < found.len()
        invariant
            texts == lines_spec(listing@),
            texts_view(found@) == texts,
            i <= found@.len(),
            first_timestamp_fault(texts, i as int) is None,
            timestamps@ == line_timestamps(texts, i as int),
        decreases found@.len() - i,
    {
        let line = found[i];
        assert(texts[i as int] == line@);
        if trim(line).unicode_len() != 0 {
            let raw = line.substring_char(0, find_char(line, ','));
            if !(raw.unicode_len() == 0 || same_text(raw, "N/A")) {
                match parse_integer(raw, i64::MIN as i128, i64::MAX as i128, true) {
                    Some(v) => {
                        timestamps.push(v as i64);
                    },
                    None => {
                        proof {
                            lemma_timestamp_fault_persists(texts, i + 1, texts.len() as int);
                        }
                        return Err(
                            MediaFfmpegError::Parse {
                                context: "best_effort_timestamp",
                                value: String::from_str(raw),
                            },
                        );
                    },
                }
            }
        }
        i += 1;
    }
    Ok(timestamps)
}

/// Expresses a position on the source clock, in timeline ticks, on the
/// clock of the video stream. A position before zero is refused.
pub fn target_timestamp(source_tl: i64, time_base: Rational) -> (out: Result<i64, MediaFfmpegError>)
    requires
        time_base.wf(),
    ensures
        source_tl < 0 ==> out == Err::<i64, MediaFfmpegError>(
            MediaFfmpegError::InvalidTimestamp { source_tl },
        ),
        source_tl >= 0 ==> out == Ok::<i64, MediaFfmpegError>(
            rescale_spec(source_tl as int, spec_timeline_time_base(), time_base) as i64,
        ),
{
    if source_tl < 0 {
        return Err(MediaFfmpegError::InvalidTimestamp { source_tl });
    }
    Ok(rescale(source_tl, timeline_time_base(), time_base))
}

/// The filter that lets the first frame at or after `timestamp` through,
/// as RGBA.
pub fn decode_filter(timestamp: i64) -> (out: String)
    ensures
        out@ == "select=gte(pts\\,"@ + signed_decimal(timestamp as int) + "),format=rgba"@,
{
    let mut out = String::new();
    push_text(&mut out, "select=gte(pts\\,");
    push_signed_decimal(&mut out, timestamp);
    push_text(&mut out, "),format=rgba");
    out
}

/// What the error says when the decoder gave `got` bytes for a frame of
/// `expected` bytes.
pub open spec fn frame_size_text(expected: nat, got: nat) -> Seq<char> {
    "expected "@ + decimal(expected) + " bytes, got "@ + decimal(got)
}

/// Makes a frame of the bytes that the decoder gave, if they are as many
/// as a frame of the given size has.
pub fn frame_from_bytes(
    width: u32,
    height: u32,
    rgba: Vec<u8>,
    best_effort_timestamp: i64,
    time_base: Rational,
) -> (out: Result<DecodedVideoFrame, MediaFfmpegError>)
    ensures
        rgba@.len() == width * height * 4 ==> out is Ok && out->Ok_0.width == width
            && out->Ok_0.height == height && out->Ok_0.rgba == rgba
            && out->Ok_0.best_effort_timestamp == best_effort_timestamp && out->Ok_0.time_base
            == time_base,
        rgba@.len() != width * height * 4 ==> out is Err && reports_parse(
            out->Err_0,
            ParseFault {
                context: "decoded rgba size"@,
                value: frame_size_text((width * height * 4) as nat, rgba@.len()),
            },
        ),
{
    let got = rgba.len();
    match rgba_len(width, height) {
        Some(expected) => {
            if got == expected {
                return Ok(
                    DecodedVideoFrame { width, height, rgba, best_effort_timestamp, time_base },
                );
            }
        },
        None => {},
    }
    assert(0 <= width * height <= 0xFFFF_FFFF * 0xFFFF_FFFF) by (nonlinear_arith)
        requires
            0 <= width <= 0xFFFF_FFFF,
            0 <= height <= 0xFFFF_FFFF,
    ;
    let expected: u128 = (width as u128) * (height as u128) * 4;
    let mut value = String::new();
    push_text(&mut value, "expected ");
    push_wide_decimal(&mut value, expected);
    push_text(&mut value, " bytes, got ");
    push_decimal(&mut value, got as u64);
    assert(value@ =~= frame_size_text(expected as nat, got as nat));
    Err(MediaFfmpegError::Parse { context: "decoded rgba size", value })
}

} // verus!
