//! Typed failures of engine operations.

use vstd::prelude::*;
use crate::media::error::MediaFfmpegError;
use crate::text::{decimal, push_decimal, push_signed_decimal, push_text, signed_decimal};

verus! {

/// Errors produced by engine commands and timeline operations.
///
/// Failures that come from outside the engine (file access, the document
/// codec) are carried as the text their source gave.
#[derive(Debug)]
pub enum EngineError {
    /// A command that needs a project arrived before any import.
    ProjectNotLoaded,
    /// No segment covers the tick.
    SegmentNotFound { at_tl: i64 },
    /// No segment has the id.
    SegmentIdNotFound { segment_id: u64 },
    /// The tick is the start or the end of a segment.
    SplitPointAtBoundary { at_tl: i64 },
    MissingAsset { asset_id: u64 },
    MissingVideoStream { asset_id: u64 },
    MissingAudioStream { asset_id: u64 },
    MissingVideoRange { segment_id: u64 },
    MissingAudioRange { segment_id: u64 },
    InvalidVideoRange { segment_id: u64, src_in_video: i64, src_out_video: i64 },
    InvalidAudioRange { segment_id: u64, src_in_audio: i64, src_out_audio: i64 },
    MissingDuration(String),
    MissingVideoDimensions(String),
    MissingAudioMetadata(String),
    InvalidRational { num: i32, den: i32 },
    /// Every id the engine can hand out is in use.
    IdSpaceExhausted,
    ProjectIo { context: String, path: String, source: String },
    ProjectSerialization { path: String, source: String },
    InvalidProjectFile { reason: String },
    /// A failure of the media backend.
    Media(MediaFfmpegError),
}


impl EngineError {
    /// The text that describes the error to a person.
    pub open spec fn message_text(self) -> Seq<char> {
        match self {
            EngineError::ProjectNotLoaded => "project is not loaded"@,
            EngineError::SegmentNotFound { at_tl } => "segment not found at timeline timestamp "@
                + signed_decimal(at_tl as int),
            EngineError::SegmentIdNotFound { segment_id } => "segment id not found: "@ + decimal(
                segment_id as nat,
            ),
            EngineError::SplitPointAtBoundary { at_tl } => "cannot split at segment boundary: "@
                + signed_decimal(at_tl as int),
            EngineError::MissingAsset { asset_id } => "asset not found: "@ + decimal(
                asset_id as nat,
            ),
            EngineError::MissingVideoStream { asset_id } => "video stream missing in asset "@
                + decimal(asset_id as nat),
            EngineError::MissingAudioStream { asset_id } => "audio stream missing in asset "@
                + decimal(asset_id as nat),
            EngineError::MissingVideoRange { segment_id } => "video range missing in segment "@
                + decimal(segment_id as nat),
            EngineError::MissingAudioRange { segment_id } => "audio range missing in segment "@
                + decimal(segment_id as nat),
            EngineError::InvalidVideoRange { segment_id, src_in_video, src_out_video } =>
                "invalid video range in segment "@ + decimal(segment_id as nat) + ": "@
                    + signed_decimal(src_in_video as int) + ".."@ + signed_decimal(
                    src_out_video as int,
                ),
            EngineError::InvalidAudioRange { segment_id, src_in_audio, src_out_audio } =>
                "invalid audio range in segment "@ + decimal(segment_id as nat) + ": "@
                    + signed_decimal(src_in_audio as int) + ".."@ + signed_decimal(
                    src_out_audio as int,
                ),
            EngineError::MissingDuration(path) => "media duration is missing: "@ + path@,
            EngineError::MissingVideoDimensions(path) => "video dimensions are missing: "@
                + path@,
            EngineError::MissingAudioMetadata(path) => "audio metadata is missing: "@ + path@,
            EngineError::InvalidRational { num, den } => "invalid rational "@ + signed_decimal(
                num as int,
            ) + "/"@ + signed_decimal(den as int),
            EngineError::IdSpaceExhausted => "no identifier is left to assign"@,
            EngineError::ProjectIo { context, path, source } => context@ + ": "@ + path@ + " ("@
                + source@ + ")"@,
            EngineError::ProjectSerialization { path, source } =>
                "project serialization/deserialization failed at "@ + path@ + " ("@ + source@
                    + ")"@,
            EngineError::InvalidProjectFile { reason } => "invalid project file: "@ + reason@,
            EngineError::Media(error) => "media backend error: "@ + error.message_text(),
        }
    }

    /// Renders the error as text for a person.
    pub fn message(&self) -> (out: String)
        ensures
            out@ == self.message_text(),
    {
        let mut out = String::new();
        match self {
            EngineError::ProjectNotLoaded => {
                push_text(&mut out, "project is not loaded");
            },
            EngineError::SegmentNotFound { at_tl } => {
                push_text(&mut out, "segment not found at timeline timestamp ");
                push_signed_decimal(&mut out, *at_tl);
            },
            EngineError::SegmentIdNotFound { segment_id } => {
                push_text(&mut out, "segment id not found: ");
                push_decimal(&mut out, *segment_id);
            },
            EngineError::SplitPointAtBoundary { at_tl } => {
                push_text(&mut out, "cannot split at segment boundary: ");
                push_signed_decimal(&mut out, *at_tl);
            },
            EngineError::MissingAsset { asset_id } => {
                push_text(&mut out, "asset not found: ");
                push_decimal(&mut out, *asset_id);
            },
            EngineError::MissingVideoStream { asset_id } => {
                push_text(&mut out, "video stream missing in asset ");
                push_decimal(&mut out, *asset_id);
            },
            EngineError::MissingAudioStream { asset_id } => {
                push_text(&mut out, "audio stream missing in asset ");
                push_decimal(&mut out, *asset_id);
            },
            EngineError::MissingVideoRange { segment_id } => {
                push_text(&mut out, "video range missing in segment ");
                push_decimal(&mut out, *segment_id);
            },
            EngineError::MissingAudioRange { segment_id } => {
                push_text(&mut out, "audio range missing in segment ");
                push_decimal(&mut out, *segment_id);
            },
            EngineError::InvalidVideoRange { segment_id, src_in_video, src_out_video } => {
                push_text(&mut out, "invalid video range in segment ");
                push_decimal(&mut out, *segment_id);
                push_text(&mut out, ": ");
                push_signed_decimal(&mut out, *src_in_video);
                push_text(&mut out, "..");
                push_signed_decimal(&mut out, *src_out_video);
            },
            EngineError::InvalidAudioRange { segment_id, src_in_audio, src_out_audio } => {
                push_text(&mut out, "invalid audio range in segment ");
                push_decimal(&mut out, *segment_id);
                push_text(&mut out, ": ");
                push_signed_decimal(&mut out, *src_in_audio);
                push_text(&mut out, "..");
                push_signed_decimal(&mut out, *src_out_audio);
            },
            EngineError::MissingDuration(path) => {
                push_text(&mut out, "media duration is missing: ");
                push_text(&mut out, path.as_str());
            },
            EngineError::MissingVideoDimensions(path) => {
                push_text(&mut out, "video dimensions are missing: ");
                push_text(&mut out, path.as_str());
            },
            EngineError::MissingAudioMetadata(path) => {
                push_text(&mut out, "audio metadata is missing: ");
                push_text(&mut out, path.as_str());
            },
            EngineError::InvalidRational { num, den } => {
                push_text(&mut out, "invalid rational ");
                push_signed_decimal(&mut out, *num as i64);
                push_text(&mut out, "/");
                push_signed_decimal(&mut out, *den as i64);
            },
            EngineError::IdSpaceExhausted => {
                push_text(&mut out, "no identifier is left to assign");
            },
            EngineError::ProjectIo { context, path, source } => {
                push_text(&mut out, context.as_str());
                push_text(&mut out, ": ");
                push_text(&mut out, path.as_str());
                push_text(&mut out, " (");
                push_text(&mut out, source.as_str());
                push_text(&mut out, ")");
            },
            EngineError::ProjectSerialization { path, source } => {
                push_text(&mut out, "project serialization/deserialization failed at ");
                push_text(&mut out, path.as_str());
                push_text(&mut out, " (");
                push_text(&mut out, source.as_str());
                push_text(&mut out, ")");
            },
            EngineError::InvalidProjectFile { reason } => {
                push_text(&mut out, "invalid project file: ");
                push_text(&mut out, reason.as_str());
            },
            EngineError::Media(error) => {
                push_text(&mut out, "media backend error: ");
                let text = error.message();
                push_text(&mut out, text.as_str());
            },
        }
        assert(out@ =~= self.message_text());
        out
    }
}

impl From<MediaFfmpegError> for EngineError {
    fn from(value: MediaFfmpegError) -> (out: Self) {
        EngineError::Media(value)
    }
}

impl vstd::std_specs::convert::FromSpecImpl<MediaFfmpegError> for EngineError {
    open spec fn obeys_from_spec() -> bool {
        true
    }

    open spec fn from_spec(value: MediaFfmpegError) -> Self {
        EngineError::Media(value)
    }
}

} // verus!
