//! Failures of the media backend.

use vstd::prelude::*;
use crate::text::{push_signed_decimal, push_text, signed_decimal, trim, trim_spec};

verus! {

/// Error type for media probing, decoding and exporting.
///
/// What the operating system or a tool reported is carried as text.
#[derive(Debug)]
pub enum MediaFfmpegError {
    InvalidRational { num: i32, den: i32 },
    /// A frame was asked for at a position before zero.
    InvalidTimestamp { source_tl: i64 },
    MissingVideoStream(String),
    MissingVideoDimensions(String),
    InvalidExportRequest { reason: &'static str },
    Io { context: &'static str, source: String },
    CommandFailed { command: String, status: String, stderr: String },
    Utf8(String),
    Parse { context: &'static str, value: String },
}

impl MediaFfmpegError {
    /// The text that describes the error to a person.
    pub open spec fn message_text(self) -> Seq<char> {
        match self {
            MediaFfmpegError::InvalidRational { num, den } => "invalid rational "@
                + signed_decimal(num as int) + "/"@ + signed_decimal(den as int),
            MediaFfmpegError::InvalidTimestamp { source_tl } => "invalid timestamp: "@
                + signed_decimal(source_tl as int),
            MediaFfmpegError::MissingVideoStream(path) => "video stream not found: "@ + path@,
            MediaFfmpegError::MissingVideoDimensions(path) => "video dimensions missing: "@
                + path@,
            MediaFfmpegError::InvalidExportRequest { reason } => "invalid export request: "@
                + reason@,
            MediaFfmpegError::Io { context, source } => context@ + ": "@ + source@,
            MediaFfmpegError::CommandFailed { command, status, stderr } => "command failed ("@
                + status@ + "): "@ + command@ + "; stderr: "@ + trim_spec(stderr@),
            MediaFfmpegError::Utf8(source) => "utf8 decode error: "@ + source@,
            MediaFfmpegError::Parse { context, value } => "parse error ("@ + context@ + "): "@
                + value@,
        }
    }

    /// Renders the error as text for a person.
    pub fn message(&self) -> (out: String)
        ensures
            out@ == self.message_text(),
    {
        let mut out = String::new();
        match self {
            MediaFfmpegError::InvalidRational { num, den } => {
                push_text(&mut out, "invalid rational ");
                push_signed_decimal(&mut out, *num as i64);
                push_text(&mut out, "/");
                push_signed_decimal(&mut out, *den as i64);
            },
            MediaFfmpegError::InvalidTimestamp { source_tl } => {
                push_text(&mut out, "invalid timestamp: ");
                push_signed_decimal(&mut out, *source_tl);
            },
            MediaFfmpegError::MissingVideoStream(path) => {
                push_text(&mut out, "video stream not found: ");
                push_text(&mut out, path.as_str());
            },
            MediaFfmpegError::MissingVideoDimensions(path) => {
                push_text(&mut out, "video dimensions missing: ");
                push_text(&mut out, path.as_str());
            },
            MediaFfmpegError::InvalidExportRequest { reason } => {
                push_text(&mut out, "invalid export request: ");
                push_text(&mut out, reason);
            },
            MediaFfmpegError::Io { context, source } => {
                push_text(&mut out, context);
                push_text(&mut out, ": ");
                push_text(&mut out, source.as_str());
            },
            MediaFfmpegError::CommandFailed { command, status, stderr } => {
                push_text(&mut out, "command failed (");
                push_text(&mut out, status.as_str());
                push_text(&mut out, "): ");
                push_text(&mut out, command.as_str());
                push_text(&mut out, "; stderr: ");
                push_text(&mut out, trim(stderr.as_str()));
            },
            MediaFfmpegError::Utf8(source) => {
                push_text(&mut out, "utf8 decode error: ");
                push_text(&mut out, source.as_str());
            },
            MediaFfmpegError::Parse { context, value } => {
                push_text(&mut out, "parse error (");
                push_text(&mut out, context);
                push_text(&mut out, "): ");
                push_text(&mut out, value.as_str());
            },
        }
        assert(out@ =~= self.message_text());
        out
    }
}

} // verus!
