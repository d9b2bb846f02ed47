//! Editing core of a single-track non-linear video editor.
//!
//! The library holds the timeline and its timestamp-exact edits, the
//! rescaling between clocks, the preview frame cache, the export plan and
//! the command surface, together with what a backend built on the FFmpeg
//! tools needs besides running them, and the editor screen as a state
//! machine.

pub mod api;
pub mod cache;
pub mod error;
pub mod export;
pub mod media;
pub mod persistence;
pub mod preview;
pub mod project;
pub mod screen;
pub mod text;
pub mod time;
pub mod timeline;
pub mod ui;

pub use api::{
    Command, Engine, EngineErrorEvent, EngineErrorKind, Event, ExportSettings, ProjectSnapshot,
    DEFAULT_PREVIEW_CACHE_BUCKET_TL,
};
pub use error::EngineError;
pub use preview::{
    MediaBackend, PreviewFrame, PreviewPixelFormat, ProbedAudioStream, ProbedMedia,
    ProbedVideoStream,
};
pub use time::{rescale, timeline_time_base, Rational};
