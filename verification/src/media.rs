//! What a backend built on the FFmpeg command-line tools needs besides
//! running them: the rules on an export request, the filter graph that
//! renders it, the choice of the frame to decode, and the reading of what
//! the probe tool prints.

pub mod decode;
pub mod error;
pub mod mux;
pub mod probe;
