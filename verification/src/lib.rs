//! Verified core of the Monora screen recorder: the data model, the
//! compositing of monitor frames onto one canvas, the naming of output files,
//! the recording-session state machine and the small numeric rules that the
//! capture, mixing and encoding pipeline follows.

pub mod timestamps;
pub mod models;
pub mod id_map;
pub mod text;
pub mod capture;
pub mod compositor;
pub mod preview;
pub mod library;
pub mod session;
pub mod muxer;
pub mod audio;
pub mod logging;
