//! Platform logic of a Bevy runtime for the Magic Leap One headset: the
//! application lifecycle state machine, the frame loop decisions, the camera
//! roles, the log routing onto the device's logging levels, the reader that
//! turns the redirected standard output into log lines, and the file-less
//! asset source.
pub mod app_state;
pub mod asset_io;
pub mod camera;
pub mod frame;
pub mod log_pipe;
pub mod logging;

