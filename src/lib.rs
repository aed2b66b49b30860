//! Recording session engine: the audio codec of the capture helper, the
//! line protocol of the worker and installer, and the session state machine
//! that every command and event mutates.
pub mod audio;
pub mod codec;
pub mod models;
pub mod protocol;
pub mod session;
pub mod text;
