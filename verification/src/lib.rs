//! Redactor: the logic behind on-screen redaction boxes that vanish once a
//! screenshot or screen recording completes.

pub mod fingerprint;
pub mod bytes;
pub mod capture;
pub mod text;
pub mod dirs;
pub mod paths;
pub mod watcher;
pub mod redactor;
pub mod settings;
pub mod debug;
pub mod log;
