//! Verified core of the CoD4 launcher: checksums of the game image,
//! the application-data layout, HTTP request setup and response handling,
//! the Miles32 loader's error reporting and the GitHub updater's
//! release and hash-list handling.

pub mod filesystem;
pub mod http;
pub mod iw3mp;
pub mod miles32;
pub mod text;
pub mod updater;
