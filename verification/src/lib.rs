//! The logic of a graphical `.deb` package installer.
//!
//! An unprivileged front end shows a package and asks a privileged backend to install it. The two
//! talk over pipes, one line at a time ([`protocol`]). The backend decides which lines to obey
//! ([`session`]), whether whoever asks is really the front end that started it ([`ancestry`]), in
//! which order an installation proceeds ([`job`]) and what to log of its downloads
//! ([`download`]). The front end makes the auth token and reads the backend's output
//! ([`frontend`]); the user interface shows what comes of it ([`installer`]).
//!
//! Nothing here performs input or output. Each function takes what was read and returns what is
//! to be written, logged or looked up, as plain values.
pub mod ancestry;
pub mod download;
pub mod frontend;
pub mod installer;
pub mod job;
pub mod launch;
pub mod log;
pub mod protocol;
pub mod session;
pub mod size;
pub mod text;
