//! The core of a desktop screen-capture utility: everything that is decided
//! between the moment a capture is asked for and the moment it is saved,
//! copied, announced and remembered.
//!
//! The library takes no picture, opens no file and draws no menu. The
//! application around it does that, and hands the library plain values: what
//! the capture backend tells of monitors and windows, the pixels it grabbed,
//! the entries of a directory, the outcome of each action. The library
//! answers with what is to be done next.
//!
//! - [`types`]: the records of captures, settings and history.
//! - [`error`]: the failures, their kinds and their sentences.
//! - [`text`]: character sequences, the model of every contract on text.
//! - [`clock`]: instants, and the texts that stand for them.
//! - [`capture`]: capture sources, the arithmetic of regions, file names.
//! - [`history`]: the bounded list of recent captures.
//! - [`preferences`]: the settings and the record they are stored as.
//! - [`commands`]: the steps that follow a capture, and the images that the
//!   user interface hands in.
//! - [`tray`]: the tray menu and the global shortcuts.

pub mod capture;
pub mod clock;
pub mod commands;
pub mod error;
pub mod history;
pub mod preferences;
pub mod sequences;
pub mod text;
pub mod tray;
pub mod types;
