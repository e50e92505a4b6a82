//! The data and the file formats of a mod pack editor for a racing game.
//!
//! `apps` holds the configuration that the editor works on: gameplay
//! settings, cheat codes and the cup roster. `project` writes a
//! configuration as a project file and reads it back, and proves that what
//! was written is read back unchanged. `bundle` frames the compressed track
//! archives of a directory into one container. `icon` turns a picture file
//! into a cup icon. `wire` and `text` hold what these share.

pub mod apps;
pub mod bundle;
pub mod icon;
pub mod project;
pub mod text;
pub mod wire;
