//! Stacks client videos over dummy videos by filling the placeholders of an
//! ffmpeg command line. The library holds the checks made on the settings, the
//! reading of the file of commands and the building of every command; the
//! program around it does the file system work and runs the commands.

pub mod args;
pub mod error;
pub mod text;
pub mod command_builder;
pub mod validation;
pub mod laws;
