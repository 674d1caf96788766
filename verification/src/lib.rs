//! Fetching a package archive and unpacking it, without the I/O.
//!
//! The library decides and the caller performs. A download is a state
//! machine that is told what the network and the disk did and answers with
//! what to do next; the writer that bridges the network to the one worker
//! that owns the file is a queue and a task whose turns the caller runs; an
//! extraction is a list of files and directories to create below the
//! destination. What holds of them whatever happens is proved: the file of a
//! download that succeeded is the served chunks in order, a download that
//! failed leaves no file, and no archive entry is placed outside the
//! destination.

pub mod chunk;
pub mod codecs;
pub mod confirm;
pub mod download;
pub mod errors;
pub mod extract;
pub mod format;
pub mod http;
pub mod install_path;
pub mod paths;
pub mod queue;
pub mod task;
pub mod transfer;
pub mod writer;
