//! Packs a file or a directory into one archive and plans its transfer to a
//! remote host: archive building, content digests, the transfer engine and
//! the retry supervisor, each with a machine-checked contract.

pub mod archive;
pub mod compress;
pub mod config;
pub mod digest;
pub mod error;
pub mod input;
pub mod retry;
pub mod text;
pub mod upload;
