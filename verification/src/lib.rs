//! A media acquisition pipeline: recognize social-media links in message
//! text, fetch the referenced media through per-platform fetch tools run in
//! an ephemeral workspace, classify what they produced, and pick exactly one
//! best file to deliver.

pub mod comments;
pub mod config;
pub mod download;
pub mod error;
pub mod handler;
pub mod handlers;
pub mod media;
pub mod select;
pub mod text;
pub mod validate;

pub use error::Error;
pub use media::MediaKind;
