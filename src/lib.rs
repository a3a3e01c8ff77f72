//! Resolution of short-video and image-post share links into one canonical
//! media record.
pub mod text;
pub mod platform;
pub mod json;
pub mod record;
pub mod watermark;
pub mod adapters;
pub mod douyin;
pub mod resolve;
pub mod access;
pub mod boundary;
