//! Content acquisition engine of an e621 downloader: tag resolution, page
//! grabbing with deduplication and blacklist filtering, retry policies and
//! download planning, each stated as verified logic over plain values.

pub mod text;
pub mod tag;
pub mod resolve;
pub mod blacklist;
pub mod grabber;
pub mod request;
pub mod download;
pub mod cli;
pub mod program;
