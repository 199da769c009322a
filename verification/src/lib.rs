//! Verified core of a video-library catalog: path handling, thumbnail file
//! naming, scan/watch/import decisions and the catalog records they produce.

pub mod text;
pub mod long_path;
pub mod win_path;
pub mod thumbnail_paths;
pub mod records;
pub mod dedup;
pub mod events;
pub mod scan;
pub mod generation;
pub mod watch;
pub mod settings;
pub mod probe;
pub mod wb_import;
pub mod migration;
pub mod video_query;
