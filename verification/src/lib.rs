pub mod entries;
pub mod format;
pub mod glob;
pub mod pack;
pub mod plan;
pub mod tar_archive;
pub mod text;
