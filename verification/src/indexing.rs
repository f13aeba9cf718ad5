//! Indexing a source: which files a run takes, the one traversal per file
//! that feeds the checksum and the loudness analysis, the catalog record
//! that comes of it, and the run that writes a source's records back.

pub mod record;
pub mod run;
pub mod scan;
pub mod traversal;
