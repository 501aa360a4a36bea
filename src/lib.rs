//! Filesystem-tree comparison: the decisions of an engine that checks two
//! trees for structural and byte-for-byte identity. Whoever drives the engine
//! does the reading: it hands over metadata, directory listings, link targets
//! and chunks of content, and gets back what to do next or the outcome.

pub mod comparison;
pub mod config;
pub mod content;
pub mod engine;
pub mod inodes;
pub mod laws;
pub mod path;
pub mod range_chunks;
pub mod text;

pub use comparison::{Comparison, Diff};
pub use config::Config;
pub use content::{
    calc_chunk_count, calc_leap, chunk_diff, get_diff_index, subslice, ContentPlan, BLOCK_SIZE,
    BUF_SIZE, BUF_SIZE_U64,
};
pub use engine::{file_kind, metadata_diff, DirStep, FSCmp, FileKind, Step};
pub use inodes::{entry_get, InodeMaps, Registration};
pub use path::{ChildLocation, EntryInfo, Stat};
pub use range_chunks::{ChunkableRange, RangeChunks, RangeChunksView};
pub use text::{format_block, format_diff, format_diff_contents};
