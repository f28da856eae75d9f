//! Chunked file transfer: manifests, chunks, assembly, and the two ends of a transfer.
pub mod assembly;
pub mod manifest;
pub mod paths;
pub mod session;

pub use assembly::{add_chunk, assemble_chunks, check_digest, chunk_bytes};
pub use manifest::{
    validate_chunk_size, ChunkDescriptor, FileChunk, FileManifest, ResumeState, DEFAULT_CHUNK_SIZE,
    MAX_CHUNK_SIZE,
};
pub use paths::{check_relative, safe_join};
pub use session::{FileReceiver, FileSender, SendStep};
