//! Turns forensic artifact records into canonical event documents and
//! batches them, keyed by a digest of their content, for bulk indexing.

pub mod content;
pub mod ecs;
pub mod evidence;
pub mod file;
pub mod index;
pub mod index_builder;
pub mod json;
pub mod macb;
pub mod order;
pub mod posix_file;
pub mod protocol;
pub mod timestamp;
pub mod windows_event;

pub use content::{content_id, ContentDocument};
pub use ecs::{DuplicateNamespace, EcsBuilder, Namespace};
pub use evidence::{EvidenceItemV1, EvidenceObjectV1, TimelineObject};
pub use file::{File, FileType};
pub use index::{evaluate_bulk_response, Batch, FlushReport, Index, IndexError};
pub use index_builder::{Credentials, IndexBuilder, WithHost};
pub use json::{JsonModel, JsonValue};
pub use macb::Macb;
pub use posix_file::PosixFile;
pub use protocol::Protocol;
pub use timestamp::{InvalidTimestamp, TimeZone, Timestamp};
pub use windows_event::{has_unique_keys, EventLevel, EventLevelError, WindowsEvent};
