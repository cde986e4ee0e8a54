//! A small blob-storage engine: binary payloads are addressed by a composite
//! key (identifier, filename) and persisted together with integrity and
//! descriptive metadata.  The engine covers content hashing, mime-type
//! inference, the codec between in-memory records and their stored row form,
//! a keyed row store, and the service that ties them together.

pub mod clock;
pub mod digest;
pub mod hexfmt;
pub mod ids;
pub mod mimetype;
pub mod pathname;
pub mod row;
pub mod service;
pub mod store;
pub mod strategy;
