//! Single-writer, multi-reader append buffers under several publication
//! disciplines, and a 256-slot ring with an optimistic versioned snapshot.

pub mod buffer;
pub mod publish;
pub mod ring;
pub mod source;
