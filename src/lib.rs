//! I/O virtualization layer between document engines and the resources they
//! read and write: format-driven name resolution over a stack of providers,
//! per-invocation handle tables with content fingerprints, and the value
//! conventions of the engine call boundary.

// Names, formats and the byte-level helpers they need.
pub mod compress;
pub mod digest;
pub mod format;

// Providers, their resolution stack, and the session over it.
pub mod events;
pub mod handle;
pub mod provider;
pub mod session;
pub mod stack;
pub mod status;

// The engine's side of the boundary, and one invocation at a time.
pub mod bibtex;
pub mod bridge;
pub mod guard;

// Properties relating several operations.
pub mod laws;

// Leaf utilities of the PDF driver and the font reader.
pub mod dpxutil;
pub mod error;
pub mod hashtable;
pub mod image;
pub mod tfm;
