//! Resolution of `xi:include` directives over streaming XML parse events.
//!
//! A document is modelled as the sequence of parse events a streaming parser
//! produces for it. Expansion walks that sequence in document order and
//! replaces every inclusion directive, recursively, by the expanded event
//! sequence of its target, resolving each `href` against the caller-supplied
//! reference context. Opening files, parsing bytes into events and writing
//! events back out as text are collaborators at the boundary: a caller reads
//! and parses each file the expansion asks for and hands the events in.

pub mod error;
pub mod event;
pub mod expand;
pub mod laws;
pub mod path;
