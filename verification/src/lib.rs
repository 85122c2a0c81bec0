//! fadfada computes deterministic, time-ordered plans of retrieval requests
//! over multiple content sources.
//!
//! A caller populates a [control::Controller] with [source::Source]s (order is
//! significant) and a [resolver::Resolver] registry with one resolver item per
//! engine.  Generating then turns that state into a collision-free
//! [control::graph::ControllerGraph]: a mapping from millisecond offset to the
//! resolved request URL and its originating engine, which an external executor
//! can fire at the indicated offsets.

/// Entry-point object that orchestrates order and timing of requests.
pub mod control;

/// A single endpoint in a source structure.
pub mod endpoint;

/// Hex encoding and decoding of content digests.
pub mod hexcode;

/// Manages keys used for content verification.
pub mod keystore;

/// Resolves a content resource to the pointer depending on source context.
pub mod resolver;

/// Represents a content source backed by a storage engine.
pub mod source;

/// Defines query schedules for content sources.
pub mod timing;

/// Validates content after delivery.
pub mod validator;

/// Resolver and validator implementations for plain web servers addressed by
/// sha256 content digests.
pub mod web2;
