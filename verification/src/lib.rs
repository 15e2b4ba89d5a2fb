//! Resolution of the transitive dependency set of a Maven artifact.
//!
//! The crate holds the decisions of a resolver: how a coordinate maps to a
//! repository address, what a manifest's effective coordinate is, which of its
//! declared dependencies are followed, and how the set of resolved coordinates
//! grows from one fetched manifest to the next. Fetching and decoding are left
//! to the caller, who hands each reply to the [`pom::resolver::Resolver`].
//!
//! Beside the resolver stand the smaller decisions of the bootstrapper that
//! uses it: what a configuration names, where a Java runtime for a platform
//! is downloaded from, and whether a later release of the program exists.
pub mod config;
pub mod jre;
pub mod pom;
pub mod self_update;
