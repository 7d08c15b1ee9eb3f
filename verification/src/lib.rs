//! Declarative checking of JSON-shaped response bodies for REST API tests.
//!
//! The crate revolves around a small pattern language. A pattern source text
//! is parsed into a [`pattern::Pattern`], its bindings are compiled into
//! extraction paths, the pattern is matched structurally against a
//! [`value::Value`], and the bound sub-values are converted to their
//! requested scalar types. [`api::assert_body_matches`] runs the whole
//! pipeline. [`context::Context`] and [`request::Request`] describe the
//! request whose response body is checked; performing it is left to the I/O
//! layer around this library.

use vstd::prelude::*;

pub mod api;
pub mod bindings;
pub mod context;
pub mod extract;
pub mod laws;
pub mod matcher;
pub mod parse;
pub mod pattern;
pub mod request;
pub mod tokens;
pub mod url;
pub mod value;

pub use api::assert_body_matches;
pub use context::Context;
pub use request::Request;

verus! {

} // verus!
