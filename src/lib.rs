//! The message layer of a small HTTP/1.1 toolkit: reading a request from its
//! text, and building responses and writing them out as text.
use vstd::prelude::*;

pub mod headers;
pub mod request;
pub mod response;
pub mod text;

verus! {

} // verus!
