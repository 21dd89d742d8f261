//! Pong Core durable state and control primitives: the decision logic,
//! encodings and bounded state machines behind the repository, the
//! content-addressed store, the redaction policy and the external Agent
//! protocol, each stated as a contract and proved.
pub mod canonical;
pub mod control;
pub mod core_service;
pub mod records;
pub mod cas;
pub mod path;
pub mod protocol;
pub mod environment;
pub mod error;
pub mod http_transport;
pub mod json;
pub mod redaction;
pub mod remote;
pub mod remote_client;
pub mod replace;
pub mod repository;
pub mod text;

use vstd::prelude::*;

verus! {

} // verus!
