//! Identifiers of a federated social-networking protocol: namespace ids,
//! handles, decentralized identifiers, timestamp identifiers, record keys,
//! `at://` resource URIs, and the resolution of schema references to fully
//! qualified type identifiers.

pub mod codec;
pub mod concrete;
pub mod container;
pub mod did;
pub mod document;
pub mod handle;
pub mod identifier;
pub mod meta;
pub mod ns;
pub mod rkey;
pub mod rpc;
mod strutil;
pub mod tid;
pub mod uri;
