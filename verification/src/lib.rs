//! Receive-side decoder for a binary message protocol whose frames pack a
//! method name and a protobuf payload into length/type-tagged blocks.
//!
//! A frame is classified by its leading byte, split into a method name and a
//! payload, and the payload is decoded against a schema that is looked up by
//! name in a descriptor catalog. Requests are remembered by their identifier
//! so that a response, which carries no name, is decoded against the response
//! type of the request it answers.
//!
//! Every function carries a contract, stated over the mathematical models in
//! each module, and Verus proves the contracts. The exceptions are the calls
//! into `bytes`, `serde_json`, `prost_reflect`, `base64` and two of `std`
//! (reading bytes as UTF-8, and printing the error of that): they are made
//! by small functions marked `external_body` in [`buffer`], [`json`],
//! [`schema`] and [`text`], whose contracts are believed. What those calls
//! compute is named, not defined; the contracts of the decoder say what it
//! does with the named results. An error of one of those calls is passed on
//! with the message that the call gave.
//!
//! A catalog is gone through once, when a resolver is made over it: the
//! payload decoder of `prost_reflect` does not return on a map field whose
//! entry type lacks its key or value field, so a catalog with such an entry
//! type gets no resolver, and nothing is decoded against it.
//!
//! * [`varint`]: base-128 variable-length integers.
//! * [`blocks`]: splitting a sub-buffer into blocks.
//! * [`cipher`]: the keyed XOR transform of nested payloads.
//! * [`text`]: UTF-8 names, splitting at a separator, base64.
//! * [`buffer`], [`json`]: byte buffers and structured values.
//! * [`schema`], [`resolver`]: looking schemas up and decoding payloads.
//! * [`table`]: the correlation table of pending requests.
//! * [`parser`]: the decoder itself.
//! * [`error`]: what can go wrong.

pub mod blocks;
pub mod buffer;
pub mod cipher;
pub mod error;
pub mod json;
pub mod parser;
pub mod resolver;
pub mod schema;
pub mod table;
pub mod text;
pub mod varint;
