//! Conversion between length-delimited binary request/response bodies and the
//! native operation and result values of a key-management service.
pub mod varint;
pub mod wire;
pub mod fields;
pub mod status;
pub mod requests;
pub mod algorithm;
pub mod key_attributes;
pub mod operations;
pub mod convert;
pub mod operations_protobuf;
