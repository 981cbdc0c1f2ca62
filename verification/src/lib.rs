//! A verified core for the Perspective table engine: the view configuration
//! vocabulary (filter operators, sort directions, aggregates), the column data
//! types and their mapping to Arrow, schemas, and the message buffers that
//! multiplex a transport between tables.

pub mod text;
pub mod view_config;
pub mod dtype;
pub mod name_map;
pub mod api;
pub mod ffi;
pub mod transport;
