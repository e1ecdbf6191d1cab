//! Serialization of data-model values into raw BSON bytes.

pub mod capacity;
pub mod compound;
pub mod element;
pub mod encoding;
pub mod error;
pub mod laws;
pub mod little_endian;
pub mod meaning;
pub mod model;
pub mod reading;
pub mod serializer;
pub mod steps;
pub mod text;
pub mod value;
