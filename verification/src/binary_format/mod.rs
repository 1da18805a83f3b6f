//! The binary TextGrid format (`ooBinaryFile`).
use vstd::prelude::*;

use crate::model::ascii_bytes;

pub mod be;
pub mod deserializer;
pub mod laws;
pub mod serializer;
pub mod trailing;

pub use deserializer::{deserialize, DeserializeError};
pub use serializer::{serialize, SerializeError};

verus! {

/// The bytes that open every binary file: `ooBinaryFile`.
pub open spec fn oo_binary_file_magic() -> Seq<u8> {
    ascii_bytes("ooBinaryFile"@)
}

/// The object class name of a TextGrid: `TextGrid`.
pub open spec fn object_class_name() -> Seq<u8> {
    ascii_bytes("TextGrid"@)
}

} // verus!
