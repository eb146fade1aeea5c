//! Schema inference and a columnar codec for records made of typed fields.
//!
//! A record declaration ([`template::StructDecl`]) is resolved into one column
//! descriptor per field ([`template::Template`]): its name, logical type
//! ([`dtype::DataType`]), nullability and conversions. The codec stores rows of
//! field values ([`value::Value`]) as one column per field and reads them back.

pub mod dtype;
pub mod text;
pub mod error;
pub mod rtype;
pub mod infer;
pub mod expr;
pub mod options;
pub mod template;
pub mod value;
pub mod codec;
pub mod render;
pub mod frame;
pub mod marshal;
