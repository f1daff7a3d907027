//! Generation of `From` / `Into` conversions between two types whose members
//! match by name (named members), by position (tuple members) or by variant
//! name (enums).
//!
//! The declaration is handed over as plain values ([`DeriveInput`]); the
//! library decides which conversions are requested, plans how a value is taken
//! apart and rebuilt, and renders each conversion as Rust source text.
pub mod convert;
pub mod directive;
pub mod error;
pub mod plan;
pub mod shape;
pub mod text;
pub mod value;

pub use convert::{convert_by_name, Convert, DeriveInput};
pub use directive::{Attribute, ConvertOpts};
pub use error::ConvertError;
pub use plan::{template_from, template_into};
pub use shape::{ConvertData, Data, Fields, Variant};
pub use text::concat_tokens;
pub use value::{Members, Value};
