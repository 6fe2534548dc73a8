//! String forms for the cases of an enumeration.
//!
//! Annotations on the type set a prefix, a suffix and a case style for the
//! text of every case; an annotation on a case renames that case outright:
//!
//! ```text
//! #[enum_stringify(prefix = "Pre", suffix = "Post", case = "upper_flat")]
//! enum Status {
//!     #[enum_stringify(rename = "okay")]
//!     Okk,        // "okay"
//!     Error3,     // "PREERROR3POST"
//! }
//! ```
//!
//! [`enum_stringify`] takes a [`Declaration`] and resolves the text of every
//! case, or reports the first malformed annotation. The resulting
//! [`NameTable`] renders a case to its text and reads a text back to its
//! case. The steps on the way are public too:
//!
//! - [`tokens`] parses a token list into `key = value` records;
//! - [`attribute`] decodes a record into an [`Attribute`];
//! - [`attributes`] folds the attributes of the type into [`Attributes`],
//!   where the last value of a key wins;
//! - [`variants`] finds the rename of each case, the last one again, and
//!   puts the texts together;
//! - [`case`] converts a text into a case style;
//! - [`laws`] states what holds of the result for every declaration.

pub mod attribute;
pub mod attributes;
pub mod case;
pub mod declaration;
pub mod error;
pub mod laws;
pub mod names;
pub mod text;
pub mod tokens;
pub mod variants;

pub use crate::attribute::Attribute;
pub use crate::attributes::Attributes;
pub use crate::case::Case;
pub use crate::declaration::Annotation;
pub use crate::declaration::Declaration;
pub use crate::declaration::Variant;
pub use crate::error::DecodeError;
pub use crate::error::Error;
pub use crate::error::ParseError;
pub use crate::names::enum_stringify;
pub use crate::names::NameTable;
pub use crate::variants::VariantRename;
pub use crate::variants::Variants;
