//! Conversion between codepage 437 and Unicode.
//!
//! A dialect of codepage 437 is compiled from a list of primary mappings, a
//! list of variant mappings and an overlap rule. The compiled dialect decodes
//! single bytes, encodes single characters and can be remapped byte by byte.
//! Whole buffers are converted on top of these, without copying where the
//! input already is its own conversion.
//!
//! Use the `{Borrow,}FromCp437` traits to convert series of cp437 bytes to Unicode,
//! and `Cp437Dialect::decode()` to decode a single codepoint.
//!
//! Use the `{Into,To}Cp437` traits to convert Unicode to a series of cp437 bytes,
//! and `Cp437Dialect::encode()` to encode a single codepoint.

pub mod builtin;
pub mod charset;
pub mod decode;
pub mod dialect;
pub mod encode;
pub mod laws;
pub mod lookup;
pub mod mapping;
pub mod model;
pub mod overlap;
pub mod pc;
pub mod record;
pub mod text;

pub use self::builtin::{cp437_control, cp437_wingdings};
pub use self::decode::{BorrowFromCp437, FromCp437};
pub use self::dialect::{Cp437Dialect, InconsistentOverlap};
pub use self::encode::{Cp437Error, IntoCp437, IntoCp437Error, ToCp437};
pub use self::mapping::Mapping;
pub use self::overlap::Overlap;
pub use self::record::MappingError;
