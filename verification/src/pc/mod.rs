//! Conversion to and from the codepage 437 of the IBM PC: the dialect with
//! the control characters, with nothing to pass along.

pub mod decode;
pub mod encode;

pub use self::decode::{is_pc_cp437_or_ascii, pc_cp437_to_unicode, BorrowFromPcCp437, FromPcCp437};
pub use self::encode::{unicode_to_pc_cp437, IntoPcCp437, IntoPcCp437Error, PcCp437Error, ToPcCp437};
