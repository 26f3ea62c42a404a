//! A fixed-capacity string that keeps up to 23 bytes of UTF-8 text inline.

pub mod ascii;
pub mod error;
pub mod nano_str;

pub use error::OversizedError;
pub use nano_str::NanoStr;
