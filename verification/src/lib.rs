pub mod chunk;
pub mod crc;
pub mod easy_br;
pub mod endian;
pub mod error;
pub mod filter;
pub mod inflate;
pub mod metadata;
pub mod png;
pub mod scanline;
pub mod stream;
