pub mod digest;
pub mod merkle;
pub mod codec;
pub mod serialize;
pub mod contracts;
pub mod license;
pub mod transaction;
