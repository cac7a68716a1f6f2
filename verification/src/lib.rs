pub mod buffer;
pub mod dns;
