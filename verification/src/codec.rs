//! The payload codec: the text format of requests and responses, its
//! encoder and its decoder.

pub mod decode;
pub mod delimiter;
pub mod encode;
pub mod error;
pub mod field;
pub mod json;
pub mod payload;
pub mod record;
pub mod value;
