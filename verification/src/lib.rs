//! Context runtime: gathers the governed sources for a code-fix target,
//! builds the code-native payloads behind each bundle ref, and serves
//! admitted payloads from an in-process bundle store.

pub mod text;
pub mod clock;
pub mod error;
pub mod config;
pub mod gather;
pub mod payload;
pub mod assemble;
pub mod store;
pub mod http;
