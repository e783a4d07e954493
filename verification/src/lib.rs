pub mod auth;
pub mod dispatch;
pub mod http;
pub mod json;
pub mod marshal;
pub mod roundtrip;
pub mod schema;
pub mod text;
pub mod transport;
