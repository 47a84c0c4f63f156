//! Request/response correlation over a push-only wireless characteristic.

pub mod connection;
pub mod device;
pub mod dispatcher;
pub mod error;
pub mod frame;
pub mod registry;
pub mod request_id;
