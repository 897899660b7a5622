//! A client for calibre's smart device protocol: the wire format, the answers to calibre's
//! commands, and the session that strings them together.
pub mod answer_laws;
pub mod bindings;
pub mod decimal;
pub mod discovery;
pub mod error;
pub mod json;
pub mod logger;
pub mod message;
pub mod metadata;
pub mod operation_laws;
pub mod path;
pub mod program;
pub mod session;
pub mod session_laws;
pub mod settings;
pub mod smart_device_client;
pub mod text;
pub mod types;
pub mod view_laws;
pub mod wire;
