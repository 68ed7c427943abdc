//! Reading-device highlight extraction, ebook cover resolution and durable settings.
pub mod covers;
pub mod device;
pub mod export;
pub mod extraction;
pub mod models;
pub mod settings;
pub mod text;
