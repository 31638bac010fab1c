pub mod chat;
pub mod emoji;
pub mod markdown;
pub mod settings;
pub mod transcript;
pub mod app_state;
