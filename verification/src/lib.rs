pub mod text;
pub mod card;
pub mod note;
pub mod claude_cli;
pub mod transcript;
pub mod trigger;
pub mod voice_ask;
pub mod lanes;
pub mod settings;
pub mod session;
