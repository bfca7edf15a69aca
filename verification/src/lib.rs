pub mod text;
pub mod settings;
pub mod languages;
pub mod transforms;
pub mod paths;
pub mod decimal;
pub mod clock;
pub mod history;
pub mod json;
pub mod transcribe_local;
pub mod transcribe_groq;
pub mod hotkey;
pub mod recorder;
pub mod login;
pub mod audio;
pub mod overlay;
