//! A voice companion's logic: characters, long-term memory, the realtime
//! session's turn-taking, subtitles, backups and shared character files,
//! each decision with a contract Verus proves.

pub mod audio;
pub mod avatar;
pub mod backup;
pub mod character;
pub mod checks;
pub mod commands;
pub mod dashscope;
pub mod encoding;
pub mod i18n;
pub mod image;
pub mod llm;
pub mod memory;
pub mod prompt;
pub mod secrets;
pub mod session;
pub mod message;
pub mod share;
pub mod subtitle;
pub mod text;
pub mod voice;
