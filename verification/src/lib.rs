//! Core logic of the Read This text-to-speech tray reader: status values,
//! settings, text escaping and encoding, voice selection and the reader's
//! session state machine.

pub mod status;
pub mod text;
pub mod voices;
pub mod settings;
pub mod ssml;
pub mod encoding;
pub mod speech;
pub mod session;
pub mod input;
