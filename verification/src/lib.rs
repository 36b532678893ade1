//! Collects BMP images that a code reader uploads over FTP and hands them to a
//! parent process.

pub mod attempt;
pub mod command_laws;
pub mod config;
pub mod config_laws;
pub mod decimal;
pub mod delivery_laws;
pub mod exchange;
pub mod frame;
pub mod ipv4;
pub mod line;
pub mod locate;
pub mod locate_laws;
pub mod pipeline;
pub mod pipeline_laws;
pub mod session;
pub mod session_laws;
pub mod setting_laws;
pub mod text;
pub mod text_laws;
pub mod validator;
pub mod validator_laws;
