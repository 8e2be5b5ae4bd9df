//! Role state management and exec-turn normalization for a command-line
//! front end that drives conversational-agent engines.
pub mod commands;
pub mod exec_result;
pub mod json;
pub mod role_name;
pub mod role_state;
pub mod text;
pub mod turn;
