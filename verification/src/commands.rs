//! The command types of the compact format and their framing.

pub mod add;
pub mod add_command;
pub mod command_util;
pub mod commands_enum;
pub mod copy;
pub mod copy_command;
pub mod reference_command;
pub mod remove_command;
