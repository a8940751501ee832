pub mod command_input;
pub mod find_replace;
