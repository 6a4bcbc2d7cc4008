//! A character-cell screen driven by component calls from a Lua program.
pub mod std_calls;
pub mod color;
pub mod label;
pub mod laws;
pub mod component;
pub mod lua_text;
pub mod screen;
pub mod value;
