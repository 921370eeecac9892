//! A DOM command buffer and event dispatcher, a reactive-transaction hook
//! registry, virtual DOM values and a Game of Life model.

pub mod dom_id;
pub mod text;
pub mod json;
pub mod command;
pub mod driver_data;
pub mod visited;
pub mod driver;
pub mod hooks;
pub mod css;
pub mod game_of_life;
pub mod vdom;
pub mod render;
pub mod laws;
