pub mod color;
pub mod components;
pub mod layout;
