pub mod events;
pub mod gui;
pub mod io;
pub mod model;
pub mod render;
pub mod shatter;
pub mod sync;
