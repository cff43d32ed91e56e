pub mod assoc;
pub mod axis;
pub mod button;
pub mod cb;
pub mod change;
pub mod hal;
pub mod pos;
