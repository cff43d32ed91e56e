pub mod device;
pub mod controls;
pub mod requests;
pub mod swapchain;
pub mod model_memory;
pub mod texture_layout;
pub mod memory_type;
