//! Pool-based resource bookkeeping for a Vulkan rendering engine.

pub mod handles;
pub mod object_pool;
pub mod object_manager;
pub mod vk_types;
pub mod slot_pool;
pub mod error;
pub mod resource_pool;
pub mod data_structures;
pub mod mesh_type;
pub mod material_type;
pub mod pipeline_config;
pub mod pipeline_manager;
pub mod texture_manager;
pub mod text;
pub mod spawner;
pub mod pool_manager;
pub mod render_queue;
pub mod batch_renderer;
pub mod coordinates;
pub mod lighting;
pub mod swapchain;
pub mod sync;
pub mod device;
pub mod mipmap;
pub mod material_bindings;
pub mod depth_sort;
pub mod dynamic_coordinator;
pub mod descriptors;
pub mod cache_manager;
pub mod ui_buffers;
pub mod frame_cycle;
