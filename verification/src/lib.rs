//! Verified core of the IceSpar renderer: input state, window resizing, vertex and
//! bind-group layouts, texture data preparation, mesh index assembly and the scene
//! traversal that pairs meshes with their materials.
pub mod bindgroup;
pub mod buffer_layout;
pub mod camera_control;
pub mod config;
pub mod input;
pub mod material;
pub mod mesh;
pub mod pipeline;
pub mod render;
pub mod scene;
pub mod texture;
pub mod window;
