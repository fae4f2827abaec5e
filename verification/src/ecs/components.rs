pub mod mesh_component;
pub mod physics_component;
pub mod text_component;
