pub mod actions;
pub mod builtin_actions;
pub mod component;
pub mod components;
pub mod concepts;
pub mod entity;
pub mod material;
pub mod pipeline;
pub mod scene;
