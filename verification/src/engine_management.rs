pub mod rendering_management;
