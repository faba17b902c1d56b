pub mod components;
pub mod context;
pub mod entities;
pub mod systems;
