//! Chronos Engine core library: entities, components, the ECS world, the
//! editor's undo history, project management and editor data models.

pub mod entity;
pub mod component;
pub mod world;
pub mod text;
pub mod float_text;
pub mod undo;
pub mod io_support;
pub mod project;
pub mod editor;
pub mod asset;
pub mod keyed;
pub mod audio;
pub mod editor_panels;
pub mod cli;
pub mod editor_app;
pub mod demo;
pub mod editor_workspace;
pub mod error;
pub mod animation;
