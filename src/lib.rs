//! A WebGL2 rendering backend's translation layer: format tables, shader layout reflection,
//! binding slot allocation and the state decisions of render passes.
pub mod formats;
pub mod gl;
pub mod slots;
pub mod annotations;
pub mod shader;
pub mod layout;
pub mod resources;
pub mod pipeline;
pub mod pass;
pub mod graph;
pub mod table;
