//! The variable graph and its renderings.

pub mod variable_graph;
pub mod scopes;
pub mod dot_export;
pub mod svg_renderer;
pub mod interactive_svg;
pub mod timeline_animator;
