//! Ownership visualisation for Rust sources: the parser's events, the
//! ownership/borrow/lifetime analyses over them, the variable graph, and
//! its DOT, SVG, interactive SVG and timeline renderings.

pub mod text;
pub mod assoc;
pub mod span;
pub mod analysis;
pub mod parser;
pub mod graph;
pub mod error;
pub mod report;
pub mod path;

pub use analysis::analyze;
pub use graph::dot_export::{DotConfig, DotExporter};
pub use graph::svg_renderer::{SvgConfig, SvgRenderer};
pub use graph::interactive_svg::InteractiveSvgRenderer;
pub use graph::timeline_animator::TimelineAnimator;
