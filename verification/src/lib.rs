//! A terminal UI toolkit core: geometry, styling, text wrapping, painting into a cell grid,
//! the node tree a renderer keeps, and the decision logic of the stock widgets.
pub mod geometry;
pub mod style;
pub mod props;
pub mod text;
pub mod paint;
pub mod arena;
pub mod render;
pub mod keys;
pub mod input;
pub mod widgets;
pub mod renderer;
pub mod session;
pub mod spinner;
