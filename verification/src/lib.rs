use vstd::prelude::*;

pub mod app;
pub mod editor;
pub mod expression;
pub mod functions;
pub mod graph;
pub mod input;
pub mod intersections;
pub mod keys;
pub mod number;
pub mod raster;
pub mod scene;
pub mod settings;
pub mod surface;
pub mod text;
pub mod ui;

verus! {
}
