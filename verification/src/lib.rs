//! Layout and drawing of symbolic-expression trees as nested, flow-wrapped
//! boxes, in whole layout units.

pub mod draw;
pub mod expr;
pub mod folds;
pub mod graphics;
pub mod measure;
pub mod needed_space;
pub mod place;
pub mod renderfns;
pub mod shape;
pub mod sized_tree;
pub mod tree;

pub use expr::Expr;
pub use measure::{FixedMeasure, TextMeasure, TextSize, TextTable};
pub use needed_space::{NeededSpace, Space};
pub use sized_tree::{SizedTree, Tree};

pub use draw::{Color, DrawCmd};
pub use graphics::{Rect, Vec2};
pub use renderfns::{ListRenderFn, Paint, RenderFn, Select};
