//! Layout: size rules, their algebra, and the division of space

pub mod align;
pub mod row;
pub mod size_rules;
pub mod sizer;
pub mod solver;

pub use align::{Align, AlignHints, AxisInfo, Direction};
pub use row::{LayoutData, RowLayout, RowSetter, RowSolver, RulesSetter, RulesSolver};
pub use size_rules::{Margins, SizeRules, StretchPolicy};
pub use sizer::solve_size_rules;
pub use solver::solve_seq;
