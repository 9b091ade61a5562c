pub mod flow;
pub mod group;

pub use flow::{Flow, RefreshPlan};
pub use group::FlowGroup;
