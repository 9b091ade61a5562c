pub mod empty;
pub mod interval;

pub use empty::Empty;
pub use interval::Interval;
