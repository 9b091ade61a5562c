pub mod cloneable;
pub mod non_null_ref;
pub mod raw_ref;

pub use cloneable::Cloneable;
pub use non_null_ref::NonNullRef;
pub use raw_ref::RawRef;
