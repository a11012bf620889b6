pub mod with_default;
pub mod with_panic;
