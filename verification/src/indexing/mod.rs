pub mod content;
pub mod raw;
pub mod serializable;
pub mod store;
pub mod validated;
