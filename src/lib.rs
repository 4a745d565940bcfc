pub mod laws;
pub mod machine;
pub mod model;
