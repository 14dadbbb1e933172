pub mod artifact_ref;
pub mod budget;
pub mod compiler;
pub mod manager;
pub mod memory;
pub mod summary;
pub mod transcript;
