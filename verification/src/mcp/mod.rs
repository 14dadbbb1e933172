pub mod protocol;
pub mod filesystem_provider;
