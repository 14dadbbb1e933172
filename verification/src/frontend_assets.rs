//! The table of frontend files served from memory.
use vstd::prelude::*;

verus! {

#[derive(Debug, Clone, Copy)]
pub struct EmbeddedAsset {
    pub path: &'static str,
    pub bytes: &'static [u8],
    pub mime: &'static str,
}

/// The embedded frontend files.  This crate is built without a frontend
/// bundle, so the table is empty and the browser router serves the frontend
/// from its directory instead.
pub fn embedded_frontend_assets() -> (r: &'static [EmbeddedAsset])
    ensures
        r@.len() == 0,
{
    &[]
}

} // verus!
