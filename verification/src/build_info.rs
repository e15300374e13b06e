//! The build identity baked in when the application is compiled.

use vstd::prelude::*;

verus! {

/// When and for what target this build was made.
#[derive(Debug)]
pub struct BuildInfo {
    pub timestamp: String,
    pub version: String,
    pub target: String,
}

} // verus!
