//! What the back end rejects.

use crate::ir::types::{Dtype, Ty};
use vstd::prelude::*;

verus! {

/// Why no assembly was generated.
#[derive(Debug)]
pub enum Error {
    /// A type that has no place in memory or in a register here.
    UnsupportedDtype { dtype: Dtype },
}

impl Error {
    /// The type that the error is about.
    pub open spec fn ty(self) -> Ty {
        match self {
            Error::UnsupportedDtype { dtype } => dtype@,
        }
    }
}

} // verus!
