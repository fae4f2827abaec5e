use vstd::prelude::*;

verus! {

/// Why the user interface could not be set up.
#[derive(Debug, PartialEq, Eq, Structural, Clone, Copy)]
pub enum UiError {
    FontFileLoadingError,
}

} // verus!
