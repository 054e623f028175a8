//! The app in the foreground.
use vstd::prelude::*;

verus! {

/// Name of the app in the foreground, which a shortcut dictation is about to type into.
/// Only macOS reports one.
pub fn frontmost_app() -> (r: Option<String>)
    ensures
        r is None,
{
    None
}

} // verus!
