//! What the system allows the app to do.
use vstd::prelude::*;

verus! {

/// What the permission panel shows.
pub struct PermissionStatus {
    /// Whether synthesized keystrokes (typing into other apps) are allowed.
    pub accessibility: bool,
}

/// Whether the app may synthesize keystrokes: only macOS asks for the Accessibility
/// permission.
pub fn accessibility_trusted() -> (r: bool)
    ensures
        r,
{
    true
}

/// The current permission status.
pub fn status() -> (r: PermissionStatus)
    ensures
        r.accessibility,
{
    PermissionStatus { accessibility: accessibility_trusted() }
}

/// Asks for the Accessibility permission, which only macOS withholds: granted here.
pub fn request_accessibility() -> (r: bool)
    ensures
        r,
{
    true
}

} // verus!
