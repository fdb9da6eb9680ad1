//! Identifiers of windows and devices.
use vstd::prelude::*;

verus! {

/// Identifies an input device. There is only one kind, so it carries nothing.
#[derive(Debug, Copy, Clone, PartialEq, Eq, PartialOrd, Ord, Hash)]
pub struct DeviceId;

/// Identifies a window by the address of its surface.
#[derive(Debug, Copy, Clone, PartialEq, Eq, PartialOrd, Ord, Hash)]
pub struct WindowId(pub usize);

/// The identifier of the window that draws to the surface at address `surface`.
pub fn make_wid(surface: usize) -> (wid: WindowId)
    ensures
        wid == WindowId(surface),
{
    WindowId(surface)
}

/// Windows have the same identifier exactly where they draw to the same surface.
pub proof fn law_identifiers_tell_surfaces_apart(
    one: usize,
    other: usize,
    wid: WindowId,
    other_wid: WindowId,
)
    requires
        call_ensures(make_wid, (one,), wid),
        call_ensures(make_wid, (other,), other_wid),
    ensures
        wid.0 == one,
        wid == other_wid <==> one == other,
{
}

} // verus!
