//! Where things are in the window: the page's part of it, and which surface a
//! pointer event belongs to.

use vstd::prelude::*;

verus! {

/// The size of a new window.
pub const INITIAL_WIDTH: u32 = 1280;

/// The size of a new window.
pub const INITIAL_HEIGHT: u32 = 800;

/// The width of the chrome to the left of the page, in logical pixels.
pub const VIEWPORT_LEFT: u32 = 316;

/// The height of the chrome above the page, in logical pixels.
pub const VIEWPORT_TOP: u32 = 44;

/// What `inset` leaves of `length`, but at least one pixel.
pub open spec fn remaining(length: nat, inset: nat) -> nat {
    if length > inset {
        (length - inset) as nat
    } else {
        1
    }
}

/// The size of the page in a window of this size: the window without the
/// chrome insets, and never less than one pixel either way.
pub fn viewport_size(width: u32, height: u32, inset_left: u32, inset_top: u32) -> (r: (u32, u32))
    ensures
        r.0 == remaining(width as nat, inset_left as nat),
        r.1 == remaining(height as nat, inset_top as nat),
{
    let w: u32 = width.saturating_sub(inset_left);
    let h: u32 = height.saturating_sub(inset_top);
    (if w == 0 { 1 } else { w }, if h == 0 { 1 } else { h })
}

/// A position in pixels.
#[derive(Debug, Clone, Copy, PartialEq, Eq, Structural)]
pub struct MousePosition {
    pub x: i32,
    pub y: i32,
}

/// The 32 bits of `v` as a signed number.
pub open spec fn signed(v: u32) -> int {
    if v < 0x8000_0000 {
        v as int
    } else {
        v - 0x1_0000_0000
    }
}

fn to_signed(v: u32) -> (r: i32)
    ensures
        r == signed(v),
{
    if v < 0x8000_0000 {
        v as i32
    } else {
        -((u32::MAX - v) as i32) - 1
    }
}

/// Whether the window position `(x, y)` is inside the page.
pub open spec fn in_page(
    x: i32,
    y: i32,
    width: u32,
    height: u32,
    inset_left: u32,
    inset_top: u32,
) -> bool {
    signed(inset_left) <= x < signed(width) && signed(inset_top) <= y < signed(height)
}

/// The position in the page of the window position `(x, y)`; `None` where it
/// belongs to the chrome.
pub fn page_local_coords(
    x: i32,
    y: i32,
    width: u32,
    height: u32,
    inset_left: u32,
    inset_top: u32,
) -> (r: Option<MousePosition>)
    requires
        in_page(x, y, width, height, inset_left, inset_top) ==> x - signed(inset_left) <= i32::MAX
            && y - signed(inset_top) <= i32::MAX,
    ensures
        match r {
            Some(p) => in_page(x, y, width, height, inset_left, inset_top) && p.x == x - signed(
                inset_left,
            ) && p.y == y - signed(inset_top),
            None => !in_page(x, y, width, height, inset_left, inset_top),
        },
{
    let left = to_signed(inset_left);
    let top = to_signed(inset_top);
    let right = to_signed(width);
    let bottom = to_signed(height);
    if x >= left && x < right && y >= top && y < bottom {
        Some(MousePosition { x: x - left, y: y - top })
    } else {
        None
    }
}

/// Which surface receives a pointer event.
#[derive(Debug, Clone, Copy, PartialEq, Eq, Structural)]
pub enum ClickTarget {
    /// The chrome page.
    Chrome,
    /// The active content page.
    ContentPage,
}

/// Which surface receives a pointer event: while an overlay of the chrome
/// captures input the chrome, wherever the pointer is; else the surface that
/// the pointer is over.
pub fn click_target(overlay_capturing: bool, page_local: Option<MousePosition>) -> (r: ClickTarget)
    ensures
        r == ClickTarget::ContentPage <==> !overlay_capturing && page_local is Some,
{
    if overlay_capturing {
        ClickTarget::Chrome
    } else if page_local.is_some() {
        ClickTarget::ContentPage
    } else {
        ClickTarget::Chrome
    }
}

/// A pointer event's surface, with the position on it.
#[derive(Debug, Clone, Copy, PartialEq, Eq, Structural)]
pub enum PointerRoute {
    /// To the chrome, at this position in the window.
    Chrome(MousePosition),
    /// To the active page, at this position in the page.
    Page(MousePosition),
}

/// The surface and the position that a pointer event at `(x, y)` goes to.
pub fn route_pointer(
    overlay_capturing: bool,
    x: i32,
    y: i32,
    width: u32,
    height: u32,
    inset_left: u32,
    inset_top: u32,
) -> (r: PointerRoute)
    requires
        in_page(x, y, width, height, inset_left, inset_top) ==> x - signed(inset_left) <= i32::MAX
            && y - signed(inset_top) <= i32::MAX,
    ensures
        match r {
            PointerRoute::Page(p) => !overlay_capturing && in_page(
                x,
                y,
                width,
                height,
                inset_left,
                inset_top,
            ) && p.x == x - signed(inset_left) && p.y == y - signed(inset_top),
            PointerRoute::Chrome(p) => p.x == x && p.y == y && (overlay_capturing || !in_page(
                x,
                y,
                width,
                height,
                inset_left,
                inset_top,
            )),
        },
{
    let local = page_local_coords(x, y, width, height, inset_left, inset_top);
    match (click_target(overlay_capturing, local), local) {
        (ClickTarget::ContentPage, Some(p)) => PointerRoute::Page(p),
        _ => PointerRoute::Chrome(MousePosition { x, y }),
    }
}

/// A position inside the page lies on the surface that the page is given: the
/// hit test and the size of the page agree.
pub proof fn hits_lie_on_the_page(
    x: i32,
    y: i32,
    width: u32,
    height: u32,
    inset_left: u32,
    inset_top: u32,
)
    requires
        inset_left < 0x8000_0000,
        inset_top < 0x8000_0000,
        in_page(x, y, width, height, inset_left, inset_top),
    ensures
        0 <= x - signed(inset_left) < remaining(width as nat, inset_left as nat),
        0 <= y - signed(inset_top) < remaining(height as nat, inset_top as nat),
{
}

} // verus!
