//! Where windows and popups go: the arithmetic between the coordinates of
//! an output, of a window on it and of a popup of that window.

use vstd::prelude::*;

use crate::backend::output::Rectangle;
use crate::layout::WindowGeometry;

verus! {

/// Whether a number fits a 32-bit coordinate.
pub open spec fn fits_i32(n: int) -> bool {
    i32::MIN <= n <= i32::MAX
}

/// The rectangle of an output as seen from a popup: the output's rectangle
/// moved back by the popup's offset within its window and by the window's
/// location, where the moved corner can be represented.
pub open spec fn popup_target_of(output: Rectangle, offset: (i32, i32), window: (i32, i32)) -> Option<
    Rectangle,
> {
    if fits_i32(output.x - offset.0 - window.0) && fits_i32(output.y - offset.1 - window.1) {
        Some(
            Rectangle {
                x: (output.x - offset.0 - window.0) as i32,
                y: (output.y - offset.1 - window.1) as i32,
                width: output.width,
                height: output.height,
            },
        )
    } else {
        None
    }
}

/// The location of a window on an output at `origin` that the layout puts
/// at `geometry`, where it can be represented.
pub open spec fn placement_of(origin: (i32, i32), geometry: WindowGeometry) -> Option<(i32, i32)> {
    if fits_i32(origin.0 + geometry.x_coordinate) && fits_i32(origin.1 + geometry.y_coordinate) {
        Some(((origin.0 + geometry.x_coordinate) as i32, (origin.1 + geometry.y_coordinate) as i32))
    } else {
        None
    }
}

/// A sum of coordinates, where it fits.
fn narrow(n: i64) -> (r: Option<i32>)
    ensures
        r == if fits_i32(n as int) {
            Some(n as i32)
        } else {
            None::<i32>
        },
{
    if -0x8000_0000 <= n && n <= 0x7fff_ffff {
        Some(n as i32)
    } else {
        None
    }
}

/// The area that a popup is kept within, in the coordinates of the popup's
/// parent: the rectangle of the output, seen from the window that the popup
/// belongs to.
pub fn popup_target(output: Rectangle, offset: (i32, i32), window: (i32, i32)) -> (r: Option<
    Rectangle,
>)
    ensures
        r == popup_target_of(output, offset, window),
{
    let x: Option<i32> = narrow(output.x as i64 - offset.0 as i64 - window.0 as i64);
    let y: Option<i32> = narrow(output.y as i64 - offset.1 as i64 - window.1 as i64);
    match (x, y) {
        (Some(x), Some(y)) => Some(Rectangle { x, y, width: output.width, height: output.height }),
        _ => None,
    }
}

/// The location to map a window at: the place the layout gives it, counted
/// from the origin of the output.
pub fn placement(origin: (i32, i32), geometry: &WindowGeometry) -> (r: Option<(i32, i32)>)
    ensures
        r == placement_of(origin, *geometry),
{
    let x: Option<i32> = narrow(origin.0 as i64 + geometry.x_coordinate as i64);
    let y: Option<i32> = narrow(origin.1 as i64 + geometry.y_coordinate as i64);
    match (x, y) {
        (Some(x), Some(y)) => Some((x, y)),
        _ => None,
    }
}

} // verus!
