//! Window layouts: the kinds there are, and the values a layout works with.

use vstd::prelude::*;
use vstd::string::StringExecFns;

verus! {

/// The gaps to leave between windows and towards the screen edge, in pixels.
#[derive(Clone, Copy, Debug, PartialEq, Eq, Hash, Structural)]
pub struct GapConfig {
    pub inner_horizontal: u32,
    pub inner_vertical: u32,
    pub outer_horizontal: u32,
    pub outer_vertical: u32,
}

/// The kinds of layout.
#[derive(Clone, Copy, Debug, PartialEq, Eq, Hash, Structural)]
pub enum LayoutType {
    Tiling,
}

/// Where a layout puts one window.
#[derive(Clone, Copy, Debug, PartialEq, Eq, Hash, Structural)]
pub struct WindowGeometry {
    pub x_coordinate: i32,
    pub y_coordinate: i32,
    pub width: u32,
    pub height: u32,
}

/// A text in lower case, as `str::to_lowercase` of the standard library
/// gives it.
pub uninterp spec fn lowercase(s: Seq<char>) -> Seq<char>;

/// Calls `str::to_lowercase`. The contract claims only that the result
/// depends on the text alone.
#[verifier::external_body]
fn to_lowercase(s: &str) -> (lower: String)
    ensures
        lower@ == lowercase(s@),
{
    s.to_lowercase()
}

/// The layout that a name in lower case stands for, or the message that
/// rejects the name as it was written.
pub open spec fn layout_named(lower: Seq<char>, written: Seq<char>) -> Result<LayoutType, Seq<char>> {
    if lower == "tiling"@ {
        Ok(LayoutType::Tiling)
    } else {
        Err("Invalid Layout Type: "@ + written)
    }
}

/// Whether `r` is the result `expected`, text for text.
pub open spec fn is_layout_result(r: Result<LayoutType, String>, expected: Result<LayoutType, Seq<char>>)
    -> bool {
    match (r, expected) {
        (Ok(a), Ok(b)) => a == b,
        (Err(a), Err(b)) => a@ == b,
        _ => false,
    }
}

impl LayoutType {
    /// The layout that `lower` names, where `lower` is `written` in lower
    /// case. Any other name is rejected with a message that quotes it as
    /// written.
    pub fn from_lowercase(lower: &str, written: &str) -> (r: Result<LayoutType, String>)
        ensures
            is_layout_result(r, layout_named(lower@, written@)),
    {
        let name: String = lower.to_owned();
        let tiling: String = "tiling".to_owned();
        if name == tiling {
            Ok(LayoutType::Tiling)
        } else {
            Err("Invalid Layout Type: ".to_owned().concat(written))
        }
    }

    /// The layout that `s` names, whatever its case.
    pub fn from_str(s: &str) -> (r: Result<LayoutType, String>)
        ensures
            is_layout_result(r, layout_named(lowercase(s@), s@)),
    {
        let lower: String = to_lowercase(s);
        LayoutType::from_lowercase(lower.as_str(), s)
    }
}

} // verus!
