//! What the decoder pool is asked for, and how an EXIF orientation tag
//! turns into pixel operations. Decoding and rotating pixels is done by the
//! application with the `image` crate.

use vstd::prelude::*;

verus! {

/// Which decode a job asks for.
#[derive(PartialEq, Eq, Structural, Clone, Copy, Debug)]
pub enum Kind {
    /// The small grid thumbnail.
    Thumb,
    /// The full-resolution loupe frame.
    Full,
}

/// The pixel operations that bring an image into display orientation.
#[derive(PartialEq, Eq, Structural, Clone, Copy, Debug)]
pub enum OrientationFix {
    /// 1 (normal) or an unknown tag: leave as is.
    Keep,
    /// 2: flip horizontally.
    FlipH,
    /// 3: rotate 180°.
    Rotate180,
    /// 4: flip vertically.
    FlipV,
    /// 5: rotate 90° clockwise, then flip horizontally (transpose).
    Rotate90FlipH,
    /// 6: rotate 90° clockwise.
    Rotate90,
    /// 7: rotate 270° clockwise, then flip horizontally (transverse).
    Rotate270FlipH,
    /// 8: rotate 270° clockwise.
    Rotate270,
}

/// The fix for an EXIF orientation tag. Most cameras only ever emit
/// 1/3/6/8, but the mirrored 2/4/5/7 cases are handled too.
pub open spec fn fix_for(orientation: u16) -> OrientationFix {
    if orientation == 2 {
        OrientationFix::FlipH
    } else if orientation == 3 {
        OrientationFix::Rotate180
    } else if orientation == 4 {
        OrientationFix::FlipV
    } else if orientation == 5 {
        OrientationFix::Rotate90FlipH
    } else if orientation == 6 {
        OrientationFix::Rotate90
    } else if orientation == 7 {
        OrientationFix::Rotate270FlipH
    } else if orientation == 8 {
        OrientationFix::Rotate270
    } else {
        OrientationFix::Keep
    }
}

/// The pixel operations for an EXIF orientation tag.
pub fn orientation_fix(orientation: u16) -> (fix: OrientationFix)
    ensures
        fix == fix_for(orientation),
{
    match orientation {
        2 => OrientationFix::FlipH,
        3 => OrientationFix::Rotate180,
        4 => OrientationFix::FlipV,
        5 => OrientationFix::Rotate90FlipH,
        6 => OrientationFix::Rotate90,
        7 => OrientationFix::Rotate270FlipH,
        8 => OrientationFix::Rotate270,
        _ => OrientationFix::Keep,
    }
}

/// Does the fix swap width and height?
pub fn swaps_dimensions(fix: OrientationFix) -> (res: bool)
    ensures
        res == (fix == OrientationFix::Rotate90FlipH || fix == OrientationFix::Rotate90 || fix
            == OrientationFix::Rotate270FlipH || fix == OrientationFix::Rotate270),
{
    match fix {
        OrientationFix::Rotate90FlipH | OrientationFix::Rotate90 | OrientationFix::Rotate270FlipH
        | OrientationFix::Rotate270 => true,
        _ => false,
    }
}

} // verus!
