//! Decoded frames as the cache keeps them: planes copied out of the
//! decoder, with the geometry they are to be shown at.

use vstd::prelude::*;

verus! {

/// Quarter turns by which a stream's pictures are rotated for display.
#[derive(Clone, Copy, Debug, PartialEq, Eq, Structural)]
pub enum Rotate {
    Rotate0,
    Rotate90,
    Rotate180,
    Rotate270,
}

/// A decoded picture in the decoder's own planar pixel format.
///
/// Every plane is an owned copy: nothing here points into memory that the
/// decoder may reuse.
#[derive(Debug, PartialEq, Eq)]
pub struct NotRgbFrame {
    /// One buffer per plane.
    pub planes: Vec<Vec<u8>>,
    /// Bytes per row of each plane; unused planes hold 0.
    pub linesizes: [i32; 8],
    /// Pixel format, as the decoder numbers it.
    pub format: i32,
    pub original_width: u32,
    pub original_height: u32,
    pub scaled_width: u32,
    pub scaled_height: u32,
    pub rotate: Rotate,
}

/// What a `NotRgbFrame` holds, as values.
pub struct NotRgbFrameView {
    pub planes: Seq<Seq<u8>>,
    pub linesizes: Seq<i32>,
    pub format: i32,
    pub original_width: u32,
    pub original_height: u32,
    pub scaled_width: u32,
    pub scaled_height: u32,
    pub rotate: Rotate,
}

impl View for NotRgbFrame {
    type V = NotRgbFrameView;

    open spec fn view(&self) -> NotRgbFrameView {
        NotRgbFrameView {
            planes: self.planes.deep_view(),
            linesizes: self.linesizes@,
            format: self.format,
            original_width: self.original_width,
            original_height: self.original_height,
            scaled_width: self.scaled_width,
            scaled_height: self.scaled_height,
            rotate: self.rotate,
        }
    }
}

/// A decoded picture together with whether its alpha channel is to be kept
/// when it is converted for output.
#[derive(Debug, PartialEq, Eq)]
pub struct ScalableFrame {
    pub native_frame: NotRgbFrame,
    pub transparent: bool,
}

/// What a `ScalableFrame` holds, as values.
pub struct ScalableFrameView {
    pub native_frame: NotRgbFrameView,
    pub transparent: bool,
}

impl View for ScalableFrame {
    type V = ScalableFrameView;

    open spec fn view(&self) -> ScalableFrameView {
        ScalableFrameView { native_frame: self.native_frame@, transparent: self.transparent }
    }
}

impl ScalableFrame {
    /// Pairs a picture with the transparency it was requested with.
    pub fn new(native_frame: NotRgbFrame, transparent: bool) -> (frame: ScalableFrame)
        ensures
            frame@ == (ScalableFrameView { native_frame: native_frame@, transparent }),
    {
        ScalableFrame { native_frame, transparent }
    }
}

} // verus!
