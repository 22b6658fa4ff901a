use vstd::prelude::*;

use crate::error::StateError;

verus! {

/// The dimensions of the drawing target that the state renders into.
/// Both are positive; the backend allocates the pixels from them.
pub struct SurfaceBinding {
    width: i32,
    height: i32,
}

/// Both dimensions of a drawing target are positive.
pub open spec fn valid_dimensions(width: int, height: int) -> bool {
    width > 0 && height > 0
}

impl SurfaceBinding {
    pub closed spec fn spec_width(&self) -> int {
        self.width as int
    }

    pub closed spec fn spec_height(&self) -> int {
        self.height as int
    }

    pub open spec fn wf(&self) -> bool {
        valid_dimensions(self.spec_width(), self.spec_height())
    }

    /// A binding of `width` by `height` pixels; fails with `InvalidDimensions`
    /// unless both are positive.
    pub fn new(width: i32, height: i32) -> (r: Result<SurfaceBinding, StateError>)
        ensures
            match r {
                Ok(b) => valid_dimensions(width as int, height as int) && b.wf()
                    && b.spec_width() == width && b.spec_height() == height,
                Err(e) => !valid_dimensions(width as int, height as int)
                    && e == StateError::InvalidDimensions,
            },
    {
        if width > 0 && height > 0 {
            Ok(SurfaceBinding { width, height })
        } else {
            Err(StateError::InvalidDimensions)
        }
    }

    pub fn width(&self) -> (r: i32)
        ensures
            r == self.spec_width(),
    {
        self.width
    }

    pub fn height(&self) -> (r: i32)
        ensures
            r == self.spec_height(),
    {
        self.height
    }
}

} // verus!
