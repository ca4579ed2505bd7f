//! Terminal geometry: the size that programs inside a pseudo-terminal see.

use vstd::prelude::*;

verus! {

/// Rows and columns of a terminal, and the size of one cell in pixels.
#[derive(Debug, Clone, Copy, PartialEq, Eq, Structural)]
pub struct Geometry {
    pub rows: u16,
    pub cols: u16,
    pub pixel_width: u16,
    pub pixel_height: u16,
}

/// The geometry every new session starts with: 24 rows of 80 columns.
pub open spec fn initial_geometry() -> Geometry {
    Geometry { rows: 24, cols: 80, pixel_width: 0, pixel_height: 0 }
}

/// The geometry a resize asks for: the given cells, no pixel size.
pub open spec fn cell_geometry(rows: u16, cols: u16) -> Geometry {
    Geometry { rows, cols, pixel_width: 0, pixel_height: 0 }
}

/// `portable_pty::PtySize::default()`, field by field. The claim, not
/// proved here: that default is 24 rows, 80 columns and no pixel size.
#[verifier::external_body]
fn pty_default_size() -> (size: Geometry)
    ensures
        size == initial_geometry(),
{
    let size = portable_pty::PtySize::default();
    Geometry {
        rows: size.rows,
        cols: size.cols,
        pixel_width: size.pixel_width,
        pixel_height: size.pixel_height,
    }
}

impl Geometry {
    /// The geometry of a freshly allocated session.
    pub fn initial() -> (size: Geometry)
        ensures
            size == initial_geometry(),
    {
        Geometry { rows: 24, cols: 80, pixel_width: 0, pixel_height: 0 }
    }

    /// The geometry of a resize to `rows` by `cols`; the pixel size is the
    /// pseudo-terminal library's default.
    pub fn with_cells(rows: u16, cols: u16) -> (size: Geometry)
        ensures
            size == cell_geometry(rows, cols),
    {
        let base = pty_default_size();
        Geometry { rows, cols, pixel_width: base.pixel_width, pixel_height: base.pixel_height }
    }
}

} // verus!
