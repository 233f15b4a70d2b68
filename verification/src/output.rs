//! Per-output geometry: where an output sits, how large it is, and which
//! part of it is left for tiling once panels have reserved their zones.
use crate::geometry::Rect;
use crate::window::Dimensions;
use vstd::prelude::*;

verus! {

/// Stable identifier for an output.
#[derive(Debug, Clone, Copy, PartialEq, Eq, Hash, Structural)]
pub struct OutputId(pub u32);

/// Runtime state for an output.
#[derive(Debug, Clone, Copy)]
pub struct Output {
    /// Internal output identifier.
    pub id: OutputId,
    /// Global name of the matching `wl_output`.
    pub wl_output_name: u32,
    /// Logical output position.
    pub position: Option<(i32, i32)>,
    /// Logical output dimensions.
    pub dimensions: Option<Dimensions>,
    /// Usable tiling area after panels' exclusive zones, in global coordinates.
    pub non_exclusive_area: Option<Rect>,
}

impl Output {
    /// The output's full rectangle: its dimensions at its position (the
    /// origin when no position is known yet); `None` without dimensions.
    pub open spec fn spec_rect(self) -> Option<Rect> {
        match self.dimensions {
            Some(d) => {
                let (x, y) = match self.position {
                    Some(p) => p,
                    None => (0i32, 0i32),
                };
                Some(Rect { x, y, width: d.width, height: d.height })
            },
            None => None,
        }
    }

    /// The rectangle used for tiling: the non-exclusive area when known,
    /// else the full rectangle.
    pub open spec fn spec_tiling_rect(self) -> Option<Rect> {
        match self.non_exclusive_area {
            Some(a) => Some(a),
            None => self.spec_rect(),
        }
    }

    /// Create a new output record with no geometry yet.
    pub fn new(id: OutputId) -> (r: Output)
        ensures
            r.id == id,
            r.wl_output_name == 0,
            r.position is None,
            r.dimensions is None,
            r.non_exclusive_area is None,
    {
        Output { id, wl_output_name: 0, position: None, dimensions: None, non_exclusive_area: None }
    }

    /// Update this output's logical position.
    pub fn set_position(&mut self, x: i32, y: i32)
        ensures
            *final(self) == (Output { position: Some((x, y)), ..*old(self) }),
    {
        self.position = Some((x, y));
    }

    /// Update this output's logical dimensions.
    pub fn set_dimensions(&mut self, width: i32, height: i32)
        ensures
            *final(self) == (Output { dimensions: Some(Dimensions { width, height }), ..*old(self) }),
    {
        self.dimensions = Some(Dimensions { width, height });
    }

    /// Update the area left after panels' exclusive zones.
    pub fn set_non_exclusive_area(&mut self, x: i32, y: i32, width: i32, height: i32)
        ensures
            *final(self) == (Output {
                non_exclusive_area: Some(Rect { x, y, width, height }),
                ..*old(self)
            }),
    {
        self.non_exclusive_area = Some(Rect::new(x, y, width, height));
    }

    /// Rectangle to use for tiling (see [`Output::spec_tiling_rect`]).
    pub fn tiling_rect(&self) -> (r: Option<Rect>)
        ensures
            r == self.spec_tiling_rect(),
    {
        match self.non_exclusive_area {
            Some(a) => Some(a),
            None => self.rect(),
        }
    }

    /// This output's rectangle (see [`Output::spec_rect`]).
    pub fn rect(&self) -> (r: Option<Rect>)
        ensures
            r == self.spec_rect(),
    {
        let (x, y) = match self.position {
            Some(p) => p,
            None => (0, 0),
        };
        match self.dimensions {
            Some(d) => Some(Rect::new(x, y, d.width, d.height)),
            None => None,
        }
    }
}

} // verus!
