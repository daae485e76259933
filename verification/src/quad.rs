use vstd::prelude::*;

verus! {

/// An axis-aligned rectangle on the world grid, in chunk units: its size and
/// the offset of its corner.
#[derive(Debug, Copy, Clone, PartialEq, Eq)]
pub struct Quad {
    pub size: [i32; 2],
    pub offset: [i32; 2],
}

impl Quad {
    /// The rectangle of the given size whose corner stands at `(x, y)`.
    pub fn new(x: i32, y: i32, width: i32, height: i32) -> (quad: Self)
        ensures
            quad.size@ == seq![width, height],
            quad.offset@ == seq![x, y],
    {
        let quad = Quad { size: [width, height], offset: [x, y] };
        assert(quad.size@ =~= seq![width, height]);
        assert(quad.offset@ =~= seq![x, y]);
        quad
    }
}

} // verus!
