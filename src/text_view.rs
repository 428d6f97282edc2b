use vstd::prelude::*;

verus! {

/// Where the viewport stands in the buffer.
#[derive(Clone, Copy, Debug)]
pub struct TextView {
    /// The index of the line the cursor is on.
    pub visible_lines: usize,
    /// The buffer column and row of the top-left visible cell.
    pub scroll_offset: (usize, usize),
}

impl TextView {
    /// The origin: first line, no scrolling.
    pub fn new() -> (r: Self)
        ensures
            r.visible_lines == 0,
            r.scroll_offset == (0usize, 0usize),
    {
        TextView { visible_lines: 0, scroll_offset: (0, 0) }
    }
}

} // verus!
