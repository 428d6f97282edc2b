use vstd::prelude::*;

verus! {

/// A terminal's size in character cells.
#[derive(Clone, Copy, Debug, PartialEq, Eq, Structural)]
pub struct Size {
    pub width: u16,
    pub height: u16,
}

impl Size {
    /// A size of `width` columns and `height` rows.
    pub fn new(width: u16, height: u16) -> (r: Self)
        ensures
            r.width == width,
            r.height == height,
    {
        Size { width, height }
    }
}

/// The terminal the editor draws on. Its two bottom rows hold the status bar;
/// the rows above it show text.
#[derive(Clone, Copy, Debug)]
pub struct Terminal {
    pub size: Size,
}

/// The number of text rows a terminal of `height` rows shows: all but the two
/// of the status bar, and never fewer than one.
pub open spec fn text_rows(height: u16) -> int {
    if height > 2 {
        height - 2
    } else {
        1
    }
}

/// The number of text columns a terminal of `width` columns shows, never fewer
/// than one.
pub open spec fn text_cols(width: u16) -> int {
    if width > 0 {
        width as int
    } else {
        1
    }
}

impl Terminal {
    /// A terminal of the given size.
    pub fn new(size: Size) -> (r: Self)
        ensures
            r.size == size,
    {
        Terminal { size }
    }

    /// The number of text rows shown.
    pub fn rows(&self) -> (r: usize)
        ensures
            r == text_rows(self.size.height),
    {
        if self.size.height > 2 {
            (self.size.height - 2) as usize
        } else {
            1
        }
    }

    /// The number of text columns shown.
    pub fn cols(&self) -> (r: usize)
        ensures
            r == text_cols(self.size.width),
    {
        if self.size.width > 0 {
            self.size.width as usize
        } else {
            1
        }
    }
}

} // verus!
