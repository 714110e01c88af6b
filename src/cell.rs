use vstd::prelude::*;

verus! {

/// An RGBA color with one byte per channel.
#[derive(Debug, Clone, Copy, PartialEq, Eq, Structural)]
pub struct Color {
    pub r: u8,
    pub g: u8,
    pub b: u8,
    pub a: u8,
}

impl Color {
    pub open spec fn spec_rgba(r: u8, g: u8, b: u8, a: u8) -> Color {
        Color { r, g, b, a }
    }

    /// Opaque white.
    pub fn white() -> (c: Color)
        ensures
            c == Color::spec_rgba(255, 255, 255, 255),
    {
        Color { r: 255, g: 255, b: 255, a: 255 }
    }

    /// Opaque black.
    pub fn black() -> (c: Color)
        ensures
            c == Color::spec_rgba(0, 0, 0, 255),
    {
        Color { r: 0, g: 0, b: 0, a: 255 }
    }

    /// Opaque yellow.
    pub fn yellow() -> (c: Color)
        ensures
            c == Color::spec_rgba(255, 255, 0, 255),
    {
        Color { r: 255, g: 255, b: 0, a: 255 }
    }
}

/// The kind of material a cell holds.
#[derive(Debug, Clone, Copy, PartialEq, Eq, Hash, Structural)]
pub enum Cells {
    Air,
    Wall,
    Sand,
}

/// How a cell's display color is obtained.
#[derive(Debug, Clone, Copy, PartialEq, Eq, Structural)]
pub enum ColorMode {
    /// A color stored in the cell.
    Static(Color),
    /// The color is derived from the cell's kind when it is read.
    Dynamic,
}

/// A signed grid position; any value is a valid input to the bounds checks.
#[derive(Debug, Clone, Copy, PartialEq, Eq, Structural)]
pub struct Coords {
    pub x: i32,
    pub y: i32,
}

/// One grid unit: its kind and its display-color rule.
#[derive(Debug, Clone, Copy, PartialEq, Eq, Structural)]
pub struct Cell {
    pub kind: Cells,
    pub color_mode: ColorMode,
}

/// The display color belonging to a kind.
pub open spec fn kind_color(k: Cells) -> Color {
    match k {
        Cells::Air => Color::spec_rgba(255, 255, 255, 255),
        Cells::Wall => Color::spec_rgba(0, 0, 0, 255),
        Cells::Sand => Color::spec_rgba(255, 255, 0, 255),
    }
}

/// The hardness of a kind: the partial order deciding what displaces or
/// blocks what.
pub open spec fn kind_hardness(k: Cells) -> u32 {
    match k {
        Cells::Air => 2,
        Cells::Wall => 100,
        Cells::Sand => 100,
    }
}

/// A fresh cell of the given kind, with the kind's color stored.
pub open spec fn spec_cell_of(k: Cells) -> Cell {
    Cell { kind: k, color_mode: ColorMode::Static(kind_color(k)) }
}

/// The color a cell displays.
pub open spec fn spec_display_color(c: Cell) -> Color {
    match c.color_mode {
        ColorMode::Static(col) => col,
        ColorMode::Dynamic => kind_color(c.kind),
    }
}

impl Cells {
    pub fn color(&self) -> (c: Color)
        ensures
            c == kind_color(*self),
    {
        match self {
            Cells::Air => Color::white(),
            Cells::Wall => Color::black(),
            Cells::Sand => Color::yellow(),
        }
    }

    pub fn color_mode(&self) -> (m: ColorMode)
        ensures
            m == ColorMode::Static(kind_color(*self)),
    {
        match self {
            Cells::Air => ColorMode::Static(self.color()),
            Cells::Wall => ColorMode::Static(self.color()),
            Cells::Sand => ColorMode::Static(self.color()),
        }
    }

    pub fn hardness(&self) -> (h: u32)
        ensures
            h == kind_hardness(*self),
    {
        match self {
            Cells::Air => 2,
            Cells::Wall => 100,
            Cells::Sand => 100,
        }
    }
}

impl Cell {
    pub fn new(kind: Cells) -> (c: Cell)
        ensures
            c == spec_cell_of(kind),
    {
        Cell { kind, color_mode: kind.color_mode() }
    }

    pub fn color(&self) -> (c: Color)
        ensures
            c == spec_display_color(*self),
    {
        match self.color_mode {
            ColorMode::Static(color) => color,
            ColorMode::Dynamic => self.kind.color(),
        }
    }
}

impl Default for Cell {
    /// An air cell with the air color stored.
    fn default() -> (c: Cell)
        ensures
            c == spec_cell_of(Cells::Air),
    {
        Cell::new(Cells::Air)
    }
}

} // verus!
