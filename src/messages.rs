//! The commands that cross from the network to the render thread.
//!
//! Every floating-point quantity (coordinates, extents, colour channels) is
//! held as the IEEE-754 bit pattern of an `f32`. The pipeline never does
//! arithmetic on these values; it carries them to the renderer unchanged,
//! apart from the sign normalisation of extents below.
use vstd::prelude::*;

verus! {

/// The sign bit of an `f32` bit pattern.
pub const SIGN_BIT: u32 = 0x8000_0000;

/// The bit pattern of `|v|` for the `f32` whose bit pattern is `bits`: the
/// same pattern with the sign bit cleared.
pub open spec fn magnitude(bits: u32) -> u32 {
    (bits % SIGN_BIT) as u32
}

/// Clears the sign bit of an `f32` bit pattern (what `f32::abs` does).
pub fn abs_bits(bits: u32) -> (r: u32)
    ensures
        r == magnitude(bits),
{
    if bits >= SIGN_BIT {
        bits - SIGN_BIT
    } else {
        bits
    }
}

/// A point in normalized device coordinates (bit patterns of two `f32`).
#[derive(Clone, Copy, Debug, PartialEq, Eq, Structural)]
pub struct Coordinates {
    pub x: u32,
    pub y: u32,
}

/// A stimulus shape. Extents (`size`, `radius`, `line_width`) may arrive
/// negative or zero; [`Shape::normalized`] gives the shape with the
/// magnitudes the renderer draws.
#[derive(Clone, Copy, Debug, PartialEq, Eq, Structural)]
pub enum Shape {
    Square { size: u32, ctr: Coordinates },
    Circle { radius: u32, ctr: Coordinates },
    Cross { size: u32, line_width: u32, ctr: Coordinates },
}

/// An RGBA colour (bit patterns of four `f32`), passed through unclamped.
#[derive(Clone, Copy, Debug, PartialEq, Eq, Structural)]
pub struct Color {
    pub r: u32,
    pub g: u32,
    pub b: u32,
    pub a: u32,
}

impl Shape {
    /// The shape with every extent replaced by its magnitude; centres are
    /// kept as they are.
    pub open spec fn spec_normalized(self) -> Shape {
        match self {
            Shape::Square { size, ctr } => Shape::Square { size: magnitude(size), ctr },
            Shape::Circle { radius, ctr } => Shape::Circle { radius: magnitude(radius), ctr },
            Shape::Cross { size, line_width, ctr } => Shape::Cross {
                size: magnitude(size),
                line_width: magnitude(line_width),
                ctr,
            },
        }
    }

    pub fn normalized(&self) -> (r: Shape)
        ensures
            r == self.spec_normalized(),
    {
        match *self {
            Shape::Square { size, ctr } => Shape::Square { size: abs_bits(size), ctr },
            Shape::Circle { radius, ctr } => Shape::Circle { radius: abs_bits(radius), ctr },
            Shape::Cross { size, line_width, ctr } => Shape::Cross {
                size: abs_bits(size),
                line_width: abs_bits(line_width),
                ctr,
            },
        }
    }
}

/// The opaque background colour a scene starts with.
pub open spec fn spec_black() -> Color {
    Color { r: 0, g: 0, b: 0, a: 0x3f80_0000 }
}

impl Color {
    /// Opaque black: channels 0.0, 0.0, 0.0 and alpha 1.0.
    pub fn black() -> (r: Color)
        ensures
            r == spec_black(),
    {
        Color { r: 0, g: 0, b: 0, a: 0x3f80_0000 }
    }
}

/// The unit of work handed from a connection to the render loop.
#[derive(Clone, Debug)]
pub enum Command {
    /// Replace the drawn stimulus.
    Draw(Shape),
    /// Replace the clear colour.
    SetBackground(Color),
    /// Decode and upload an image into the texture slot of the given index.
    LoadTexture(u32, Vec<u8>),
}

/// Byte-wise equality of two byte vectors.
pub fn bytes_equal(a: &Vec<u8>, b: &Vec<u8>) -> (r: bool)
    ensures
        r == (a@ == b@),
{
    if a.len() != b.len() {
        return false;
    }
    let mut i: usize = 0;
    while i < a.len()
        invariant
            a@.len() == b@.len(),
            i <= a@.len(),
            a@.subrange(0, i as int) == b@.subrange(0, i as int),
        decreases a@.len() - i,
    {
        if a[i] != b[i] {
            assert(a@[i as int] != b@[i as int]);
            return false;
        }
        assert(a@.subrange(0, i + 1) == a@.subrange(0, i as int).push(a@[i as int]));
        assert(b@.subrange(0, i + 1) == b@.subrange(0, i as int).push(b@[i as int]));
        i = i + 1;
    }
    assert(a@ == a@.subrange(0, a@.len() as int));
    assert(b@ == b@.subrange(0, b@.len() as int));
    true
}

impl Command {
    /// Two commands are the same when they are the same variant with equal
    /// fields (texture bytes compared by content).
    pub open spec fn same_as(self, o: Command) -> bool {
        match (self, o) {
            (Command::Draw(a), Command::Draw(b)) => a == b,
            (Command::SetBackground(a), Command::SetBackground(b)) => a == b,
            (Command::LoadTexture(i, d), Command::LoadTexture(j, e)) => i == j && d@ == e@,
            _ => false,
        }
    }
}

impl PartialEq for Command {
    fn eq(&self, o: &Command) -> (r: bool) {
        match (self, o) {
            (Command::Draw(a), Command::Draw(b)) => *a == *b,
            (Command::SetBackground(a), Command::SetBackground(b)) => *a == *b,
            (Command::LoadTexture(i, d), Command::LoadTexture(j, e)) => *i == *j && bytes_equal(d, e),
            _ => false,
        }
    }
}

impl vstd::std_specs::cmp::PartialEqSpecImpl for Command {
    open spec fn obeys_eq_spec() -> bool {
        true
    }

    open spec fn eq_spec(&self, o: &Command) -> bool {
        self.same_as(*o)
    }
}

} // verus!
