//! The variants of the `Shape` message's `shape` field.
use vstd::prelude::*;

use crate::proto::{Circle, Cross, Square};

verus! {

/// Which shape a `Shape` message carries.
#[derive(Clone, Debug, PartialEq, Eq, Structural)]
pub enum Shape {
    Square(Square),
    Circle(Circle),
    Cross(Cross),
}

} // verus!
