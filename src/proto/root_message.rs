//! The variants of the `RootMessage`'s `command` field.
use vstd::prelude::*;

use crate::proto::{BgColor, Texture};

verus! {

/// The request a `RootMessage` carries.
#[derive(Clone, Debug)]
pub enum Command {
    SetShape(crate::proto::Shape),
    SetBgColor(BgColor),
    SetTexture(Texture),
}

} // verus!
