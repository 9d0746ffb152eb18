//! One frame of the render loop, as far as the scene is concerned: take
//! the latest pending command, if any, and apply it. Drawing and presenting
//! the scene is the renderer's part and comes after.
use vstd::prelude::*;

use crate::mailbox::{after_drain, Mailbox};
use crate::scene::{spec_apply, spec_request, RenderRequest, SceneState};

verus! {

/// Drains the mailbox and applies what was pending to the scene. With
/// nothing pending the scene stays as it is and is simply drawn again.
pub fn begin_frame(mailbox: &mut Mailbox, scene: &mut SceneState) -> (r: RenderRequest)
    ensures
        final(mailbox)@ == after_drain(old(mailbox)@),
        match old(mailbox)@ {
            Some(c) => final(scene)@ == spec_apply(old(scene)@, c) && r == spec_request(c),
            None => final(scene)@ == old(scene)@ && r == RenderRequest::Redraw,
        },
{
    match mailbox.drain() {
        Some(c) => scene.apply(c),
        None => RenderRequest::Redraw,
    }
}

} // verus!
