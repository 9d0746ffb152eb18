//! The scene state the render loop owns: what is on screen now. It changes
//! only by applying a command, or by the outcome of a texture upload the
//! renderer was asked for.
use vstd::prelude::*;

use crate::messages::{spec_black, Color, Command, Shape};

verus! {

/// A texture slot and the renderer's handle for the image bound to it.
#[derive(Clone, Copy, Debug, PartialEq, Eq, Structural)]
pub struct BoundTexture {
    pub index: u32,
    pub handle: u64,
}

/// The handle bound to slot `i` in a table: the first entry for `i`.
pub open spec fn lookup(s: Seq<BoundTexture>, i: u32) -> Option<u64>
    decreases s.len(),
{
    if s.len() == 0 {
        None
    } else if s[0].index == i {
        Some(s[0].handle)
    } else {
        lookup(s.drop_first(), i)
    }
}

proof fn lemma_lookup_first(s: Seq<BoundTexture>, k: int)
    requires
        0 <= k < s.len(),
        forall|j: int| 0 <= j < k ==> s[j].index != s[k].index,
    ensures
        lookup(s, s[k].index) == Some(s[k].handle),
    decreases k,
{
    if k > 0 {
        lemma_lookup_first(s.drop_first(), k - 1);
    }
}

proof fn lemma_lookup_absent(s: Seq<BoundTexture>, i: u32)
    requires
        forall|j: int| 0 <= j < s.len() ==> s[j].index != i,
    ensures
        lookup(s, i) is None,
    decreases s.len(),
{
    if s.len() > 0 {
        lemma_lookup_absent(s.drop_first(), i);
    }
}

proof fn lemma_lookup_update(s: Seq<BoundTexture>, k: int, e: BoundTexture, i: u32)
    requires
        0 <= k < s.len(),
        e.index == s[k].index,
        i != e.index,
    ensures
        lookup(s.update(k, e), i) == lookup(s, i),
    decreases k,
{
    if k > 0 {
        assert(s.update(k, e)[0] == s[0]);
        assert(s.update(k, e).drop_first() =~= s.drop_first().update(k - 1, e));
        lemma_lookup_update(s.drop_first(), k - 1, e, i);
    } else {
        assert(s.update(k, e).drop_first() =~= s.drop_first());
    }
}

proof fn lemma_lookup_push(s: Seq<BoundTexture>, e: BoundTexture, i: u32)
    requires
        forall|j: int| 0 <= j < s.len() ==> s[j].index != e.index,
    ensures
        lookup(s.push(e), i) == if i == e.index {
            Some(e.handle)
        } else {
            lookup(s, i)
        },
    decreases s.len(),
{
    if s.len() == 0 {
        assert(s.push(e)[0] == e);
        assert(s.push(e).drop_first() =~= Seq::<BoundTexture>::empty());
        assert(lookup(s.push(e).drop_first(), i) is None);
    } else {
        assert(s.push(e)[0] == s[0]);
        assert(s.push(e).drop_first() =~= s.drop_first().push(e));
        lemma_lookup_push(s.drop_first(), e, i);
    }
}

/// What the scene shows, as the contracts speak of it.
pub struct SceneView {
    pub background: Color,
    pub shape: Option<Shape>,
    pub textures: Seq<BoundTexture>,
}

impl SceneView {
    /// The handle bound to texture slot `i`, if any.
    pub open spec fn texture(self, i: u32) -> Option<u64> {
        lookup(self.textures, i)
    }
}

/// What the renderer has to do for a command that was applied.
#[derive(Debug)]
pub enum RenderRequest {
    /// Nothing beyond drawing the scene again.
    Redraw,
    /// Build geometry for the new shape, releasing the old one's.
    BuildGeometry(Shape),
    /// Decode and upload these image bytes for the slot, then report the
    /// outcome with [`SceneState::finish_upload`].
    UploadTexture(u32, Vec<u8>),
}

/// The outcome of a texture upload, as the scene took it.
#[derive(Clone, Copy, Debug, PartialEq, Eq, Structural)]
pub enum UploadOutcome {
    /// The new image is bound; the handle it replaced, if any, can be
    /// released.
    Bound { replaced: Option<u64> },
    /// The image could not be decoded: the slot keeps what it had.
    Failed,
}

pub struct SceneState {
    background: Color,
    shape: Option<Shape>,
    textures: Vec<BoundTexture>,
}

impl View for SceneState {
    type V = SceneView;

    closed spec fn view(&self) -> SceneView {
        SceneView { background: self.background, shape: self.shape, textures: self.textures@ }
    }
}

/// The scene after a command that needs no renderer outcome; a texture load
/// changes the scene only once the upload has succeeded.
pub open spec fn spec_apply(v: SceneView, c: Command) -> SceneView {
    match c {
        Command::Draw(s) => SceneView { shape: Some(s), ..v },
        Command::SetBackground(k) => SceneView { background: k, ..v },
        Command::LoadTexture(_, _) => v,
    }
}

/// What the renderer is asked to do for a command.
pub open spec fn spec_request(c: Command) -> RenderRequest {
    match c {
        Command::Draw(s) => RenderRequest::BuildGeometry(s),
        Command::SetBackground(_) => RenderRequest::Redraw,
        Command::LoadTexture(i, d) => RenderRequest::UploadTexture(i, d),
    }
}

impl SceneState {
    /// The scene at start: opaque black background, no shape, no texture.
    pub fn new() -> (r: SceneState)
        ensures
            r@.background == spec_black(),
            r@.shape is None,
            forall|i: u32| r@.texture(i) is None,
    {
        SceneState { background: Color::black(), shape: None, textures: Vec::new() }
    }

    pub fn background(&self) -> (r: Color)
        ensures
            r == self@.background,
    {
        self.background
    }

    pub fn shape(&self) -> (r: Option<Shape>)
        ensures
            r == self@.shape,
    {
        self.shape
    }

    /// The handle bound to texture slot `index`, if any.
    pub fn texture(&self, index: u32) -> (r: Option<u64>)
        ensures
            r == self@.texture(index),
    {
        match self.position(index) {
            Some(k) => {
                proof {
                    lemma_lookup_first(self.textures@, k as int);
                }
                Some(self.textures[k].handle)
            },
            None => {
                proof {
                    lemma_lookup_absent(self.textures@, index);
                }
                None
            },
        }
    }

    fn position(&self, index: u32) -> (r: Option<usize>)
        ensures
            match r {
                Some(k) => k < self.textures@.len() && self.textures@[k as int].index == index
                    && forall|j: int| 0 <= j < k ==> self.textures@[j].index != index,
                None => forall|j: int|
                    0 <= j < self.textures@.len() ==> self.textures@[j].index != index,
            },
    {
        let mut k: usize = 0;
        while k < self.textures.len()
            invariant
                k <= self.textures@.len(),
                forall|j: int| 0 <= j < k ==> self.textures@[j].index != index,
            decreases self.textures@.len() - k,
        {
            if self.textures[k].index == index {
                return Some(k);
            }
            k = k + 1;
        }
        None
    }

    /// Applies one command and says what the renderer has to do for it.
    pub fn apply(&mut self, c: Command) -> (r: RenderRequest)
        ensures
            final(self)@ == spec_apply(old(self)@, c),
            r == spec_request(c),
    {
        match c {
            Command::Draw(s) => {
                self.shape = Some(s);
                RenderRequest::BuildGeometry(s)
            },
            Command::SetBackground(k) => {
                self.background = k;
                RenderRequest::Redraw
            },
            Command::LoadTexture(i, d) => RenderRequest::UploadTexture(i, d),
        }
    }

    /// Takes the outcome of the upload for slot `index`: the handle of the
    /// decoded image, or `None` when decoding failed. On failure the slot
    /// keeps the image it had.
    pub fn finish_upload(&mut self, index: u32, loaded: Option<u64>) -> (r: UploadOutcome)
        ensures
            final(self)@.background == old(self)@.background,
            final(self)@.shape == old(self)@.shape,
            match loaded {
                Some(h) => {
                    &&& r == UploadOutcome::Bound { replaced: old(self)@.texture(index) }
                    &&& forall|i: u32| #[trigger]
                        final(self)@.texture(i) == if i == index {
                            Some(h)
                        } else {
                            old(self)@.texture(i)
                        }
                },
                None => r == UploadOutcome::Failed && final(self)@ == old(self)@,
            },
    {
        match loaded {
            None => UploadOutcome::Failed,
            Some(h) => {
                let e = BoundTexture { index, handle: h };
                let ghost before = self.textures@;
                match self.position(index) {
                    Some(k) => {
                        let replaced = self.textures[k].handle;
                        proof {
                            lemma_lookup_first(before, k as int);
                        }
                        self.textures.set(k, e);
                        proof {
                            assert forall|j: int| 0 <= j < k implies self.textures@[j].index
                                != index by {
                                assert(self.textures@[j] == before[j]);
                            }
                            lemma_lookup_first(self.textures@, k as int);
                            assert forall|i: u32| #[trigger]
                                lookup(self.textures@, i) == if i == index {
                                    Some(h)
                                } else {
                                    lookup(before, i)
                                } by {
                                if i != index {
                                    lemma_lookup_update(before, k as int, e, i);
                                }
                            }
                        }
                        UploadOutcome::Bound { replaced: Some(replaced) }
                    },
                    None => {
                        proof {
                            lemma_lookup_absent(before, index);
                        }
                        self.textures.push(e);
                        proof {
                            assert forall|i: u32| #[trigger]
                                lookup(self.textures@, i) == if i == index {
                                    Some(h)
                                } else {
                                    lookup(before, i)
                                } by {
                                lemma_lookup_push(before, e, i);
                            }
                        }
                        UploadOutcome::Bound { replaced: None }
                    },
                }
            },
        }
    }
}

} // verus!
