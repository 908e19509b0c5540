use vstd::prelude::*;

verus! {

/// Identifies one loaded texture. Textures themselves live outside this
/// library, in the rendering layer; the library only assigns and stores the
/// indices, in the order the textures are created.
#[derive(Debug, Clone, Copy, PartialEq, Eq, Hash, Structural)]
pub struct TextureId(pub usize);

impl TextureId {
    /// The identifier is the texture's index in the rendering layer's
    /// creation order.
    pub open spec fn view(&self) -> usize {
        self.0
    }

    pub fn new(index: usize) -> (id: TextureId)
        ensures
            id@ == index,
    {
        TextureId(index)
    }

    pub fn index(&self) -> (index: usize)
        ensures
            index == self@,
    {
        self.0
    }
}

} // verus!
