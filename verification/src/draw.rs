//! The arguments of the indirect draw call, and the stage that writes the
//! cursor of the face generation pass into them.
use vstd::prelude::*;

verus! {

/// The four words that an indirect draw call reads.
#[derive(Clone, Copy, Debug, PartialEq, Eq, Structural)]
pub struct DrawArgs {
    pub vertex_count: u32,
    pub instance_count: u32,
    pub first_vertex: u32,
    pub first_instance: u32,
}

impl DrawArgs {
    /// The arguments before any frame: nothing to draw, in one instance, from
    /// the start.
    pub fn new() -> (args: DrawArgs)
        ensures
            args == (DrawArgs {
                vertex_count: 0,
                instance_count: 1,
                first_vertex: 0,
                first_instance: 0,
            }),
    {
        DrawArgs { vertex_count: 0, instance_count: 1, first_vertex: 0, first_instance: 0 }
    }

    /// Writes the cursor into the count of the draw call, and leaves the
    /// other three words as they are.
    pub fn write_vertex_count(&mut self, cursor: u32)
        ensures
            *final(self) == (DrawArgs { vertex_count: cursor, ..*old(self) }),
    {
        self.vertex_count = cursor;
    }

    /// The four words in the order in which the draw call reads them.
    pub fn words(&self) -> (words: Vec<u32>)
        ensures
            words@ == seq![
                self.vertex_count,
                self.instance_count,
                self.first_vertex,
                self.first_instance,
            ],
    {
        let mut words: Vec<u32> = Vec::new();
        words.push(self.vertex_count);
        words.push(self.instance_count);
        words.push(self.first_vertex);
        words.push(self.first_instance);
        assert(words@ =~= seq![
            self.vertex_count,
            self.instance_count,
            self.first_vertex,
            self.first_instance,
        ]);
        words
    }
}

} // verus!
