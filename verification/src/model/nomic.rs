//! The embedder as the engine sees it: a source of vectors of one fixed
//! dimension.

use vstd::prelude::*;

verus! {

/// Turns a text into its embedding, a vector of binary32 patterns. Every
/// embedding of one embedder has the same number of components.
pub trait Embedder {
    /// The number of components of every embedding.
    spec fn dimension(&self) -> nat;

    /// Embeds a text.
    fn encode(&self, text: &str) -> (embedded: Result<Vec<u32>, String>)
        ensures
            embedded matches Ok(vector) ==> vector@.len() == self.dimension(),
    ;
}

/// An embedder for trials: every text is embedded as the zero vector of
/// 768 components.
#[derive(Debug, Clone, Copy)]
pub struct MockEmbedder;

impl Embedder for MockEmbedder {
    open spec fn dimension(&self) -> nat {
        768
    }

    fn encode(&self, _text: &str) -> (embedded: Result<Vec<u32>, String>)
        ensures
            embedded matches Ok(vector) && vector@ == Seq::new(768, |i: int| 0u32),
    {
        let mut vector: Vec<u32> = Vec::with_capacity(768);
        let mut i: usize = 0;
        while i < 768
            invariant
                i <= 768,
                vector@ == Seq::new(i as nat, |j: int| 0u32),
            decreases 768 - i,
        {
            vector.push(0);
            assert(vector@ =~= Seq::new((i + 1) as nat, |j: int| 0u32));
            i += 1;
        }
        Ok(vector)
    }
}

} // verus!
